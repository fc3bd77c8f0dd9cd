//! Pre-commit reconciler: for each staged manifest, validate, bump the
//! patch version, re-validate, and fold the result into the marketplace
//! index, fail-fast and without rollback. The flow is a pure function from
//! the file contents to the writes and staging actions to perform; the
//! caller reads the files first and carries the plan out afterwards.

use vstd::prelude::*;
use crate::bump::{bump_version, spec_bump_version, BumpError};
use crate::codec::{enc_marketplace, encode_marketplace, DecodeError};
use crate::market::{
    compute_entry, content_view, entry_for, load_or_default, marketplace_from_content, source_of,
    spec_upsert, upsert_entry,
};
use crate::scaffold::{marketplace_path_for, marketplace_path_of};
use crate::spec_path_join;
use crate::path_join;
use crate::types::{Marketplace, MarketplaceView};
use crate::validate::{spec_validate, validate_plugin, PathPresence, ValidateError};
use crate::version::BumpLevel;

verus! {

/// One manifest handed to the flow: the path it was named by, the file
/// content if the file exists, and the facts about its referenced paths.
#[derive(Debug)]
pub struct ManifestInput {
    pub given_path: String,
    pub content: Option<String>,
    pub presence: PathPresence,
}

/// Mathematical image of a `ManifestInput`.
#[verifier::ext_equal]
pub ghost struct InputView {
    pub given_path: Seq<char>,
    pub content: Option<Seq<char>>,
    pub presence: PathPresence,
}

impl View for ManifestInput {
    type V = InputView;

    open spec fn view(&self) -> InputView {
        InputView {
            given_path: self.given_path@,
            content: match self.content {
                Some(c) => Some(c@),
                None => None,
            },
            presence: self.presence,
        }
    }
}

/// One processed manifest's writes: the bumped manifest document and the
/// marketplace index as of that step, and whether to stage both files.
#[derive(Debug)]
pub struct FileUpdate {
    pub manifest_path: String,
    pub manifest_content: String,
    pub marketplace_content: String,
    pub stage: bool,
}

/// Mathematical image of a `FileUpdate`.
#[verifier::ext_equal]
pub ghost struct UpdateView {
    pub manifest_path: Seq<char>,
    pub manifest_content: Seq<char>,
    pub marketplace_content: Seq<char>,
    pub stage: bool,
}

impl View for FileUpdate {
    type V = UpdateView;

    open spec fn view(&self) -> UpdateView {
        UpdateView {
            manifest_path: self.manifest_path@,
            manifest_content: self.manifest_content@,
            marketplace_content: self.marketplace_content@,
            stage: self.stage,
        }
    }
}

/// Why the flow aborted.
#[derive(Debug)]
pub enum PrecommitError {
    /// The named manifest file does not exist.
    NotFound(String),
    /// A manifest failed validation, before or after the bump.
    Validate(ValidateError),
    /// The bumped version would not be strictly greater.
    NonIncreasing,
    /// The marketplace index could not be decoded.
    Sync(DecodeError),
}

/// Mathematical image of a `PrecommitError`.
pub ghost enum ErrView {
    NotFound(Seq<char>),
    Validate(ValidateError),
    NonIncreasing,
    Sync(DecodeError),
}

impl View for PrecommitError {
    type V = ErrView;

    open spec fn view(&self) -> ErrView {
        match self {
            PrecommitError::NotFound(p) => ErrView::NotFound(p@),
            PrecommitError::Validate(e) => ErrView::Validate(*e),
            PrecommitError::NonIncreasing => ErrView::NonIncreasing,
            PrecommitError::Sync(e) => ErrView::Sync(*e),
        }
    }
}

/// A path made absolute: kept as given, or joined under the root.
pub open spec fn resolve_path(root: Seq<char>, p: Seq<char>) -> Seq<char> {
    if p.len() > 0 && p[0] == '/' {
        p
    } else {
        spec_path_join(root, p)
    }
}

/// The directory containing a path: everything before its last separator.
pub open spec fn parent_dir(s: Seq<char>) -> Seq<char>
    decreases s.len(),
{
    if s.len() == 0 {
        s
    } else if s[s.len() - 1] == '/' {
        s.take(s.len() - 1)
    } else {
        parent_dir(s.take(s.len() - 1))
    }
}

/// What processing one manifest does to the flow state, given the
/// marketplace as loaded (or the failure that loading it produced).
pub open spec fn flow_step(
    root: Seq<char>,
    inp: InputView,
    market: Result<MarketplaceView, DecodeError>,
    skip_stage: bool,
) -> Result<(UpdateView, MarketplaceView), ErrView> {
    let abs = resolve_path(root, inp.given_path);
    match inp.content {
        None => Err(ErrView::NotFound(abs)),
        Some(c) => match spec_validate(c, inp.presence) {
            Err(e) => Err(ErrView::Validate(e)),
            Ok(_) => match spec_bump_version(c, inp.presence, BumpLevel::Patch) {
                Err(BumpError::Validate(e)) => Err(ErrView::Validate(e)),
                Err(BumpError::NonIncreasing) => Err(ErrView::NonIncreasing),
                Ok(p) => match spec_validate(p.0, inp.presence) {
                    Err(e) => Err(ErrView::Validate(e)),
                    Ok(m2) => match market {
                        Err(e) => Err(ErrView::Sync(e)),
                        Ok(mk) => {
                            let pd = parent_dir(parent_dir(abs));
                            let mk2 = spec_upsert(mk, entry_for(m2, source_of(pd, root)));
                            Ok(
                                (
                                    UpdateView {
                                        manifest_path: abs,
                                        manifest_content: p.0,
                                        marketplace_content: enc_marketplace(mk2),
                                        stage: !skip_stage,
                                    },
                                    mk2,
                                ),
                            )
                        },
                    },
                },
            },
        },
    }
}

/// The flow's whole result: the processed paths, the writes, the error
/// that aborted it if any, and the marketplace state it stopped with.
#[verifier::ext_equal]
pub ghost struct FlowOut {
    pub processed: Seq<Seq<char>>,
    pub updates: Seq<UpdateView>,
    pub error: Option<ErrView>,
    pub market: Result<MarketplaceView, DecodeError>,
}

/// Runs the flow over the remaining inputs, sequentially and fail-fast.
pub open spec fn flow_run(
    root: Seq<char>,
    inputs: Seq<InputView>,
    market: Result<MarketplaceView, DecodeError>,
    skip_stage: bool,
) -> FlowOut
    decreases inputs.len(),
{
    if inputs.len() == 0 {
        FlowOut { processed: Seq::empty(), updates: Seq::empty(), error: None, market }
    } else {
        match flow_step(root, inputs[0], market, skip_stage) {
            Err(e) => FlowOut {
                processed: Seq::empty(),
                updates: Seq::empty(),
                error: Some(e),
                market,
            },
            Ok(p) => {
                let rest = flow_run(root, inputs.skip(1), Ok(p.1), skip_stage);
                FlowOut {
                    processed: seq![p.0.manifest_path] + rest.processed,
                    updates: seq![p.0] + rest.updates,
                    error: rest.error,
                    market: rest.market,
                }
            },
        }
    }
}

/// The views of a sequence of inputs.
pub open spec fn ivs(s: Seq<ManifestInput>) -> Seq<InputView> {
    Seq::new(s.len(), |i: int| s[i]@)
}

/// The views of a sequence of updates.
pub open spec fn uvs(s: Seq<FileUpdate>) -> Seq<UpdateView> {
    Seq::new(s.len(), |i: int| s[i]@)
}

/// The view of an optional error.
pub open spec fn err_view(o: Option<PrecommitError>) -> Option<ErrView> {
    match o {
        Some(e) => Some(e@),
        None => None,
    }
}

/// The view of a loaded-or-failed marketplace.
pub open spec fn market_view(m: Result<Marketplace, DecodeError>) -> Result<
    MarketplaceView,
    DecodeError,
> {
    match m {
        Ok(mk) => Ok(mk@),
        Err(e) => Err(e),
    }
}

/// Prior results prepended to a flow result.
pub open spec fn comb_flow(processed: Seq<Seq<char>>, updates: Seq<UpdateView>, f: FlowOut) -> FlowOut {
    FlowOut {
        processed: processed + f.processed,
        updates: updates + f.updates,
        error: f.error,
        market: f.market,
    }
}

proof fn lemma_comb_step(
    processed: Seq<Seq<char>>,
    updates: Seq<UpdateView>,
    path: Seq<char>,
    upd: UpdateView,
    f: FlowOut,
)
    ensures
        comb_flow(
            processed,
            updates,
            FlowOut {
                processed: seq![path] + f.processed,
                updates: seq![upd] + f.updates,
                error: f.error,
                market: f.market,
            },
        ) == comb_flow(processed.push(path), updates.push(upd), f),
{
    assert(processed + (seq![path] + f.processed) =~= processed.push(path) + f.processed);
    assert(updates + (seq![upd] + f.updates) =~= updates.push(upd) + f.updates);
    assert(comb_flow(
        processed,
        updates,
        FlowOut {
            processed: seq![path] + f.processed,
            updates: seq![upd] + f.updates,
            error: f.error,
            market: f.market,
        },
    ) =~= comb_flow(processed.push(path), updates.push(upd), f));
}

/// Whether a path begins with the separator, making it absolute.
fn first_is_slash(s: &String) -> (r: bool)
    ensures
        r == (s@.len() > 0 && s@[0] == '/'),
{
    let n: usize = s.as_str().unicode_len();
    if n > 0 {
        s.as_str().get_char(0) == '/'
    } else {
        false
    }
}

/// The directory containing a path, matching `parent_dir`.
pub fn parent_of(s: &str) -> (r: String)
    ensures
        r@ == parent_dir(s@),
{
    let v = crate::strutil::to_chars(s);
    let mut i: usize = v.len();
    assert(v@.take(i as int) =~= s@);
    while i > 0
        invariant
            i <= v@.len(),
            v@ == s@,
            parent_dir(s@) == parent_dir(v@.take(i as int)),
        decreases i,
    {
        let c = v[i - 1];
        assert(v@.take(i as int)[i - 1] == c);
        if c == '/' {
            let mut out = String::new();
            let mut k: usize = 0;
            while k < i - 1
                invariant
                    k <= i - 1,
                    i - 1 < v@.len() + 1,
                    i >= 1,
                    out@ =~= v@.take(i as int - 1).take(k as int),
                    v@ == s@,
                decreases i - 1 - k,
            {
                assert(v@.take(i as int - 1)[k as int] == v@[k as int]);
                crate::strutil::push_char(&mut out, v[k]);
                assert(out@ =~= v@.take(i as int - 1).take(k as int + 1));
                k = k + 1;
            }
            assert(out@ =~= v@.take(i as int - 1));
            assert(v@.take(i as int).take(i as int - 1) =~= v@.take(i as int - 1));
            assert(parent_dir(v@.take(i as int)) == v@.take(i as int - 1));
            return out;
        }
        assert(v@.take(i as int).take(i as int - 1) =~= v@.take(i as int - 1));
        i = i - 1;
    }
    assert(v@.take(0) =~= Seq::<char>::empty());
    assert(parent_dir(s@) == Seq::<char>::empty());
    let out = String::new();
    out
}

/// Processes one manifest, matching `flow_step`: the returned update's
/// path is the resolved manifest path, its contents are the bumped
/// manifest and the index after the upsert.
fn run_step(
    root: &str,
    inp: &ManifestInput,
    market: Result<Marketplace, DecodeError>,
    skip_stage: bool,
) -> (r: (Result<Marketplace, DecodeError>, Result<FileUpdate, PrecommitError>))
    ensures
        match r.1 {
            Ok(upd) => flow_step(root@, inp@, market_view(market), skip_stage) matches Ok(p)
                && p.0 == upd@ && market_view(r.0) == Ok::<MarketplaceView, DecodeError>(p.1),
            Err(e) => flow_step(root@, inp@, market_view(market), skip_stage) == Err::<
                (UpdateView, MarketplaceView),
                ErrView,
            >(e@) && market_view(r.0) == market_view(market),
        },
{
    let abs = if first_is_slash(&inp.given_path) {
        inp.given_path.clone()
    } else {
        path_join(root, inp.given_path.as_str())
    };
    assert(abs@ == resolve_path(root@, inp@.given_path));
    let c = match &inp.content {
        None => {
            return (market, Err(PrecommitError::NotFound(abs)));
        },
        Some(c) => c,
    };
    match validate_plugin(c.as_str(), &inp.presence) {
        Err(e) => {
            return (market, Err(PrecommitError::Validate(e)));
        },
        Ok(_) => {},
    }
    let (c2, _ver) = match bump_version(c.as_str(), &inp.presence, BumpLevel::Patch) {
        Err(BumpError::Validate(e)) => {
            return (market, Err(PrecommitError::Validate(e)));
        },
        Err(BumpError::NonIncreasing) => {
            return (market, Err(PrecommitError::NonIncreasing));
        },
        Ok(p) => p,
    };
    let m2 = match validate_plugin(c2.as_str(), &inp.presence) {
        Err(e) => {
            return (market, Err(PrecommitError::Validate(e)));
        },
        Ok(m2) => m2,
    };
    let mut mk = match market {
        Err(e) => {
            return (Err(e), Err(PrecommitError::Sync(e)));
        },
        Ok(mk) => mk,
    };
    let pd1 = parent_of(abs.as_str());
    let pd = parent_of(pd1.as_str());
    let entry = compute_entry(&m2, pd.as_str(), root);
    upsert_entry(&mut mk, entry);
    let mc = encode_marketplace(&mk);
    let upd = FileUpdate {
        manifest_path: abs,
        manifest_content: c2,
        marketplace_content: mc,
        stage: !skip_stage,
    };
    (Ok(mk), Ok(upd))
}

/// Everything the flow decided, for the caller to carry out in order.
#[derive(Debug)]
pub struct PrecommitOutcome {
    /// The marketplace index path under the root.
    pub marketplace_path: String,
    /// The absolute paths of the manifests processed, in order.
    pub processed: Vec<String>,
    /// The writes to perform, one per processed manifest, in order.
    pub updates: Vec<FileUpdate>,
    /// The failure that aborted the flow, if any; prior items stand.
    pub error: Option<PrecommitError>,
}

/// Runs the pre-commit flow over the given manifests and the marketplace
/// index content. The outcome is exactly `flow_run` over the inputs'
/// views, starting from the loaded (or bootstrapped) index; an empty input
/// list yields an empty outcome with no error and no writes.
#[verifier::rlimit(100)]
#[verifier::spinoff_prover]
pub fn precommit_flow(
    root: &str,
    manifests: &Vec<ManifestInput>,
    index_content: Option<&String>,
    skip_stage: bool,
) -> (r: PrecommitOutcome)
    ensures
        r.marketplace_path@ == marketplace_path_of(root@),
        ({
            let f = flow_run(
                root@,
                ivs(manifests@),
                load_or_default(content_view(index_content)),
                skip_stage,
            );
            r.processed.deep_view() == f.processed && uvs(r.updates@) == f.updates && err_view(
                r.error,
            ) == f.error
        }),
        manifests@.len() == 0 ==> r.processed@.len() == 0 && r.updates@.len() == 0 && r.error
            is None,
{
    let ghost market0 = load_or_default(content_view(index_content));
    let ghost all = ivs(manifests@);
    let ghost total = flow_run(root@, all, market0, skip_stage);
    let marketplace_path = marketplace_path_for(root);
    let mut market: Result<Marketplace, DecodeError> = marketplace_from_content(index_content);
    let mut processed: Vec<String> = Vec::new();
    let mut updates: Vec<FileUpdate> = Vec::new();
    let mut error: Option<PrecommitError> = None;
    let mut k: usize = 0;
    let n = manifests.len();
    assert(all.skip(0) =~= all);
    assert(comb_flow(processed.deep_view(), uvs(updates@), flow_run(root@, all, market0, skip_stage))
        =~= flow_run(root@, all, market0, skip_stage));
    while k < n && error.is_none()
        invariant
            k <= n,
            n == manifests@.len(),
            all == ivs(manifests@),
            total == flow_run(root@, all, market0, skip_stage),
            error is None ==> comb_flow(
                processed.deep_view(),
                uvs(updates@),
                flow_run(root@, all.skip(k as int), market_view(market), skip_stage),
            ) == total,
            error matches Some(e) ==> (FlowOut {
                processed: processed.deep_view(),
                updates: uvs(updates@),
                error: Some(e@),
                market: market_view(market),
            }) == total,
        decreases n - k,
    {
        let ghost pre_market = market_view(market);
        let ghost rem = all.skip(k as int);
        assert(rem[0] == all[k as int]);
        assert(all[k as int] == manifests@[k as int]@);
        assert(rem.skip(1) =~= all.skip(k as int + 1));
        let inp = &manifests[k];
        let ghost step = flow_step(root@, inp@, pre_market, skip_stage);
        let (market2, sr) = run_step(root, inp, market, skip_stage);
        market = market2;
        match sr {
            Err(e) => {
                error = Some(e);
            },
            Ok(upd) => {
                let ghost p0 = processed.deep_view();
                let ghost u0 = uvs(updates@);
                let ghost uv = upd@;
                let path = upd.manifest_path.clone();
                let ghost pathv = path@;
                proof {
                    assert(step matches Ok(p) && p.0 == uv && Ok::<MarketplaceView, DecodeError>(
                        p.1,
                    ) == market_view(market));
                    lemma_comb_step(
                        p0,
                        u0,
                        pathv,
                        uv,
                        flow_run(root@, rem.skip(1), market_view(market), skip_stage),
                    );
                }
                processed.push(path);
                updates.push(upd);
                proof {
                    assert(processed.deep_view() =~= p0.push(pathv));
                    assert(uvs(updates@) =~= u0.push(uv));
                }
            },
        }
        k = k + 1;
    }
    proof {
        if error is None {
            assert(k == n);
            assert(all.skip(k as int) =~= Seq::<InputView>::empty());
            let base = flow_run(root@, all.skip(k as int), market_view(market), skip_stage);
            assert(base.processed =~= Seq::<Seq<char>>::empty());
            assert(base.updates =~= Seq::<UpdateView>::empty());
            assert(processed.deep_view() + base.processed =~= processed.deep_view());
            assert(uvs(updates@) + base.updates =~= uvs(updates@));
            assert(total.processed == processed.deep_view());
            assert(total.updates == uvs(updates@));
            assert(total.error is None);
        }
        if manifests@.len() == 0 {
            assert(total.processed.len() == 0);
            assert(total.updates.len() == 0);
            assert(processed.deep_view().len() == processed@.len());
            assert(uvs(updates@).len() == updates@.len());
        }
    }
    PrecommitOutcome { marketplace_path, processed, updates, error }
}

} // verus!

use crate::codec::is_ws;
use crate::market::source_for;
use crate::strutil::{push_char, to_chars};

verus! {

/// Drops trailing whitespace.
pub open spec fn trim_end(s: Seq<char>) -> Seq<char>
    decreases s.len(),
{
    if s.len() > 0 && is_ws(s[s.len() - 1]) {
        trim_end(s.take(s.len() - 1))
    } else {
        s
    }
}

/// A line with its surrounding whitespace removed.
pub open spec fn trimmed(s: Seq<char>) -> Seq<char> {
    trim_end(crate::codec::skip_ws(s))
}

/// Folds one finished line into the result: trimmed, dropped when blank or
/// already present.
pub open spec fn finish_line(cur: Seq<char>, acc: Seq<Seq<char>>) -> Seq<Seq<char>> {
    let t = trimmed(cur);
    if t.len() == 0 || acc.contains(t) {
        acc
    } else {
        acc.push(t)
    }
}

/// Walks the tool output character by character, splitting on newlines.
pub open spec fn staged_rec(s: Seq<char>, cur: Seq<char>, acc: Seq<Seq<char>>) -> Seq<Seq<char>>
    decreases s.len(),
{
    if s.len() == 0 {
        finish_line(cur, acc)
    } else if s[0] == '\n' {
        staged_rec(s.skip(1), Seq::empty(), finish_line(cur, acc))
    } else {
        staged_rec(s.skip(1), cur.push(s[0]), acc)
    }
}

/// The staged paths in the tool's output: its lines, trimmed, blank lines
/// dropped, duplicates dropped keeping the first, in order.
pub open spec fn staged_paths(s: Seq<char>) -> Seq<Seq<char>> {
    staged_rec(s, Seq::empty(), Seq::empty())
}

/// The trimmed form of a line held as characters.
fn trimmed_of(v: &Vec<char>) -> (r: String)
    ensures
        r@ == trimmed(v@),
{
    assert(v@.skip(0) =~= v@);
    let start = crate::codec::p_ws(v, 0);
    let mut end: usize = v.len();
    assert(v@.skip(start as int).take((end - start) as int) =~= v@.skip(start as int));
    while end > start && (v[end - 1] == ' ' || v[end - 1] == '\n' || v[end - 1] == '\t' || v[end
        - 1] == '\r')
        invariant
            start <= end <= v@.len(),
            trim_end(v@.skip(start as int)) == trim_end(
                v@.skip(start as int).take((end - start) as int),
            ),
        decreases end,
    {
        let ghost piece = v@.skip(start as int).take((end - start) as int);
        assert(piece[(end - start - 1) as int] == v@[end - 1]);
        assert(piece.take((end - start - 1) as int) =~= v@.skip(start as int).take(
            (end - start - 1) as int,
        ));
        end = end - 1;
    }
    let ghost piece = v@.skip(start as int).take((end - start) as int);
    proof {
        if end > start {
            assert(piece[(end - start - 1) as int] == v@[end - 1]);
            assert(trim_end(piece) == piece);
        } else {
            assert(piece =~= Seq::<char>::empty());
            assert(trim_end(piece) == piece);
        }
    }
    let mut out = String::new();
    let mut k: usize = start;
    while k < end
        invariant
            start <= k <= end <= v@.len(),
            out@ =~= v@.skip(start as int).take((k - start) as int),
        decreases end - k,
    {
        assert(v@.skip(start as int)[(k - start) as int] == v@[k as int]);
        push_char(&mut out, v[k]);
        assert(out@ =~= v@.skip(start as int).take((k + 1 - start) as int));
        k = k + 1;
    }
    assert(out@ =~= piece);
    out
}

/// Whether the result already holds this path.
fn holds_path(acc: &Vec<String>, t: &String) -> (r: bool)
    ensures
        r == acc.deep_view().contains(t@),
{
    let mut j: usize = 0;
    while j < acc.len()
        invariant
            j <= acc@.len(),
            forall|i: int| 0 <= i < j ==> (#[trigger] acc.deep_view()[i]) != t@,
        decreases acc@.len() - j,
    {
        assert(acc.deep_view()[j as int] == acc@[j as int]@);
        if acc[j].eq(t) {
            assert(acc.deep_view().contains(t@));
            return true;
        }
        j = j + 1;
    }
    assert(!acc.deep_view().contains(t@));
    false
}

/// Folds one finished line into the result, matching `finish_line`.
fn finish_line_exec(acc: &mut Vec<String>, cur: &Vec<char>)
    ensures
        final(acc).deep_view() == finish_line(cur@, old(acc).deep_view()),
{
    let t = trimmed_of(cur);
    let n: usize = t.as_str().unicode_len();
    if n == 0 {
        return ;
    }
    if holds_path(acc, &t) {
        return ;
    }
    let ghost before = acc.deep_view();
    acc.push(t);
    assert(acc.deep_view() =~= before.push(trimmed(cur@)));
}

/// Reads the staged-file listing of the version-control tool: one path per
/// line, trimmed, blank lines dropped, duplicates dropped keeping the
/// first. Exactly `staged_paths` of the text.
pub fn parse_staged_paths(output: &str) -> (r: Vec<String>)
    ensures
        r.deep_view() == staged_paths(output@),
{
    let v = to_chars(output);
    let mut cur: Vec<char> = Vec::new();
    let mut acc: Vec<String> = Vec::new();
    let mut i: usize = 0;
    assert(v@.skip(0) =~= v@);
    assert(cur@ =~= Seq::<char>::empty());
    assert(acc.deep_view() =~= Seq::<Seq<char>>::empty());
    while i < v.len()
        invariant
            i <= v@.len(),
            staged_paths(output@) == staged_rec(v@.skip(i as int), cur@, acc.deep_view()),
            v@ == output@,
        decreases v@.len() - i,
    {
        let c = v[i];
        assert(v@.skip(i as int)[0] == c);
        assert(v@.skip(i as int).skip(1) =~= v@.skip(i as int + 1));
        if c == '\n' {
            finish_line_exec(&mut acc, &cur);
            cur = Vec::new();
            assert(cur@ =~= Seq::<char>::empty());
        } else {
            cur.push(c);
        }
        i = i + 1;
    }
    assert(v@.skip(i as int) =~= Seq::<char>::empty());
    finish_line_exec(&mut acc, &cur);
    acc
}

/// The arguments handed to the staging command: each path written relative
/// to the root where a relative route exists.
pub fn stage_args(paths: &Vec<String>, root: &str) -> (r: Vec<String>)
    ensures
        r.deep_view() == Seq::new(paths@.len(), |i: int| source_of(paths@[i]@, root@)),
{
    let mut out: Vec<String> = Vec::new();
    let mut k: usize = 0;
    while k < paths.len()
        invariant
            k <= paths@.len(),
            out.deep_view() =~= Seq::new(k as nat, |i: int| source_of(paths@[i]@, root@)),
        decreases paths@.len() - k,
    {
        let ghost before = out.deep_view();
        out.push(source_for(paths[k].as_str(), root));
        assert(out.deep_view() =~= before.push(source_of(paths@[k as int]@, root@)));
        assert(out.deep_view() =~= Seq::new((k + 1) as nat, |i: int| source_of(paths@[i]@, root@)));
        k = k + 1;
    }
    assert(out.deep_view() =~= Seq::new(paths@.len(), |i: int| source_of(paths@[i]@, root@)));
    out
}

} // verus!
