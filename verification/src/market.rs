//! Registry synchronizer: computes a plugin's canonical marketplace entry
//! and upserts it into the index, keyed by plugin name. Loading tolerates a
//! missing or blank index by bootstrapping the default one.

use vstd::prelude::*;
use crate::codec::{self, DecodeError, skip_ws, enc_marketplace, spec_decode_marketplace};
use crate::types::{
    default_marketplace, default_marketplace_view, EntryView, ManifestView, Marketplace,
    MarketplaceEntry, MarketplaceView, PluginManifest,
};

verus! {

/// What `pathdiff::diff_paths` computes for a path against a base.
pub uninterp spec fn rel_path_of(path: Seq<char>, base: Seq<char>) -> Option<Seq<char>>;

/// Relies on `pathdiff::diff_paths`: the relative route from `base` to
/// `path`, a function of the two path strings alone.
#[verifier::external_body]
fn relative_path(path: &str, base: &str) -> (r: Option<String>)
    ensures
        match r {
            Some(s) => rel_path_of(path@, base@) == Some(s@),
            None => rel_path_of(path@, base@) is None,
        },
{
    pathdiff::diff_paths(path, base).map(|p| p.to_string_lossy().to_string())
}

/// The source recorded for a plugin directory: its path relative to the
/// marketplace root, or the directory itself when no relative path exists.
pub open spec fn source_of(dir: Seq<char>, root: Seq<char>) -> Seq<char> {
    match rel_path_of(dir, root) {
        Some(r) => r,
        None => dir,
    }
}

/// The canonical marketplace entry for a manifest and its source path.
pub open spec fn entry_for(m: ManifestView, src: Seq<char>) -> EntryView {
    EntryView { name: m.name, source: src, description: Some(m.description) }
}

/// The first index holding an entry of the given name, or -1.
pub open spec fn first_idx(ps: Seq<EntryView>, n: Seq<char>) -> int
    decreases ps.len(),
{
    if ps.len() == 0 {
        -1
    } else if ps[0].name == n {
        0
    } else {
        let r = first_idx(ps.skip(1), n);
        if r < 0 {
            -1
        } else {
            r + 1
        }
    }
}

/// What `first_idx` finds: a well-placed first occurrence, or none at all.
pub proof fn lemma_first_idx_props(ps: Seq<EntryView>, n: Seq<char>)
    ensures
        first_idx(ps, n) == -1 ==> forall|j: int|
            0 <= j < ps.len() ==> (#[trigger] ps[j]).name != n,
        first_idx(ps, n) >= 0 ==> 0 <= first_idx(ps, n) < ps.len() && ps[first_idx(
            ps,
            n,
        )].name == n && forall|j: int| 0 <= j < first_idx(ps, n) ==> (#[trigger] ps[j]).name != n,
    decreases ps.len(),
{
    if ps.len() == 0 {
    } else if ps[0].name == n {
    } else {
        lemma_first_idx_props(ps.skip(1), n);
        assert(forall|j: int| 1 <= j < ps.len() ==> ps[j] == ps.skip(1)[j - 1]);
    }
}

/// An occurrence at `k` behind a name-free prefix is the first occurrence.
pub proof fn lemma_first_idx_found(ps: Seq<EntryView>, n: Seq<char>, k: int)
    requires
        0 <= k < ps.len(),
        ps[k].name == n,
        forall|j: int| 0 <= j < k ==> (#[trigger] ps[j]).name != n,
    ensures
        first_idx(ps, n) == k,
    decreases k,
{
    if k == 0 {
    } else {
        assert(ps[0].name != n);
        assert(ps.skip(1)[k - 1] == ps[k]);
        assert(forall|j: int| 0 <= j < k - 1 ==> ps.skip(1)[j] == ps[j + 1]);
        lemma_first_idx_found(ps.skip(1), n, k - 1);
    }
}

/// The upsert on the entry sequence: overwrite in place, or append.
pub open spec fn upsert_entries(ps: Seq<EntryView>, e: EntryView) -> Seq<EntryView> {
    let k = first_idx(ps, e.name);
    if k >= 0 {
        ps.update(k, e)
    } else {
        ps.push(e)
    }
}

/// The upsert on the whole index: name and owner are untouched.
pub open spec fn spec_upsert(m: MarketplaceView, e: EntryView) -> MarketplaceView {
    MarketplaceView { plugins: upsert_entries(m.plugins, e), ..m }
}

/// The view of optionally present index content.
pub open spec fn content_view(c: Option<&String>) -> Option<Seq<char>> {
    match c {
        Some(s) => Some(s@),
        None => None,
    }
}

/// What loading the index yields: the default index when the file is
/// absent or blank, otherwise its decoding.
pub open spec fn load_or_default(c: Option<Seq<char>>) -> Result<MarketplaceView, DecodeError> {
    match c {
        None => Ok(default_marketplace_view()),
        Some(s) => {
            if skip_ws(s).len() == 0 {
                Ok(default_marketplace_view())
            } else {
                spec_decode_marketplace(s)
            }
        },
    }
}

/// Loads a marketplace from optional file content, bootstrapping the
/// default when the file is absent or blank; exactly `load_or_default`.
pub fn marketplace_from_content(content: Option<&String>) -> (r: Result<Marketplace, DecodeError>)
    ensures
        match r {
            Ok(m) => load_or_default(content_view(content)) == Ok::<MarketplaceView, DecodeError>(
                m@,
            ),
            Err(e) => load_or_default(content_view(content)) == Err::<MarketplaceView, DecodeError>(
                e,
            ),
        },
{
    match content {
        None => Ok(default_marketplace()),
        Some(s) => {
            match codec::decode_marketplace(s.as_str()) {
                Ok(m) => Ok(m),
                Err(DecodeError::Empty) => Ok(default_marketplace()),
                Err(DecodeError::Malformed) => Err(DecodeError::Malformed),
            }
        },
    }
}

/// Upserts an entry into the index, preserving the position of an existing
/// entry of the same name and appending otherwise.
pub fn upsert_entry(m: &mut Marketplace, e: MarketplaceEntry)
    ensures
        final(m)@ == spec_upsert(old(m)@, e@),
{
    let ghost ps = old(m)@.plugins;
    let n = m.plugins.len();
    let mut k: usize = 0;
    while k < n
        invariant
            k <= n,
            n == m.plugins.len(),
            *m == *old(m),
            ps == m@.plugins,
            ps.len() == n as int,
            forall|j: int| 0 <= j < k ==> (#[trigger] ps[j]).name != e@.name,
        decreases n - k,
    {
        assert(ps[k as int] == m.plugins@[k as int]@);
        if m.plugins[k].name == e.name {
            assert(ps[k as int].name == e@.name);
            proof {
                lemma_first_idx_found(ps, e@.name, k as int);
            }
            m.plugins.remove(k);
            m.plugins.insert(k, e);
            assert(m@.plugins =~= ps.update(k as int, e@));
            assert(final(m)@ =~= spec_upsert(old(m)@, e@));
            return ;
        }
        assert(ps[k as int].name != e@.name);
        k = k + 1;
    }
    proof {
        lemma_first_idx_props(ps, e@.name);
        if first_idx(ps, e@.name) >= 0 {
            assert(ps[first_idx(ps, e@.name)].name == e@.name);
            assert(false);
        }
    }
    m.plugins.push(e);
    assert(m@.plugins =~= ps.push(e@));
    assert(final(m)@ =~= spec_upsert(old(m)@, e@));
}

/// The source path recorded for a directory: relative to the root where a
/// relative route exists, the directory itself otherwise.
pub fn source_for(path: &str, root: &str) -> (r: String)
    ensures
        r@ == source_of(path@, root@),
{
    match relative_path(path, root) {
        Some(s) => s,
        None => path.to_owned(),
    }
}

/// The canonical marketplace entry for a manifest and its directory: the
/// source is the directory relative to the root, or the directory itself
/// when no relative route exists.
pub fn compute_entry(manifest: &PluginManifest, plugin_dir: &str, root: &str) -> (e:
    MarketplaceEntry)
    ensures
        e@ == entry_for(manifest@, source_of(plugin_dir@, root@)),
{
    let source = source_for(plugin_dir, root);
    let e = MarketplaceEntry {
        name: manifest.name.clone(),
        source,
        description: Some(manifest.description.clone()),
    };
    assert(e@ =~= entry_for(manifest@, source_of(plugin_dir@, root@)));
    e
}

/// Adds or updates a plugin's entry in the marketplace index: loads or
/// bootstraps the index from the given content, computes the entry from the
/// manifest and the plugin directory, upserts it, and returns the new index
/// document.
pub fn add_to_marketplace(
    root: &str,
    manifest: &PluginManifest,
    plugin_dir: &str,
    index_content: Option<&String>,
) -> (r: Result<String, DecodeError>)
    ensures
        match r {
            Ok(out) => exists|mv: MarketplaceView|
                load_or_default(content_view(index_content)) == Ok::<
                    MarketplaceView,
                    DecodeError,
                >(mv) && out@ == enc_marketplace(
                    #[trigger] spec_upsert(mv, entry_for(manifest@, source_of(plugin_dir@, root@))),
                ),
            Err(e) => load_or_default(content_view(index_content)) == Err::<
                MarketplaceView,
                DecodeError,
            >(e),
        },
{
    let mut m = match marketplace_from_content(index_content) {
        Ok(m) => m,
        Err(e) => {
            return Err(e);
        },
    };
    let ghost mv = m@;
    let entry = compute_entry(manifest, plugin_dir, root);
    upsert_entry(&mut m, entry);
    Ok(codec::encode_marketplace(&m))
}

/// The upsert is idempotent on the index value: applying the same entry
/// twice gives the same index as applying it once.
pub proof fn lemma_upsert_idempotent(m: MarketplaceView, e: EntryView)
    ensures
        spec_upsert(spec_upsert(m, e), e) == spec_upsert(m, e),
{
    let ps = m.plugins;
    lemma_first_idx_props(ps, e.name);
    let k = first_idx(ps, e.name);
    if k >= 0 {
        let ps2 = ps.update(k, e);
        assert(ps2[k].name == e.name);
        assert(forall|j: int| 0 <= j < k ==> #[trigger] ps2[j] == ps[j]);
        lemma_first_idx_found(ps2, e.name, k);
        assert(ps2.update(k, e) =~= ps2);
    } else {
        let ps2 = ps.push(e);
        assert(ps2[ps.len() as int] == e);
        assert(forall|j: int| 0 <= j < ps.len() ==> #[trigger] ps2[j] == ps[j]);
        lemma_first_idx_found(ps2, e.name, ps.len() as int);
        assert(ps2.update(ps.len() as int, e) =~= ps2);
    }
}

/// Upserting into the bootstrapped default index yields exactly one entry
/// beside the default name and owner.
pub proof fn lemma_upsert_bootstrap(e: EntryView)
    ensures
        spec_upsert(default_marketplace_view(), e).plugins =~= seq![e],
        spec_upsert(default_marketplace_view(), e).name == default_marketplace_view().name,
        spec_upsert(default_marketplace_view(), e).owner_name == default_marketplace_view().owner_name,
{
    assert(first_idx(Seq::<EntryView>::empty(), e.name) == -1);
}

} // verus!

verus! {

/// Feeding an upsert's own output back and upserting the same entry again
/// decodes to the same index and re-encodes to byte-identical content.
pub proof fn lemma_sync_idempotent(mv: MarketplaceView, e: EntryView)
    ensures
        load_or_default(Some(enc_marketplace(spec_upsert(mv, e)))) == Ok::<
            MarketplaceView,
            DecodeError,
        >(spec_upsert(mv, e)),
        enc_marketplace(spec_upsert(spec_upsert(mv, e), e)) == enc_marketplace(spec_upsert(mv, e)),
{
    let u = spec_upsert(mv, e);
    crate::codec::lemma_marketplace_roundtrip(u);
    assert(enc_marketplace(u)[0] == '{');
    assert(!crate::codec::is_ws('{'));
    assert(skip_ws(enc_marketplace(u)) == enc_marketplace(u));
    assert(skip_ws(enc_marketplace(u)).len() > 0);
    lemma_upsert_idempotent(mv, e);
}

} // verus!
