//! A directory-based plugin registry engine: manifest codec, version policy,
//! validation, marketplace synchronization, scaffolding and the pre-commit
//! reconciliation flow, all stated over plain string values.
//!
//! File and process effects (reading and writing the manifest files, invoking
//! the version-control tool) live outside this crate; every function here is
//! a pure computation from the relevant file contents to new file contents
//! and decisions.

pub mod bump;
pub mod codec;
pub mod market;
pub mod precommit;
pub mod scaffold;
pub mod strutil;
pub mod types;
pub mod validate;
pub mod version;

use vstd::prelude::*;

verus! {

/// Joins two path fragments with a single separator.
pub open spec fn spec_path_join(a: Seq<char>, b: Seq<char>) -> Seq<char> {
    if a.len() == 0 {
        b
    } else if a[a.len() - 1] == '/' {
        a + b
    } else {
        a + seq!['/'] + b
    }
}

/// Executable path join matching `spec_path_join`.
pub fn path_join(a: &str, b: &str) -> (r: String)
    ensures
        r@ == spec_path_join(a@, b@),
{
    let mut out = String::new();
    let n: usize = a.unicode_len();
    if n == 0 {
        out.append(b);
        assert(out@ =~= spec_path_join(a@, b@));
        return out;
    }
    out.append(a);
    if a.get_char(n - 1) != '/' {
        strutil::push_char(&mut out, '/');
        out.append(b);
        assert(out@ =~= spec_path_join(a@, b@));
        return out;
    }
    out.append(b);
    assert(out@ =~= spec_path_join(a@, b@));
    out
}

} // verus!
