//! Version policy: a plain semantic-version triple, strict ordering, bump
//! levels, rendering to the canonical `major.minor.patch` string, and parsing
//! through the `semver` crate.

use vstd::prelude::*;
use crate::strutil;
use crate::strutil::dec_str;

verus! {

/// A semantic version reduced to its numeric triple. Pre-release and build
/// metadata are outside this system's policy: bumping always produces a bare
/// triple, exactly as the original tool does.
#[derive(Clone, Copy, Debug, PartialEq, Eq, Structural)]
pub struct Version {
    pub major: u64,
    pub minor: u64,
    pub patch: u64,
}

/// Which component of a semantic version an increment targets.
#[derive(Clone, Copy, Debug, PartialEq, Eq, Structural)]
pub enum BumpLevel {
    Patch,
    Minor,
    Major,
}

/// Strict semantic-version precedence on numeric triples: major first, then
/// minor, then patch.
pub open spec fn version_lt(a: Version, b: Version) -> bool {
    a.major < b.major
    || (a.major == b.major && a.minor < b.minor)
    || (a.major == b.major && a.minor == b.minor && a.patch < b.patch)
}

/// The triple a bump produces, component-wise.
pub open spec fn spec_bump(level: BumpLevel, v: Version) -> Version {
    match level {
        BumpLevel::Patch => Version { major: v.major, minor: v.minor, patch: (v.patch + 1) as u64 },
        BumpLevel::Minor => Version { major: v.major, minor: (v.minor + 1) as u64, patch: 0 },
        BumpLevel::Major => Version { major: (v.major + 1) as u64, minor: 0, patch: 0 },
    }
}

/// Whether the component a bump increments still has headroom, so the
/// increment cannot wrap.
pub open spec fn bump_fits(level: BumpLevel, v: Version) -> bool {
    match level {
        BumpLevel::Patch => v.patch < u64::MAX,
        BumpLevel::Minor => v.minor < u64::MAX,
        BumpLevel::Major => v.major < u64::MAX,
    }
}

impl BumpLevel {
    /// Returns a bumped version that is strictly greater than the current one
    /// under semantic-version precedence.
    pub fn bump(self, current: &Version) -> (r: Version)
        requires
            bump_fits(self, *current),
        ensures
            r == spec_bump(self, *current),
            version_lt(*current, r),
    {
        match self {
            BumpLevel::Patch => Version { major: current.major, minor: current.minor, patch: current.patch + 1 },
            BumpLevel::Minor => Version { major: current.major, minor: current.minor + 1, patch: 0 },
            BumpLevel::Major => Version { major: current.major + 1, minor: 0, patch: 0 },
        }
    }
}

/// The canonical `major.minor.patch` rendering of a triple.
pub open spec fn version_str(v: Version) -> Seq<char> {
    dec_str(v.major as nat) + seq!['.'] + dec_str(v.minor as nat) + seq!['.'] + dec_str(v.patch as nat)
}

/// Renders a version as its canonical string.
pub fn version_to_string(v: &Version) -> (r: String)
    ensures
        r@ == version_str(*v),
{
    let mut s = String::new();
    strutil::push_dec(&mut s, v.major);
    strutil::push_char(&mut s, '.');
    strutil::push_dec(&mut s, v.minor);
    strutil::push_char(&mut s, '.');
    strutil::push_dec(&mut s, v.patch);
    assert(s@ =~= version_str(*v));
    s
}

/// The triple that `semver::Version::parse` reads out of a string, if any.
pub uninterp spec fn parsed_semver(s: Seq<char>) -> Option<Version>;

/// Relies on `semver::Version::parse`: the result is a function of the text
/// alone, and a canonical `major.minor.patch` string of decimal numbers with
/// no leading zeros parses to exactly that numeric triple.
#[verifier::external_body]
pub fn parse_version(s: &str) -> (r: Option<Version>)
    ensures
        r == parsed_semver(s@),
        forall|v: Version| s@ == version_str(v) ==> r == Some(v),
{
    match semver::Version::parse(s) {
        Ok(v) => Some(Version { major: v.major, minor: v.minor, patch: v.patch }),
        Err(_) => None,
    }
}

} // verus!
