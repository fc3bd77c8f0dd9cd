//! Bumping a manifest's version in place: validate, increment the chosen
//! component, and re-encode, refusing any transition that is not strictly
//! increasing.

use vstd::prelude::*;
use crate::codec::{enc_manifest, encode_manifest};
use crate::types::{ManifestView, PluginManifest};
use crate::validate::{spec_validate, validate_plugin, PathPresence, ValidateError};
use crate::version::{
    bump_fits, parse_version, parsed_semver, spec_bump, version_str, version_to_string, BumpLevel,
    Version,
};

verus! {

/// Why a version bump failed.
#[derive(Clone, Copy, Debug, PartialEq, Eq, Structural)]
pub enum BumpError {
    /// The manifest did not validate.
    Validate(ValidateError),
    /// The bumped version would not be strictly greater than the current
    /// one.
    NonIncreasing,
}

/// The exact outcome of bumping a manifest document: the re-encoded
/// document and the new version.
pub open spec fn spec_bump_version(s: Seq<char>, pres: PathPresence, level: BumpLevel) -> Result<
    (Seq<char>, Version),
    BumpError,
> {
    match spec_validate(s, pres) {
        Err(e) => Err(BumpError::Validate(e)),
        Ok(m) => {
            let cur = parsed_semver(m.version).unwrap();
            if !bump_fits(level, cur) {
                Err(BumpError::NonIncreasing)
            } else {
                let b = spec_bump(level, cur);
                Ok((enc_manifest(ManifestView { version: version_str(b), ..m }), b))
            }
        },
    }
}

/// Executable test for `bump_fits`.
fn fits(level: BumpLevel, cur: &Version) -> (r: bool)
    ensures
        r == bump_fits(level, *cur),
{
    match level {
        BumpLevel::Patch => cur.patch < u64::MAX,
        BumpLevel::Minor => cur.minor < u64::MAX,
        BumpLevel::Major => cur.major < u64::MAX,
    }
}

/// Validates a manifest document, bumps its version at the given level and
/// returns the re-encoded document with the new version; exactly
/// `spec_bump_version` of the content.
pub fn bump_version(content: &str, pres: &PathPresence, level: BumpLevel) -> (r: Result<
    (String, Version),
    BumpError,
>)
    ensures
        match r {
            Ok(p) => spec_bump_version(content@, *pres, level) == Ok::<
                (Seq<char>, Version),
                BumpError,
            >((p.0@, p.1)),
            Err(e) => spec_bump_version(content@, *pres, level) == Err::<
                (Seq<char>, Version),
                BumpError,
            >(e),
        },
{
    let m = match validate_plugin(content, pres) {
        Ok(m) => m,
        Err(e) => {
            return Err(BumpError::Validate(e));
        },
    };
    let ghost mv = m@;
    let cur = match parse_version(m.version.as_str()) {
        Some(v) => v,
        None => {
            assert(false);
            return Err(BumpError::NonIncreasing);
        },
    };
    if !fits(level, &cur) {
        return Err(BumpError::NonIncreasing);
    }
    let b = level.bump(&cur);
    let m2 = PluginManifest { version: version_to_string(&b), ..m };
    assert(m2@ =~= ManifestView { version: version_str(b), ..mv });
    let out = encode_manifest(&m2);
    Ok((out, b))
}

} // verus!
