//! Validator: checks a decoded manifest's required fields and the existence
//! of its referenced paths. Existence is supplied by the caller as plain
//! facts, so the checks themselves are pure.

use vstd::prelude::*;
use crate::codec::{self, DecodeError, is_ws, spec_decode_manifest};
use crate::types::{ManifestView, PluginManifest};
use crate::version::parse_version;
use crate::version::parsed_semver;

verus! {

/// One of the manifest's optional resource-path fields.
#[derive(Clone, Copy, Debug, PartialEq, Eq, Structural)]
pub enum PathField {
    Commands,
    Agents,
    Skills,
    Hooks,
}

/// Whether each referenced path, if the manifest names one, exists on the
/// filesystem. The caller that read the manifest also answers these.
#[derive(Clone, Copy, Debug, PartialEq, Eq, Structural)]
pub struct PathPresence {
    pub commands: bool,
    pub agents: bool,
    pub skills: bool,
    pub hooks: bool,
}

/// Why a manifest failed validation; each variant names the offending part.
#[derive(Clone, Copy, Debug, PartialEq, Eq, Structural)]
pub enum ValidateError {
    /// The document was empty or whitespace only.
    EmptyManifest,
    /// The document was not a well-formed manifest.
    MalformedManifest,
    /// The name field was missing from the document or blank.
    MissingName,
    /// The description field was missing from the document or blank.
    MissingDescription,
    /// The version field did not parse as a semantic version.
    InvalidVersion,
    /// The named path field refers to a filesystem entry that does not exist.
    MissingPath(PathField),
}

/// A string that is empty or all whitespace.
pub open spec fn is_blank(s: Seq<char>) -> bool {
    forall|i: int| 0 <= i < s.len() ==> is_ws(#[trigger] s[i])
}

/// The exact outcome of validation: decode, then required fields in order,
/// then the version, then each present path field in declared order. The
/// first failure wins.
pub open spec fn spec_validate(s: Seq<char>, pres: PathPresence) -> Result<
    ManifestView,
    ValidateError,
> {
    match spec_decode_manifest(s) {
        Err(DecodeError::Empty) => Err(ValidateError::EmptyManifest),
        Err(DecodeError::Malformed) => Err(ValidateError::MalformedManifest),
        Ok(m) => {
            if is_blank(m.name) {
                Err(ValidateError::MissingName)
            } else if is_blank(m.description) {
                Err(ValidateError::MissingDescription)
            } else if parsed_semver(m.version) is None {
                Err(ValidateError::InvalidVersion)
            } else if m.commands is Some && !pres.commands {
                Err(ValidateError::MissingPath(PathField::Commands))
            } else if m.agents is Some && !pres.agents {
                Err(ValidateError::MissingPath(PathField::Agents))
            } else if m.skills is Some && !pres.skills {
                Err(ValidateError::MissingPath(PathField::Skills))
            } else if m.hooks is Some && !pres.hooks {
                Err(ValidateError::MissingPath(PathField::Hooks))
            } else {
                Ok(m)
            }
        },
    }
}

/// Whether a string is empty or all whitespace.
fn is_blank_str(s: &String) -> (r: bool)
    ensures
        r == is_blank(s@),
{
    let n: usize = s.as_str().unicode_len();
    let mut i: usize = 0;
    while i < n
        invariant
            i <= n,
            n == s@.len(),
            forall|j: int| 0 <= j < i ==> is_ws(#[trigger] s@[j]),
        decreases n - i,
    {
        let c = s.as_str().get_char(i);
        if !(c == ' ' || c == '\n' || c == '\t' || c == '\r') {
            return false;
        }
        i = i + 1;
    }
    true
}

/// Validates a manifest document against the schema and the supplied path
/// facts; the result is exactly `spec_validate` of the content.
pub fn validate_plugin(content: &str, pres: &PathPresence) -> (r: Result<
    PluginManifest,
    ValidateError,
>)
    ensures
        match r {
            Ok(m) => spec_validate(content@, *pres) == Ok::<ManifestView, ValidateError>(m@),
            Err(e) => spec_validate(content@, *pres) == Err::<ManifestView, ValidateError>(e),
        },
{
    let m = match codec::decode_manifest(content) {
        Err(DecodeError::Empty) => {
            return Err(ValidateError::EmptyManifest);
        },
        Err(DecodeError::Malformed) => {
            return Err(ValidateError::MalformedManifest);
        },
        Ok(m) => m,
    };
    if is_blank_str(&m.name) {
        return Err(ValidateError::MissingName);
    }
    if is_blank_str(&m.description) {
        return Err(ValidateError::MissingDescription);
    }
    if parse_version(m.version.as_str()).is_none() {
        return Err(ValidateError::InvalidVersion);
    }
    if m.commands.is_some() && !pres.commands {
        return Err(ValidateError::MissingPath(PathField::Commands));
    }
    if m.agents.is_some() && !pres.agents {
        return Err(ValidateError::MissingPath(PathField::Agents));
    }
    if m.skills.is_some() && !pres.skills {
        return Err(ValidateError::MissingPath(PathField::Skills));
    }
    if m.hooks.is_some() && !pres.hooks {
        return Err(ValidateError::MissingPath(PathField::Hooks));
    }
    Ok(m)
}

/// A well-formed manifest with non-blank required fields, a parsing
/// version, and every referenced path present validates to exactly its
/// decoded form.
pub proof fn lemma_validate_accepts(s: Seq<char>, pres: PathPresence, m: ManifestView)
    requires
        spec_decode_manifest(s) == Ok::<ManifestView, DecodeError>(m),
        !is_blank(m.name),
        !is_blank(m.description),
        parsed_semver(m.version) is Some,
        m.commands is Some ==> pres.commands,
        m.agents is Some ==> pres.agents,
        m.skills is Some ==> pres.skills,
        m.hooks is Some ==> pres.hooks,
    ensures
        spec_validate(s, pres) == Ok::<ManifestView, ValidateError>(m),
{
}

/// A manifest whose referenced path is absent fails validation with an
/// error naming exactly the first such field, never a generic failure.
pub proof fn lemma_validate_names_missing_path(s: Seq<char>, pres: PathPresence, m: ManifestView)
    requires
        spec_decode_manifest(s) == Ok::<ManifestView, DecodeError>(m),
        !is_blank(m.name),
        !is_blank(m.description),
        parsed_semver(m.version) is Some,
        m.commands is Some && !pres.commands,
    ensures
        spec_validate(s, pres) == Err::<ManifestView, ValidateError>(
            ValidateError::MissingPath(PathField::Commands),
        ),
{
}

} // verus!
