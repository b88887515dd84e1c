//! Semantic versions, and the check of a configuration's minimum prek version.

use vstd::prelude::*;

use crate::text::{decimal, decimal_text, owned};

verus! {

#[verifier::external_type_specification]
#[verifier::external_body]
pub struct ExSemverVersion(semver::Version);

#[verifier::external_type_specification]
#[verifier::external_body]
pub struct ExSemverError(semver::Error);

/// The parts of a version: major, minor, patch, pre-release and build metadata.
pub type VersionParts = (u64, u64, u64, Seq<char>, Seq<char>);

/// What `semver` reads from a text: the version, or the message of the
/// error that it reports when the text is no version.
pub uninterp spec fn semver_parse(text: Seq<char>) -> Result<VersionParts, Seq<char>>;

/// Whether `semver` orders version `a` after version `b`.
pub uninterp spec fn semver_greater(a: VersionParts, b: VersionParts) -> bool;

/// The order on the numeric parts that `semver`'s derived `Ord` compares
/// first: major, then minor, then patch. `Some(true)` when `a` comes after
/// `b`, `Some(false)` when before, `None` when the three parts are equal.
pub open spec fn numeric_order(a: VersionParts, b: VersionParts) -> Option<bool> {
    if a.0 != b.0 {
        Some(a.0 > b.0)
    } else if a.1 != b.1 {
        Some(a.1 > b.1)
    } else if a.2 != b.2 {
        Some(a.2 > b.2)
    } else {
        None
    }
}

/// A version that `semver` parsed.
///
/// Its view is the parts that `semver` read; the `semver::Version` it also
/// holds is the one `semver` returned, which nothing here inspects.
#[derive(Debug)]
pub struct SemVersion {
    major: u64,
    minor: u64,
    patch: u64,
    pre: String,
    build: String,
    version: semver::Version,
}

impl View for SemVersion {
    type V = VersionParts;

    closed spec fn view(&self) -> VersionParts {
        (self.major, self.minor, self.patch, self.pre@, self.build@)
    }
}

/// A text that `semver` does not read as a version: the error it reports,
/// and that error's message.
#[derive(Debug)]
pub struct SemverError {
    pub message: String,
    pub source: semver::Error,
}

/// Parses a version.
///
/// Trusted: calls `semver::Version::parse` and copies the parsed parts, or
/// the displayed message of the error, into plain fields; the contract claims
/// that the result is the one that `semver_parse` names for the text, a
/// function of the text alone.
#[verifier::external_body]
fn parse_semver(text: &str) -> (r: Result<SemVersion, SemverError>)
    ensures
        match r {
            Ok(v) => semver_parse(text@) == Ok::<VersionParts, Seq<char>>(v@),
            Err(e) => semver_parse(text@) == Err::<VersionParts, Seq<char>>(e.message@),
        },
{
    match semver::Version::parse(text) {
        Ok(v) => Ok(
            SemVersion {
                major: v.major,
                minor: v.minor,
                patch: v.patch,
                pre: v.pre.as_str().to_string(),
                build: v.build.as_str().to_string(),
                version: v,
            },
        ),
        Err(e) => Err(SemverError { message: e.to_string(), source: e }),
    }
}

/// Compares two versions.
///
/// Trusted: calls `>` on `semver::Version`, whose `Ord` is derived and so
/// compares major, minor and patch in that order before the pre-release and
/// build parts; a version is never greater than an equal one.
#[verifier::external_body]
fn semver_gt(a: &SemVersion, b: &SemVersion) -> (r: bool)
    ensures
        r == semver_greater(a@, b@),
        numeric_order(a@, b@) matches Some(after) ==> r == after,
        a@ == b@ ==> !r,
{
    a.version > b.version
}

impl SemVersion {
    /// Parses a version text.
    pub fn parse(text: &str) -> (r: Result<SemVersion, SemverError>)
        ensures
            match r {
                Ok(v) => semver_parse(text@) == Ok::<VersionParts, Seq<char>>(v@),
                Err(e) => semver_parse(text@) == Err::<VersionParts, Seq<char>>(e.message@),
            },
    {
        parse_semver(text)
    }

    /// Whether this version comes after `other`.
    pub fn greater_than(&self, other: &SemVersion) -> (r: bool)
        ensures
            r == semver_greater(self@, other@),
            numeric_order(self@, other@) matches Some(after) ==> r == after,
            self@ == other@ ==> !r,
    {
        semver_gt(self, other)
    }

    /// The version as `semver` holds it.
    pub fn as_semver(&self) -> (r: &semver::Version)
        ensures
            *r == self.parsed(),
    {
        &self.version
    }

    /// The version that `semver` parsed, as this value holds it.
    pub closed spec fn parsed(&self) -> semver::Version {
        self.version
    }

    /// The version as `semver` displays it: major, minor and patch joined by
    /// dots, then the pre-release after a dash and the build metadata after a
    /// plus sign, each when there is one.
    pub fn to_string(&self) -> (r: String)
        ensures
            r@ == version_text(self@),
    {
        let mut r = decimal_text(self.major);
        r.append(".");
        r.append(decimal_text(self.minor).as_str());
        r.append(".");
        r.append(decimal_text(self.patch).as_str());
        let ghost numbers = r@;
        if !self.pre.as_str().is_empty() {
            r.append("-");
            r.append(self.pre.as_str());
        }
        let ghost with_pre = r@;
        if !self.build.as_str().is_empty() {
            r.append("+");
            r.append(self.build.as_str());
        }
        proof {
            reveal_strlit(".");
            reveal_strlit("-");
            reveal_strlit("+");
        }
        assert(r@ =~= version_text(self@));
        r
    }
}

/// How `semver` displays a version.
pub open spec fn version_text(v: VersionParts) -> Seq<char> {
    decimal(v.0 as nat) + "."@ + decimal(v.1 as nat) + "."@ + decimal(v.2 as nat) + (if v.3.len()
        > 0 {
        "-"@ + v.3
    } else {
        Seq::empty()
    }) + (if v.4.len() > 0 {
        "+"@ + v.4
    } else {
        Seq::empty()
    })
}

/// Why a minimum version was refused.
#[derive(Debug)]
pub enum MinimumVersionError {
    /// The text is not a version.
    Invalid(SemverError),
    /// The version asked for is newer than the running one.
    TooNew(SemVersion),
}

/// The refusal of a minimum version newer than the running one.
pub open spec fn too_new_text(version: VersionParts, current: VersionParts) -> Seq<char> {
    "Required minimum prek version `"@ + version_text(version)
        + "` is greater than current version `"@ + version_text(current)
        + "`. Please consider updating prek."@
}

impl MinimumVersionError {
    /// Why the minimum version was refused, with `current` the running version.
    pub fn message(&self, current: &SemVersion) -> (r: String)
        ensures
            self matches MinimumVersionError::Invalid(e) ==> r@ == e.message@,
            self matches MinimumVersionError::TooNew(v) ==> r@ == too_new_text(v@, current@),
    {
        match self {
            MinimumVersionError::Invalid(e) => e.message.clone(),
            MinimumVersionError::TooNew(version) => {
                let mut r = owned("Required minimum prek version `");
                r.append(version.to_string().as_str());
                r.append("` is greater than current version `");
                r.append(current.to_string().as_str());
                r.append("`. Please consider updating prek.");
                r
            },
        }
    }
}

/// What the minimum-version check owes for `text` against `current`:
/// `Ok(None)` for an empty text, an error for a text that is no version or
/// names a version after `current`, and the text itself otherwise.
pub open spec fn minimum_version_outcome(text: Seq<char>, current: VersionParts) -> Option<
    Option<Seq<char>>,
> {
    if text.len() == 0 {
        Some(None)
    } else {
        match semver_parse(text) {
            Err(_) => None,
            Ok(v) => if semver_greater(v, current) {
                None
            } else {
                Some(Some(text))
            },
        }
    }
}

/// Checks a configured minimum prek version against the running version.
pub fn check_minimum_version(text: &str, current: &SemVersion) -> (r: Result<
    Option<String>,
    MinimumVersionError,
>)
    ensures
        r is Ok <==> minimum_version_outcome(text@, current@) is Some,
        r matches Ok(v) ==> minimum_version_outcome(text@, current@) == Some(
            match v {
                Some(s) => Some(s@),
                None => None::<Seq<char>>,
            },
        ),
        r matches Err(MinimumVersionError::Invalid(e)) ==> text@.len() > 0 && semver_parse(text@)
            == Err::<VersionParts, Seq<char>>(e.message@),
        r matches Err(MinimumVersionError::TooNew(v)) ==> text@.len() > 0 && semver_parse(text@)
            == Ok::<VersionParts, Seq<char>>(v@) && semver_greater(v@, current@),
        semver_parse(text@) matches Ok(v) && text@.len() > 0 && (v == current@ || numeric_order(
            v,
            current@,
        ) == Some(false)) ==> (r matches Ok(Some(s)) && s@ == text@),
        semver_parse(text@) matches Ok(v) && text@.len() > 0 && numeric_order(v, current@)
            == Some(true) ==> r matches Err(MinimumVersionError::TooNew(_)),
{
    if text.is_empty() {
        return Ok(None);
    }
    match SemVersion::parse(text) {
        Err(e) => Err(MinimumVersionError::Invalid(e)),
        Ok(version) => {
            if version.greater_than(current) {
                Err(MinimumVersionError::TooNew(version))
            } else {
                Ok(Some(owned(text)))
            }
        },
    }
}

} // verus!
