//! Whether a release is worth offering: strictly newer than the running
//! version under semantic versioning, and not a pre-release.
use vstd::prelude::*;

verus! {

/// `semver::Version`, carried unopened inside `ParsedVersion`.
#[verifier::external_type_specification]
#[verifier::external_body]
pub struct ExVersion(semver::Version);

/// Whether `s` parses as a semantic version.
pub uninterp spec fn semver_parses(s: Seq<char>) -> bool;

/// Whether the version `a` parses to is greater than the one `b` parses to.
pub uninterp spec fn semver_newer(a: Seq<char>, b: Seq<char>) -> bool;

/// Whether the version `s` parses to has no pre-release part.
pub uninterp spec fn semver_stable(s: Seq<char>) -> bool;

/// A parsed version together with the text it was parsed from.
pub struct ParsedVersion {
    source: String,
    version: semver::Version,
}

impl ParsedVersion {
    /// The text the version was parsed from.
    pub closed spec fn source(&self) -> Seq<char> {
        self.source@
    }
}

/// Calls `semver::Version::parse`; whether it succeeds is named
/// `semver_parses`, and the parsed version keeps its text.
#[verifier::external_body]
fn parse_version(text: &str) -> (r: Option<ParsedVersion>)
    ensures
        r is Some <==> semver_parses(text@),
        r matches Some(v) ==> v.source() == text@,
{
    match semver::Version::parse(text) {
        Ok(version) => Some(ParsedVersion { source: text.to_string(), version }),
        Err(_) => None,
    }
}

/// Compares two versions with `>`, the order `semver::Version` derives; the
/// result is named `semver_newer`, and a version is not greater than itself.
#[verifier::external_body]
fn is_greater(a: &ParsedVersion, b: &ParsedVersion) -> (r: bool)
    ensures
        r == semver_newer(a.source(), b.source()),
        a.source() == b.source() ==> !r,
{
    a.version > b.version
}

/// Calls `Prerelease::is_empty` on the version's pre-release part; the result
/// is named `semver_stable`.
#[verifier::external_body]
fn has_no_prerelease(v: &ParsedVersion) -> (r: bool)
    ensures
        r == semver_stable(v.source()),
{
    v.version.pre.is_empty()
}

/// The verdict on two parse results: both parsed, the latest greater than
/// the current one, and the latest not a pre-release.
pub fn update_verdict(current: Option<&ParsedVersion>, latest: Option<&ParsedVersion>) -> (r: bool)
    ensures
        r == (match (current, latest) {
            (Some(c), Some(l)) => semver_newer(l.source(), c.source()) && semver_stable(l.source()),
            _ => false,
        }),
{
    match (current, latest) {
        (Some(c), Some(l)) => is_greater(l, c) && has_no_prerelease(l),
        _ => false,
    }
}

/// True where `latest` parses as a semantic version strictly newer than
/// `current` and is not a pre-release; text that does not parse gives false.
pub fn is_newer_stable(current: &str, latest: &str) -> (r: bool)
    ensures
        r == (semver_parses(current@) && semver_parses(latest@) && semver_newer(latest@, current@)
            && semver_stable(latest@)),
{
    let cur = parse_version(current);
    let new = parse_version(latest);
    let c = match &cur {
        Some(v) => Some(v),
        None => None,
    };
    let l = match &new {
        Some(v) => Some(v),
        None => None,
    };
    update_verdict(c, l)
}

} // verus!
