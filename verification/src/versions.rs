//! Semantic versions, through the `semver` crate.
use vstd::prelude::*;

verus! {

/// `semver::Version`, carried through the library as an opaque value.
#[verifier::external_type_specification]
#[verifier::external_body]
pub struct ExVersion(semver::Version);

/// `semver::VersionReq`, carried through the library as an opaque value.
#[verifier::external_type_specification]
#[verifier::external_body]
pub struct ExVersionReq(semver::VersionReq);

/// What `semver::Version::parse` gives for a text (`None` where it reports an error).
pub uninterp spec fn semver_parse(s: Seq<char>) -> Option<semver::Version>;

/// What `semver::VersionReq::parse` gives for a text (`None` where it reports an error).
pub uninterp spec fn semver_req_parse(s: Seq<char>) -> Option<semver::VersionReq>;

/// What `semver::VersionReq::matches` answers for a requirement and a version.
pub uninterp spec fn semver_req_matches(r: semver::VersionReq, v: semver::Version) -> bool;

/// Parses a version (`semver::Version::parse`); the result is a function of the text alone.
#[verifier::external_body]
pub(crate) fn parse_version(s: &str) -> (res: Option<semver::Version>)
    ensures
        res == semver_parse(s@),
{
    semver::Version::parse(s).ok()
}

/// Parses a version requirement (`semver::VersionReq::parse`); the result is a function of the
/// text alone.
#[verifier::external_body]
pub(crate) fn parse_version_req(s: &str) -> (res: Option<semver::VersionReq>)
    ensures
        res == semver_req_parse(s@),
{
    semver::VersionReq::parse(s).ok()
}

/// Whether a version satisfies a requirement (`semver::VersionReq::matches`); the answer is a
/// function of the two values alone.
#[verifier::external_body]
pub(crate) fn req_matches(r: &semver::VersionReq, v: &semver::Version) -> (res: bool)
    ensures
        res == semver_req_matches(*r, *v),
{
    r.matches(v)
}

/// The oldest podman that skate supports, as a requirement.
pub open spec fn min_podman_req() -> Seq<char> {
    ">=3.0.0"@
}

/// Whether a podman version satisfies `>=3.0.0`, for a version text that parses.
pub fn podman_version_supported(version: &str) -> (res: bool)
    requires
        semver_parse(version@) is Some,
        semver_req_parse(min_podman_req()) is Some,
    ensures
        res == semver_req_matches(semver_req_parse(min_podman_req())->0, semver_parse(version@)->0),
{
    let req = parse_version_req(">=3.0.0").unwrap();
    let v = parse_version(version).unwrap();
    req_matches(&req, &v)
}

/// Whether a podman version satisfies `>=3.0.0`; `None` where the version or the requirement
/// does not parse.
pub fn check_podman_version(version: &str) -> (res: Option<bool>)
    ensures
        (semver_parse(version@) is Some && semver_req_parse(min_podman_req()) is Some) == res is Some,
        res matches Some(b) ==> b == semver_req_matches(
            semver_req_parse(min_podman_req())->0,
            semver_parse(version@)->0,
        ),
{
    let req = parse_version_req(">=3.0.0");
    let v = parse_version(version);
    if req.is_none() || v.is_none() {
        return None;
    }
    Some(podman_version_supported(version))
}

} // verus!
