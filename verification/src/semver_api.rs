use vstd::prelude::*;

use crate::text::{is_space_char, spec_trim};
use crate::text::lemma_trim_identity;

verus! {

/// What `semver::Version::parse` makes of a version text: `None` when the text
/// is not a valid semantic version, otherwise the canonical rendering that
/// `Display` gives the parsed version, paired with whether the version carries
/// a non-empty pre-release component.
pub uninterp spec fn version_parse(s: Seq<char>) -> Option<(Seq<char>, bool)>;

/// Whether `semver::VersionReq::parse` accepts the text as a version
/// requirement (range expression).
pub uninterp spec fn req_parse_ok(s: Seq<char>) -> bool;

/// What `semver::VersionReq::matches` decides: whether the requirement text
/// `req` admits the concrete version text `ver`, both being parseable.
pub uninterp spec fn req_admits(req: Seq<char>, ver: Seq<char>) -> bool;

/// A canonical version text behaves as a fixed point of parsing and admits
/// itself when read as a requirement. `select_latest` hands these facts on.
pub open spec fn self_canonical(c: Seq<char>) -> bool {
    &&& spec_trim(c) == c
    &&& version_parse(c) matches Some(p) && p.0 == c
    &&& req_parse_ok(c)
    &&& req_admits(c, c)
}

/// Relies on `semver::Version::parse` and the `Display` impl of
/// `semver::Version`: the result is the canonical text of the parsed version
/// and whether its pre-release component is non-empty. The extra facts are
/// plain from semver's source: the canonical text is non-empty and free of
/// whitespace; parsing it again gives the same canonical text; read as a
/// requirement it parses (a bare version defaults to a caret comparator) and
/// a caret comparator admits the very version it was made from.
#[verifier::external_body]
pub(crate) fn parse_version(s: &str) -> (r: Option<(String, bool)>)
    ensures
        match r {
            Some(p) => version_parse(s@) == Some((p.0@, p.1)),
            None => version_parse(s@) is None,
        },
        r matches Some(p) ==> p.0@.len() > 0,
        r matches Some(p) ==> forall|k: int|
            0 <= k < p.0@.len() ==> !is_space_char(#[trigger] p.0@[k]),
        r matches Some(p) ==> version_parse(p.0@) == Some((p.0@, p.1)),
        r matches Some(p) ==> req_parse_ok(p.0@) && req_admits(p.0@, p.0@),
{
    match semver::Version::parse(s) {
        Ok(v) => Some((v.to_string(), !v.pre.is_empty())),
        Err(_) => None,
    }
}

/// The facts of [`parse_version`], folded into [`self_canonical`].
pub fn parse_version_canonical(s: &str) -> (r: Option<(String, bool)>)
    ensures
        match r {
            Some(p) => version_parse(s@) == Some((p.0@, p.1)) && self_canonical(p.0@),
            None => version_parse(s@) is None,
        },
{
    let r = parse_version(s);
    proof {
        if let Some(p) = &r {
            lemma_trim_identity(p.0@);
        }
    }
    r
}

/// Relies on `semver::VersionReq::parse`: whether the text is a valid
/// requirement.
#[verifier::external_body]
pub(crate) fn req_is_valid(s: &str) -> (r: bool)
    ensures
        r == req_parse_ok(s@),
{
    semver::VersionReq::parse(s).is_ok()
}

/// Relies on `semver::VersionReq::matches`: whether the requirement admits
/// the version. Both texts are re-parsed here; the `requires` make sure both
/// parses succeed, so the unwraps cannot fail.
#[verifier::external_body]
pub(crate) fn req_matches_version(req: &str, ver: &str) -> (r: bool)
    requires
        req_parse_ok(req@),
        version_parse(ver@) is Some,
    ensures
        r == req_admits(req@, ver@),
{
    let r = semver::VersionReq::parse(req).unwrap();
    let v = semver::Version::parse(ver).unwrap();
    r.matches(&v)
}

} // verus!
