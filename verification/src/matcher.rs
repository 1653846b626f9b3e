use vstd::prelude::*;

use crate::policy::DepRefresh;
use crate::semver_api::{
    parse_version_canonical, req_admits, req_is_valid, req_matches_version, req_parse_ok,
    self_canonical, version_parse,
};
use crate::text::{spec_trim, trim_text};

verus! {

/// Which side of a version comparison failed to parse.
#[derive(Clone, Copy, PartialEq, Eq, Structural, Debug)]
pub enum MatchError {
    /// The local declaration is not a valid requirement.
    Local,
    /// The resolved online version is not a valid semantic version.
    Online,
}

/// Whether the local declaration `declared` is satisfied by the resolved
/// online version `resolved`. Exact mode compares text equality after
/// trimming surrounding whitespace from the declaration; semantic mode reads
/// the trimmed declaration as a range expression and asks whether it admits
/// the resolved version, reporting which side fails to parse.
pub open spec fn spec_version_matches(
    use_semver: bool,
    declared: Seq<char>,
    resolved: Seq<char>,
) -> Result<bool, MatchError> {
    let d = spec_trim(declared);
    if !use_semver {
        Ok(d == resolved)
    } else if !req_parse_ok(d) {
        Err(MatchError::Local)
    } else if version_parse(resolved) is None {
        Err(MatchError::Online)
    } else {
        Ok(req_admits(d, resolved))
    }
}

/// A canonical version text always satisfies itself, in either mode.
pub proof fn lemma_self_canonical_matches(use_semver: bool, c: Seq<char>)
    requires
        self_canonical(c),
    ensures
        spec_version_matches(use_semver, c, c) == Ok::<bool, MatchError>(true),
{
}

impl DepRefresh {
    /// Decide whether the local declaration already satisfies the resolved
    /// online version under this policy's comparison mode.
    pub fn version_matches(&self, local_version: &str, online_version: &str) -> (r: Result<
        bool,
        MatchError,
    >)
        ensures
            r == spec_version_matches(self.use_semver, local_version@, online_version@),
    {
        let local = trim_text(local_version);
        if self.use_semver {
            if !req_is_valid(local.as_str()) {
                return Err(MatchError::Local);
            }
            match parse_version_canonical(online_version) {
                None => Err(MatchError::Online),
                Some(_) => Ok(req_matches_version(local.as_str(), online_version)),
            }
        } else {
            let online = online_version.to_owned();
            Ok(local == online)
        }
    }
}

} // verus!
