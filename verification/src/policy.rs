use vstd::prelude::*;

use crate::semver_api::{parse_version_canonical, self_canonical, version_parse};
use crate::text::{contains_char, last_index_of_char, rfind_char};

verus! {

/// Resolution policy: how registry candidates are filtered and how a local
/// declaration is compared against the resolved online version. Created once
/// per run and never mutated.
pub struct DepRefresh {
    /// Compare by semantic range containment instead of exact text equality.
    pub use_semver: bool,
    /// Accept candidate versions the registry marks as yanked.
    pub allow_yanked: bool,
    /// Accept candidate versions with a pre-release component.
    pub allow_prerelease: bool,
}

impl DepRefresh {
    pub fn new(use_semver: bool, allow_yanked: bool, allow_prerelease: bool) -> (r: DepRefresh)
        ensures
            r.use_semver == use_semver,
            r.allow_yanked == allow_yanked,
            r.allow_prerelease == allow_prerelease,
    {
        DepRefresh { use_semver, allow_yanked, allow_prerelease }
    }
}

/// One published version as the registry reports it: the version text (absent
/// when the registry entry carries none) and whether it is yanked.
#[derive(Debug)]
pub struct Candidate {
    pub num: Option<String>,
    pub yanked: bool,
}

impl Candidate {
    pub fn new(num: &str, yanked: bool) -> (r: Candidate)
        ensures
            r@ == (Some(num@), yanked),
    {
        Candidate { num: Some(num.to_owned()), yanked }
    }
}

impl View for Candidate {
    type V = (Option<Seq<char>>, bool);

    open spec fn view(&self) -> (Option<Seq<char>>, bool) {
        (
            match self.num {
                Some(ref s) => Some(s@),
                None => None,
            },
            self.yanked,
        )
    }
}

pub open spec fn cands_model(s: Seq<Candidate>) -> Seq<(Option<Seq<char>>, bool)> {
    s.map_values(|c: Candidate| c@)
}

/// Why no version could be selected from a candidate list.
#[derive(Debug)]
pub enum SelectError {
    /// A candidate that survived the yanked filter has no version text.
    MissingNum,
    /// A candidate's version text is not a valid semantic version.
    BadNum(String),
    /// Every candidate was filtered out.
    NoUsable,
}

pub enum SelectErrorModel {
    MissingNum,
    BadNum(Seq<char>),
    NoUsable,
}

impl View for SelectError {
    type V = SelectErrorModel;

    open spec fn view(&self) -> SelectErrorModel {
        match self {
            SelectError::MissingNum => SelectErrorModel::MissingNum,
            SelectError::BadNum(s) => SelectErrorModel::BadNum(s@),
            SelectError::NoUsable => SelectErrorModel::NoUsable,
        }
    }
}

/// The latest usable version of a candidate list under the policy flags:
/// scan in the given (newest first) order; skip yanked candidates unless
/// allowed; a candidate without a version text, or with one that does not
/// parse, is a hard error; skip pre-releases unless allowed; the first
/// survivor's canonical text is the answer.
pub open spec fn spec_select(
    cands: Seq<(Option<Seq<char>>, bool)>,
    allow_yanked: bool,
    allow_prerelease: bool,
) -> Result<Seq<char>, SelectErrorModel>
    decreases cands.len(),
{
    if cands.len() == 0 {
        Err(SelectErrorModel::NoUsable)
    } else {
        let head = cands[0];
        if head.1 && !allow_yanked {
            spec_select(cands.drop_first(), allow_yanked, allow_prerelease)
        } else {
            match head.0 {
                None => Err(SelectErrorModel::MissingNum),
                Some(num) => match version_parse(num) {
                    None => Err(SelectErrorModel::BadNum(num)),
                    Some(p) => if p.1 && !allow_prerelease {
                        spec_select(cands.drop_first(), allow_yanked, allow_prerelease)
                    } else {
                        Ok(p.0)
                    },
                },
            }
        }
    }
}

/// Select the latest usable version from `candidates` (ordered newest first).
pub fn select_latest(
    candidates: &Vec<Candidate>,
    allow_yanked: bool,
    allow_prerelease: bool,
) -> (r: Result<String, SelectError>)
    ensures
        match r {
            Ok(v) => spec_select(cands_model(candidates@), allow_yanked, allow_prerelease)
                == Ok::<Seq<char>, SelectErrorModel>(v@) && self_canonical(v@),
            Err(e) => spec_select(cands_model(candidates@), allow_yanked, allow_prerelease)
                == Err::<Seq<char>, SelectErrorModel>(e@),
        },
{
    let ghost whole = cands_model(candidates@);
    proof {
        assert(whole.skip(0) =~= whole);
    }
    let n = candidates.len();
    let mut i: usize = 0;
    while i < n
        invariant
            n == candidates@.len(),
            0 <= i <= n,
            whole == cands_model(candidates@),
            spec_select(whole, allow_yanked, allow_prerelease) == spec_select(
                whole.skip(i as int),
                allow_yanked,
                allow_prerelease,
            ),
        decreases n - i,
    {
        let c = &candidates[i];
        proof {
            assert(whole.skip(i as int)[0] == candidates@[i as int]@);
            assert(whole.skip(i as int).drop_first() =~= whole.skip(i as int + 1));
        }
        if !(c.yanked && !allow_yanked) {
            match &c.num {
                None => {
                    return Err(SelectError::MissingNum);
                },
                Some(num) => {
                    match parse_version_canonical(num.as_str()) {
                        None => {
                            return Err(SelectError::BadNum(num.clone()));
                        },
                        Some(p) => {
                            if !(p.1 && !allow_prerelease) {
                                return Ok(p.0);
                            }
                        },
                    }
                },
            }
        }
        i = i + 1;
    }
    proof {
        assert(whole.skip(n as int) =~= Seq::<(Option<Seq<char>>, bool)>::empty());
    }
    Err(SelectError::NoUsable)
}

/// The number of `.` characters in a version text.
pub open spec fn dot_count(s: Seq<char>) -> nat
    decreases s.len(),
{
    if s.len() == 0 {
        0
    } else {
        dot_count(s.drop_last()) + (if s.last() == '.' {
            1nat
        } else {
            0nat
        })
    }
}

/// Remove the last dot-separated segment; a text without a dot falls back to
/// the full online version.
pub open spec fn drop_last_segment(cur: Seq<char>, online: Seq<char>) -> Seq<char> {
    if contains_char(cur, '.') {
        cur.take(last_index_of_char(cur, '.'))
    } else {
        online
    }
}

pub open spec fn chop_segments(cur: Seq<char>, online: Seq<char>, k: nat) -> Seq<char>
    decreases k,
{
    if k == 0 {
        cur
    } else {
        chop_segments(drop_last_segment(cur, online), online, (k - 1) as nat)
    }
}

/// The online version shortened to as many dot-separated segments as the
/// local declaration has: a two-segment local pin keeps two segments of the
/// online version, and so on; a local pin of three or more segments keeps the
/// online version whole.
pub open spec fn spec_new_local_version(local: Seq<char>, online: Seq<char>) -> Seq<char> {
    if dot_count(local) >= 2 {
        online
    } else {
        chop_segments(online, online, (2 - dot_count(local)) as nat)
    }
}

proof fn lemma_chop_snoc(cur: Seq<char>, online: Seq<char>, k: nat)
    ensures
        chop_segments(cur, online, k + 1) == drop_last_segment(chop_segments(cur, online, k), online),
    decreases k,
{
    assert((k + 1 - 1) as nat == k);
    assert(chop_segments(cur, online, k + 1) == chop_segments(
        drop_last_segment(cur, online),
        online,
        k,
    ));
    if k > 0 {
        lemma_chop_snoc(drop_last_segment(cur, online), online, (k - 1) as nat);
    }
}

impl DepRefresh {
    /// Shorten the resolved online version to the segment count of the local
    /// declaration, so that a pin written as `0.3` stays a two-segment pin.
    pub fn new_local_version<'a>(&self, local_version: &str, online_version: &'a str) -> (r:
        &'a str)
        ensures
            r@ == spec_new_local_version(local_version@, online_version@),
    {
        let llen = local_version.unicode_len();
        let mut dots: usize = 0;
        let mut idx: usize = 0;
        while idx < llen
            invariant
                0 <= idx <= llen,
                llen == local_version@.len(),
                dots <= idx,
                dots == dot_count(local_version@.take(idx as int)),
            decreases llen - idx,
        {
            proof {
                assert(local_version@.take(idx as int + 1).drop_last() =~= local_version@.take(
                    idx as int,
                ));
                assert(local_version@.take(idx as int + 1).last() == local_version@[idx as int]);
            }
            if local_version.get_char(idx) == '.' {
                dots = dots + 1;
            }
            idx = idx + 1;
        }
        proof {
            assert(local_version@.take(llen as int) =~= local_version@);
        }
        let k: usize = if dots >= 2 {
            0
        } else {
            2 - dots
        };
        let mut cur: &'a str = online_version;
        let mut step: usize = 0;
        while step < k
            invariant
                0 <= step <= k,
                cur@ == chop_segments(online_version@, online_version@, step as nat),
            decreases k - step,
        {
            proof {
                lemma_chop_snoc(online_version@, online_version@, step as nat);
            }
            match rfind_char(cur, '.') {
                None => {
                    cur = online_version;
                },
                Some(j) => {
                    cur = cur.substring_char(0, j);
                },
            }
            step = step + 1;
        }
        cur
    }
}

} // verus!
