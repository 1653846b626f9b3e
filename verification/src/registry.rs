use vstd::prelude::*;

use crate::errors::Error;
use crate::policy::{cands_model, Candidate};
use crate::text::str_eq;

verus! {

/// What the registry mirrors for one entry of a reply's `versions` array:
/// the `num` field if it is a string, and the `yanked` field if it is a bool.
pub type RawVersion = (Option<String>, Option<bool>);

/// What [`parse_registry_body`] makes of a registry reply, as plain values:
/// `None` when the body is not valid JSON; `Some(None)` when it has no
/// `versions` array; otherwise one pair per array element.
pub uninterp spec fn registry_versions(body: Seq<char>) -> Option<
    Option<Seq<(Option<Seq<char>>, Option<bool>)>>,
>;

pub open spec fn opt_str_view(o: Option<String>) -> Option<Seq<char>> {
    match o {
        Some(s) => Some(s@),
        None => None,
    }
}

pub open spec fn raw_versions_model(o: Option<Vec<RawVersion>>) -> Option<
    Seq<(Option<Seq<char>>, Option<bool>)>,
> {
    match o {
        Some(v) => Some(v@.map_values(|e: RawVersion| (opt_str_view(e.0), e.1))),
        None => None,
    }
}

/// Relies on `serde_json::from_str::<Value>` and the `as_array`, `as_str` and
/// `as_bool` accessors of `serde_json::Value`: mirrors the `versions` array of
/// a registry reply as plain values. The error carries serde's message.
#[verifier::external_body]
pub(crate) fn parse_registry_body(body: &str) -> (r: Result<Option<Vec<RawVersion>>, String>)
    ensures
        match r {
            Ok(o) => registry_versions(body@) == Some(raw_versions_model(o)),
            Err(_) => registry_versions(body@) is None,
        },
{
    let v: serde_json::Value = match serde_json::from_str(body) {
        Ok(v) => v,
        Err(e) => return Err(e.to_string()),
    };
    match v["versions"].as_array() {
        None => Ok(None),
        Some(arr) => Ok(Some(
            arr.iter().map(|e| (e["num"].as_str().map(|s| s.to_owned()), e["yanked"].as_bool())).collect(),
        )),
    }
}

/// The candidate list that a registry reply body stands for: `None` when the
/// body is not valid JSON; a missing `versions` array gives no candidates; a
/// missing or non-bool `yanked` field counts as not yanked.
pub open spec fn spec_candidates_of_body(body: Seq<char>) -> Option<
    Seq<(Option<Seq<char>>, bool)>,
> {
    match registry_versions(body) {
        None => None,
        Some(None) => Some(Seq::empty()),
        Some(Some(raw)) => Some(
            raw.map_values(
                |e: (Option<Seq<char>>, Option<bool>)| (e.0, e.1 == Some(true)),
            ),
        ),
    }
}

/// The candidate versions the registry reports for one crate name.
pub struct CrateVersions {
    pub name: String,
    pub candidates: Vec<Candidate>,
}

impl CrateVersions {
    pub fn new(name: &str, candidates: Vec<Candidate>) -> (r: CrateVersions)
        ensures
            r@ == (name@, cands_model(candidates@)),
    {
        CrateVersions { name: name.to_owned(), candidates }
    }
}

impl View for CrateVersions {
    type V = (Seq<char>, Seq<(Option<Seq<char>>, bool)>);

    open spec fn view(&self) -> (Seq<char>, Seq<(Option<Seq<char>>, bool)>) {
        (self.name@, cands_model(self.candidates@))
    }
}

/// A snapshot of registry replies, one entry per crate name, as handed to the
/// engine by the caller that performed the lookups.
pub struct Registry {
    pub entries: Vec<CrateVersions>,
}

pub type RegistryModel = Seq<(Seq<char>, Seq<(Option<Seq<char>>, bool)>)>;

impl View for Registry {
    type V = RegistryModel;

    open spec fn view(&self) -> RegistryModel {
        self.entries@.map_values(|e: CrateVersions| e@)
    }
}

/// The candidate list recorded for a crate name: the first entry with that
/// name, or `None` when the snapshot has none.
pub open spec fn spec_lookup(reg: RegistryModel, name: Seq<char>) -> Option<
    Seq<(Option<Seq<char>>, bool)>,
>
    decreases reg.len(),
{
    if reg.len() == 0 {
        None
    } else if reg[0].0 == name {
        Some(reg[0].1)
    } else {
        spec_lookup(reg.drop_first(), name)
    }
}

impl Registry {
    pub fn new() -> (r: Registry)
        ensures
            r@ == Seq::<(Seq<char>, Seq<(Option<Seq<char>>, bool)>)>::empty(),
    {
        let r = Registry { entries: Vec::new() };
        proof {
            assert(r@ =~= Seq::<(Seq<char>, Seq<(Option<Seq<char>>, bool)>)>::empty());
        }
        r
    }

    /// Record the candidate list for one crate name.
    pub fn add(&mut self, entry: CrateVersions)
        ensures
            final (self)@ == old(self)@.push(entry@),
    {
        let ghost oldv = self@;
        self.entries.push(entry);
        proof {
            assert(self@ =~= oldv.push(self.entries@.last()@));
        }
    }

    /// Find the candidate list recorded for `name`.
    pub fn lookup(&self, name: &str) -> (r: Option<&Vec<Candidate>>)
        ensures
            match r {
                Some(v) => spec_lookup(self@, name@) == Some(cands_model(v@)),
                None => spec_lookup(self@, name@) is None,
            },
    {
        let ghost whole = self@;
        proof {
            assert(whole.skip(0) =~= whole);
        }
        let n = self.entries.len();
        let mut i: usize = 0;
        while i < n
            invariant
                n == self.entries@.len(),
                0 <= i <= n,
                whole == self@,
                spec_lookup(whole, name@) == spec_lookup(whole.skip(i as int), name@),
            decreases n - i,
        {
            proof {
                assert(whole.skip(i as int)[0] == self.entries@[i as int]@);
                assert(whole.skip(i as int).drop_first() =~= whole.skip(i as int + 1));
            }
            let e = &self.entries[i];
            if str_eq(e.name.as_str(), name) {
                return Some(&e.candidates);
            }
            i = i + 1;
        }
        proof {
            assert(whole.skip(n as int) =~= Seq::<
                (Seq<char>, Seq<(Option<Seq<char>>, bool)>),
            >::empty());
        }
        None
    }
}

/// Turn one registry reply body into the candidate list for `crate_name`.
/// A body that is not valid JSON is a registry error for that crate.
pub fn crate_versions_from_body(crate_name: &str, body: &str) -> (r: Result<CrateVersions, Error>)
    ensures
        match r {
            Ok(cv) => spec_candidates_of_body(body@) == Some(cv@.1) && cv@.0 == crate_name@,
            Err(e) => spec_candidates_of_body(body@) is None && (e@ matches
                crate::errors::ErrorModel::Registry { crate_name: n, detail: _ } && n
                == crate_name@),
        },
{
    match parse_registry_body(body) {
        Err(m) => Err(
            Error::Registry { crate_name: crate_name.to_owned(), detail: m },
        ),
        Ok(None) => {
            let r = CrateVersions::new(crate_name, Vec::new());
            proof {
                assert(cands_model(Seq::<Candidate>::empty()) =~= Seq::<
                    (Option<Seq<char>>, bool),
                >::empty());
            }
            Ok(r)
        },
        Ok(Some(raw)) => {
            let ghost rawm = raw@.map_values(|e: RawVersion| (opt_str_view(e.0), e.1));
            let n = raw.len();
            let mut cands: Vec<Candidate> = Vec::new();
            let mut i: usize = 0;
            while i < n
                invariant
                    n == raw@.len(),
                    0 <= i <= n,
                    rawm == raw@.map_values(|e: RawVersion| (opt_str_view(e.0), e.1)),
                    cands@.len() == i,
                    forall|k: int| 0 <= k < i ==> #[trigger] cands@[k]@ == (
                        rawm[k].0,
                        rawm[k].1 == Some(true),
                    ),
                decreases n - i,
            {
                let e = &raw[i];
                let num: Option<String> = match &e.0 {
                    Some(s) => Some(s.clone()),
                    None => None,
                };
                let yanked: bool = match e.1 {
                    Some(true) => true,
                    _ => false,
                };
                cands.push(Candidate { num, yanked });
                i = i + 1;
            }
            let r = CrateVersions::new(crate_name, cands);
            proof {
                assert(r@.1 =~= rawm.map_values(
                    |e: (Option<Seq<char>>, Option<bool>)| (e.0, e.1 == Some(true)),
                ));
            }
            Ok(r)
        },
    }
}

} // verus!
