use vstd::prelude::*;

use crate::errors::{Error, ErrorModel};
use crate::matcher::{spec_version_matches, MatchError};
use crate::policy::{select_latest, spec_select, DepRefresh, SelectError, SelectErrorModel};
use crate::registry::{spec_lookup, Registry, RegistryModel};
use crate::semver_api::self_canonical;
use crate::text::{spec_trim, str_eq, trim_text};
use crate::toml_api::{section_model, EntryModel, PairsModel, RawEntry, RawItem, SectionModel};

verus! {

/// Where the rewrite of a declaration goes: the entry's own value, or the
/// `version` key inside its table.
#[derive(Clone, Copy, PartialEq, Eq, Structural, Debug)]
pub enum Shape {
    Bare,
    Nested,
}

/// One queued rewrite: which entry, where its version text sits, what it said
/// (trimmed) and what it will say.
#[derive(Debug)]
pub struct PendingUpdate {
    pub name: String,
    pub shape: Shape,
    pub old_text: String,
    pub new_text: String,
}

/// Mathematical image of a [`PendingUpdate`].
pub struct UpdateModel {
    pub name: Seq<char>,
    pub nested: bool,
    pub old_text: Seq<char>,
    pub new_text: Seq<char>,
}

impl View for PendingUpdate {
    type V = UpdateModel;

    open spec fn view(&self) -> UpdateModel {
        UpdateModel {
            name: self.name@,
            nested: self.shape is Nested,
            old_text: self.old_text@,
            new_text: self.new_text@,
        }
    }
}

pub open spec fn plan_model(s: Seq<PendingUpdate>) -> Seq<UpdateModel> {
    s.map_values(|u: PendingUpdate| u@)
}

/// The string value of the first `version` pair, if any.
pub open spec fn pairs_version(pairs: PairsModel) -> Option<Seq<char>>
    decreases pairs.len(),
{
    if pairs.len() == 0 {
        None
    } else if pairs[0].0 == "version"@ {
        pairs[0].1
    } else {
        pairs_version(pairs.drop_first())
    }
}

/// The declared version text of an entry and whether it sits behind a
/// `version` key: a bare string declares itself; a table-like entry declares
/// its `version` string if it has one, and is skipped otherwise.
pub open spec fn entry_declared(m: EntryModel) -> Option<(Seq<char>, bool)> {
    if m.0 is Some {
        Some((m.0->0, false))
    } else if m.1 is Some {
        match pairs_version(m.1->0) {
            Some(v) => Some((v, true)),
            None => None,
        }
    } else {
        None
    }
}

/// An entry that is neither a string nor table-like: reported, not fatal.
pub open spec fn entry_is_anomaly(m: EntryModel) -> bool {
    m.0 is None && m.1 is None
}

/// The names of the anomalous entries, in section order.
pub open spec fn spec_anomalies(entries: SectionModel) -> Seq<Seq<char>>
    decreases entries.len(),
{
    if entries.len() == 0 {
        Seq::empty()
    } else {
        (if entry_is_anomaly(entries[0].1) {
            seq![entries[0].0]
        } else {
            Seq::empty()
        }) + spec_anomalies(entries.drop_first())
    }
}

/// What processing one entry decides: nothing (satisfied, skipped or
/// anomalous), one queued update, or a fatal error, exactly as the policy,
/// the registry snapshot and the matcher dictate.
pub open spec fn spec_plan_entry(
    p: DepRefresh,
    entry: (Seq<char>, EntryModel),
    reg: RegistryModel,
) -> Result<Option<UpdateModel>, ErrorModel> {
    match entry_declared(entry.1) {
        None => Ok(None),
        Some(d) => match spec_lookup(reg, entry.0) {
            None => Err(
                ErrorModel::Registry {
                    crate_name: entry.0,
                    detail: "no registry reply recorded for this crate"@,
                },
            ),
            Some(cands) => match spec_select(cands, p.allow_yanked, p.allow_prerelease) {
                Err(SelectErrorModel::MissingNum) => Err(
                    ErrorModel::Registry {
                        crate_name: entry.0,
                        detail: "a candidate version has no version text"@,
                    },
                ),
                Err(SelectErrorModel::BadNum(t)) => Err(
                    ErrorModel::VersionParse { crate_name: entry.0, text: t, local: false },
                ),
                Err(SelectErrorModel::NoUsable) => Err(
                    ErrorModel::NoUsableVersion { crate_name: entry.0 },
                ),
                Ok(resolved) => match spec_version_matches(p.use_semver, d.0, resolved) {
                    Err(MatchError::Local) => Err(
                        ErrorModel::VersionParse {
                            crate_name: entry.0,
                            text: spec_trim(d.0),
                            local: true,
                        },
                    ),
                    Err(MatchError::Online) => Err(
                        ErrorModel::VersionParse {
                            crate_name: entry.0,
                            text: resolved,
                            local: false,
                        },
                    ),
                    Ok(true) => Ok(None),
                    Ok(false) => Ok(
                        Some(
                            UpdateModel {
                                name: entry.0,
                                nested: d.1,
                                old_text: spec_trim(d.0),
                                new_text: resolved,
                            },
                        ),
                    ),
                },
            },
        },
    }
}

/// The queued updates of a whole section, in entry order, stopping at the
/// first fatal error.
pub open spec fn spec_plan_section(
    p: DepRefresh,
    entries: SectionModel,
    reg: RegistryModel,
) -> Result<Seq<UpdateModel>, ErrorModel>
    decreases entries.len(),
{
    if entries.len() == 0 {
        Ok(Seq::empty())
    } else {
        match spec_plan_entry(p, entries[0], reg) {
            Err(e) => Err(e),
            Ok(head) => match spec_plan_section(p, entries.drop_first(), reg) {
                Err(e) => Err(e),
                Ok(rest) => Ok(
                    (match head {
                        Some(u) => seq![u],
                        None => Seq::empty(),
                    }) + rest,
                ),
            },
        }
    }
}

pub(crate) fn find_version_pair(pairs: &Vec<(String, Option<String>)>) -> (r: Option<String>)
    ensures
        match r {
            Some(v) => pairs_version(crate::toml_api::pairs_model(pairs@)) == Some(v@),
            None => pairs_version(crate::toml_api::pairs_model(pairs@)) is None,
        },
{
    let ghost whole = crate::toml_api::pairs_model(pairs@);
    proof {
        assert(whole.skip(0) =~= whole);
    }
    let n = pairs.len();
    let mut i: usize = 0;
    while i < n
        invariant
            n == pairs@.len(),
            0 <= i <= n,
            whole == crate::toml_api::pairs_model(pairs@),
            pairs_version(whole) == pairs_version(whole.skip(i as int)),
        decreases n - i,
    {
        proof {
            assert(whole.skip(i as int)[0] == whole[i as int]);
            assert(whole.skip(i as int).drop_first() =~= whole.skip(i as int + 1));
        }
        let pair = &pairs[i];
        if str_eq(pair.0.as_str(), "version") {
            return match &pair.1 {
                Some(v) => Some(v.clone()),
                None => None,
            };
        }
        i = i + 1;
    }
    proof {
        assert(whole.skip(n as int) =~= Seq::<(Seq<char>, Option<Seq<char>>)>::empty());
    }
    None
}

/// Decide what to do for one entry of a section.
fn plan_entry(p: &DepRefresh, e: &RawEntry, registry: &Registry) -> (r: Result<
    Option<PendingUpdate>,
    Error,
>)
    ensures
        match r {
            Ok(Some(u)) => spec_plan_entry(*p, e@, registry@) == Ok::<_, ErrorModel>(Some(u@))
                && self_canonical(u@.new_text),
            Ok(None) => spec_plan_entry(*p, e@, registry@) == Ok::<Option<UpdateModel>, ErrorModel>(
                None,
            ),
            Err(err) => spec_plan_entry(*p, e@, registry@) == Err::<Option<UpdateModel>, _>(err@),
        },
{
    let decl: Option<(String, bool)> = match &e.item {
        RawItem::Bare(s) => Some((s.clone(), false)),
        RawItem::TableLike(pairs) => match find_version_pair(pairs) {
            Some(v) => Some((v, true)),
            None => None,
        },
        RawItem::Other => None,
    };
    match decl {
        None => Ok(None),
        Some((declared, nested)) => {
            let cands = match registry.lookup(e.name.as_str()) {
                Some(c) => c,
                None => {
                    return Err(
                        Error::Registry {
                            crate_name: e.name.clone(),
                            detail: "no registry reply recorded for this crate".to_owned(),
                        },
                    );
                },
            };
            let resolved = match select_latest(cands, p.allow_yanked, p.allow_prerelease) {
                Ok(v) => v,
                Err(SelectError::MissingNum) => {
                    return Err(
                        Error::Registry {
                            crate_name: e.name.clone(),
                            detail: "a candidate version has no version text".to_owned(),
                        },
                    );
                },
                Err(SelectError::BadNum(t)) => {
                    return Err(
                        Error::VersionParse { crate_name: e.name.clone(), text: t, local: false },
                    );
                },
                Err(SelectError::NoUsable) => {
                    return Err(Error::NoUsableVersion { crate_name: e.name.clone() });
                },
            };
            match p.version_matches(declared.as_str(), resolved.as_str()) {
                Err(MatchError::Local) => Err(
                    Error::VersionParse {
                        crate_name: e.name.clone(),
                        text: trim_text(declared.as_str()),
                        local: true,
                    },
                ),
                Err(MatchError::Online) => Err(
                    Error::VersionParse { crate_name: e.name.clone(), text: resolved, local: false },
                ),
                Ok(true) => Ok(None),
                Ok(false) => {
                    let old_text = trim_text(declared.as_str());
                    Ok(
                        Some(
                            PendingUpdate {
                                name: e.name.clone(),
                                shape: if nested {
                                    Shape::Nested
                                } else {
                                    Shape::Bare
                                },
                                old_text,
                                new_text: resolved,
                            },
                        ),
                    )
                },
            }
        },
    }
}

/// Walk one section: queue the needed updates, collect the anomaly names, or
/// stop at the first fatal error, exactly as [`spec_plan_section`] says.
pub fn plan_section(p: &DepRefresh, entries: &Vec<RawEntry>, registry: &Registry) -> (r: Result<
    (Vec<PendingUpdate>, Vec<String>),
    Error,
>)
    ensures
        match r {
            Ok(out) => spec_plan_section(*p, section_model(entries@), registry@) == Ok::<
                _,
                ErrorModel,
            >(plan_model(out.0@)) && out.1@.map_values(|s: String| s@) == spec_anomalies(
                section_model(entries@),
            ) && forall|k: int|
                0 <= k < out.0@.len() ==> self_canonical(#[trigger] out.0@[k]@.new_text),
            Err(e) => spec_plan_section(*p, section_model(entries@), registry@) == Err::<
                Seq<UpdateModel>,
                _,
            >(e@),
        },
{
    let ghost whole = section_model(entries@);
    proof {
        assert(whole.skip(0) =~= whole);
    }
    let n = entries.len();
    let mut updates: Vec<PendingUpdate> = Vec::new();
    let mut anomalies: Vec<String> = Vec::new();
    let mut i: usize = 0;
    while i < n
        invariant
            n == entries@.len(),
            0 <= i <= n,
            whole == section_model(entries@),
            spec_plan_section(*p, whole, registry@) == (match spec_plan_section(
                *p,
                whole.skip(i as int),
                registry@,
            ) {
                Ok(rest) => Ok::<_, ErrorModel>(plan_model(updates@) + rest),
                Err(e) => Err(e),
            }),
            spec_anomalies(whole) == anomalies@.map_values(|s: String| s@) + spec_anomalies(
                whole.skip(i as int),
            ),
            forall|k: int|
                0 <= k < updates@.len() ==> self_canonical(#[trigger] updates@[k]@.new_text),
        decreases n - i,
    {
        proof {
            assert(whole.skip(i as int)[0] == whole[i as int]);
            assert(whole.skip(i as int).drop_first() =~= whole.skip(i as int + 1));
        }
        let e = &entries[i];
        if let RawItem::Other = &e.item {
            let ghost old_anoms = anomalies@;
            anomalies.push(e.name.clone());
            proof {
                assert(anomalies@.map_values(|s: String| s@) =~= old_anoms.map_values(
                    |s: String| s@,
                ) + seq![e.name@]);
            }
        }
        match plan_entry(p, e, registry) {
            Err(err) => {
                return Err(err);
            },
            Ok(None) => {},
            Ok(Some(u)) => {
                let ghost old_updates = updates@;
                updates.push(u);
                proof {
                    assert(plan_model(updates@) =~= plan_model(old_updates) + seq![
                        updates@.last()@,
                    ]);
                    assert(forall|rest: Seq<UpdateModel>|
                        (plan_model(old_updates) + seq![updates@.last()@]) + rest =~= plan_model(
                            old_updates,
                        ) + (seq![updates@.last()@] + rest));
                }
            },
        }
        i = i + 1;
    }
    proof {
        assert(whole.skip(n as int) =~= Seq::<(Seq<char>, EntryModel)>::empty());
        assert(plan_model(updates@) + Seq::<UpdateModel>::empty() =~= plan_model(updates@));
        assert(anomalies@.map_values(|s: String| s@) + Seq::<Seq<char>>::empty()
            =~= anomalies@.map_values(|s: String| s@));
    }
    Ok((updates, anomalies))
}

} // verus!
