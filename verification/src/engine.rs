use vstd::prelude::*;

use crate::errors::{Error, ErrorModel};
use crate::laws::{apply_plan, lemma_plan_after_apply, lemma_plan_applicable, plan_applicable};
use crate::policy::DepRefresh;
use crate::registry::{Registry, RegistryModel};
use crate::semver_api::self_canonical;
use crate::toml_api::{
    doc_text, doc_to_string, extract_entries, extract_members, parse_document, raw_members_model,
    section_model, set_dep_bare, set_dep_version, toml_entries, toml_members, toml_parse_ok,
    unique_entry_names, RawEntry, RawItem, SectionModel,
};
use crate::walker::{
    entry_declared, find_version_pair, plan_model, plan_section, spec_anomalies,
    spec_plan_section, PendingUpdate, Shape, UpdateModel,
};

verus! {

/// What one engine run over one manifest text produced.
#[derive(Debug)]
pub struct UpdateOutcome {
    /// The manifest text after the rewrites (the input itself when nothing
    /// needed rewriting).
    pub new_text: String,
    /// The names of entries that were neither strings nor tables: reported,
    /// skipped, never fatal.
    pub anomalies: Vec<String>,
    /// The `workspace.members` directory names, for the caller to recurse
    /// into sibling manifests.
    pub workspace_members: Vec<String>,
    /// The rewrites that were applied, in the order they were applied, for
    /// the caller to report.
    pub updates: Vec<PendingUpdate>,
}

/// The three well-known dependency sections, in processing order.
pub open spec fn dep_section_names() -> Seq<Seq<char>> {
    seq!["dependencies"@, "build-dependencies"@, "dev-dependencies"@]
}

/// The update plans of the three sections of a manifest text, stopping at the
/// first fatal error.
pub open spec fn spec_plans(p: DepRefresh, text: Seq<char>, reg: RegistryModel) -> Result<
    Seq<Seq<UpdateModel>>,
    ErrorModel,
> {
    match spec_plan_section(p, toml_entries(text, "dependencies"@), reg) {
        Err(e) => Err(e),
        Ok(p0) => match spec_plan_section(p, toml_entries(text, "build-dependencies"@), reg) {
            Err(e) => Err(e),
            Ok(p1) => match spec_plan_section(p, toml_entries(text, "dev-dependencies"@), reg) {
                Err(e) => Err(e),
                Ok(p2) => Ok(seq![p0, p1, p2]),
            },
        },
    }
}

/// No-op when satisfied, for a whole manifest: when every entry of every
/// dependency section needs nothing — its declaration already matches the
/// resolved version, or it is skipped or anomalous — the manifest's plans are
/// all empty, and [`DepRefresh::update_toml`] then returns the input text
/// byte-identical and the caller creates no backup.
pub proof fn lemma_satisfied_manifest_is_noop(p: DepRefresh, text: Seq<char>, reg: RegistryModel)
    requires
        forall|k: int, i: int|
            0 <= k < 3 && 0 <= i < toml_entries(text, dep_section_names()[k]).len()
                ==> crate::walker::spec_plan_entry(
                p,
                #[trigger] toml_entries(text, dep_section_names()[k])[i],
                reg,
            ) == Ok::<Option<UpdateModel>, ErrorModel>(None),
    ensures
        spec_plans(p, text, reg) == Ok::<_, ErrorModel>(
            seq![
                Seq::<UpdateModel>::empty(),
                Seq::<UpdateModel>::empty(),
                Seq::<UpdateModel>::empty(),
            ],
        ),
{
    assert(dep_section_names()[0] == "dependencies"@);
    assert(dep_section_names()[1] == "build-dependencies"@);
    assert(dep_section_names()[2] == "dev-dependencies"@);
    crate::laws::lemma_satisfied_section_plans_nothing(p, toml_entries(text, "dependencies"@), reg);
    crate::laws::lemma_satisfied_section_plans_nothing(
        p,
        toml_entries(text, "build-dependencies"@),
        reg,
    );
    crate::laws::lemma_satisfied_section_plans_nothing(
        p,
        toml_entries(text, "dev-dependencies"@),
        reg,
    );
}

/// The anomaly reports of the three sections, in order.
pub open spec fn spec_all_anomalies(text: Seq<char>) -> Seq<Seq<char>> {
    spec_anomalies(toml_entries(text, "dependencies"@)) + spec_anomalies(
        toml_entries(text, "build-dependencies"@),
    ) + spec_anomalies(toml_entries(text, "dev-dependencies"@))
}

/// The string elements of a mirrored array, in order.
pub open spec fn somes(s: Seq<Option<Seq<char>>>) -> Seq<Seq<char>>
    decreases s.len(),
{
    if s.len() == 0 {
        Seq::empty()
    } else {
        (match s[0] {
            Some(x) => seq![x],
            None => Seq::empty(),
        }) + somes(s.drop_first())
    }
}

/// The workspace member directory names a manifest text declares.
pub open spec fn members_list(text: Seq<char>) -> Seq<Seq<char>> {
    match toml_members(text) {
        None => Seq::empty(),
        Some(s) => somes(s),
    }
}

fn member_strings(raw: Option<Vec<Option<String>>>) -> (r: Vec<String>)
    ensures
        r@.map_values(|s: String| s@) == (match raw_members_model(raw) {
            None => Seq::<Seq<char>>::empty(),
            Some(s) => somes(s),
        }),
{
    match raw {
        None => {
            let r: Vec<String> = Vec::new();
            proof {
                assert(r@.map_values(|s: String| s@) =~= Seq::<Seq<char>>::empty());
            }
            r
        },
        Some(v) => {
            let ghost whole = raw_members_model(Some(v))->0;
            proof {
                assert(whole.skip(0) =~= whole);
            }
            let n = v.len();
            let mut out: Vec<String> = Vec::new();
            let mut i: usize = 0;
            while i < n
                invariant
                    n == v@.len(),
                    0 <= i <= n,
                    whole == raw_members_model(Some(v))->0,
                    somes(whole) == out@.map_values(|s: String| s@) + somes(
                        whole.skip(i as int),
                    ),
                decreases n - i,
            {
                proof {
                    assert(whole.skip(i as int)[0] == whole[i as int]);
                    assert(whole.skip(i as int).drop_first() =~= whole.skip(i as int + 1));
                }
                let ghost old_out = out@;
                match &v[i] {
                    Some(s) => {
                        out.push(s.clone());
                        proof {
                            assert(out@.map_values(|s: String| s@) =~= old_out.map_values(
                                |s: String| s@,
                            ) + seq![out@.last()@]);
                            assert(forall|rest: Seq<Seq<char>>|
                                (old_out.map_values(|s: String| s@) + seq![out@.last()@]) + rest
                                    =~= old_out.map_values(|s: String| s@) + (seq![out@.last()@]
                                    + rest));
                        }
                    },
                    None => {
                        proof {
                            assert(Seq::<Seq<char>>::empty() + somes(whole.skip(i as int + 1))
                                =~= somes(whole.skip(i as int + 1)));
                        }
                    },
                }
                i = i + 1;
            }
            proof {
                assert(whole.skip(n as int) =~= Seq::<Option<Seq<char>>>::empty());
                assert(out@.map_values(|s: String| s@) + Seq::<Seq<char>>::empty()
                    =~= out@.map_values(|s: String| s@));
            }
            out
        },
    }
}

/// Write each queued update back into the document at its recorded place.
fn apply_updates(doc: &mut toml_edit::DocumentMut, section: &str, updates: &Vec<PendingUpdate>)
    requires
        section@ != "workspace"@,
        plan_applicable(toml_entries(doc_text(*old(doc)), section@), plan_model(updates@)),
    ensures
        toml_entries(doc_text(*final (doc)), section@) == apply_plan(
            toml_entries(doc_text(*old(doc)), section@),
            plan_model(updates@),
        ),
        forall|s: Seq<char>|
            s != section@ ==> #[trigger] toml_entries(doc_text(*final (doc)), s) == toml_entries(
                doc_text(*old(doc)),
                s,
            ),
        toml_members(doc_text(*final (doc))) == toml_members(doc_text(*old(doc))),
        updates@.len() == 0 ==> *final (doc) == *old(doc),
{
    let ghost plan = plan_model(updates@);
    let ghost e0 = toml_entries(doc_text(*old(doc)), section@);
    let n = updates.len();
    if n == 0 {
        return ;
    }
    proof {
        assert(plan.skip(0) =~= plan);
    }
    let mut k: usize = 0;
    while k < n
        invariant
            n == updates@.len(),
            0 <= k <= n,
            section@ != "workspace"@,
            plan == plan_model(updates@),
            e0 == toml_entries(doc_text(*old(doc)), section@),
            plan_applicable(toml_entries(doc_text(*doc), section@), plan.skip(k as int)),
            apply_plan(e0, plan) == apply_plan(
                toml_entries(doc_text(*doc), section@),
                plan.skip(k as int),
            ),
            forall|s: Seq<char>|
                s != section@ ==> #[trigger] toml_entries(doc_text(*doc), s) == toml_entries(
                    doc_text(*old(doc)),
                    s,
                ),
            toml_members(doc_text(*doc)) == toml_members(doc_text(*old(doc))),
        decreases n - k,
    {
        let u = &updates[k];
        proof {
            assert(plan.skip(k as int)[0] == plan[k as int]);
            assert(plan[k as int] == u@);
            assert(plan.skip(k as int).drop_first() =~= plan.skip(k as int + 1));
        }
        match u.shape {
            Shape::Bare => set_dep_bare(doc, section, u.name.as_str(), u.new_text.as_str()),
            Shape::Nested => set_dep_version(doc, section, u.name.as_str(), u.new_text.as_str()),
        }
        k = k + 1;
    }
    proof {
        assert(plan.skip(n as int) =~= Seq::<UpdateModel>::empty());
    }
}

/// Walk one section of the document, queue its updates and apply them.
fn process_section(
    p: &DepRefresh,
    doc: &mut toml_edit::DocumentMut,
    section: &str,
    registry: &Registry,
) -> (r: Result<(Vec<PendingUpdate>, Vec<String>), Error>)
    requires
        section@ != "workspace"@,
        unique_entry_names(toml_entries(doc_text(*old(doc)), section@)),
    ensures
        match r {
            Ok(out) => {
                let e0 = toml_entries(doc_text(*old(doc)), section@);
                &&& spec_plan_section(*p, e0, registry@) == Ok::<_, ErrorModel>(
                    plan_model(out.0@),
                )
                &&& toml_entries(doc_text(*final (doc)), section@) == apply_plan(
                    e0,
                    plan_model(out.0@),
                )
                &&& forall|s: Seq<char>|
                    s != section@ ==> #[trigger] toml_entries(doc_text(*final (doc)), s)
                        == toml_entries(doc_text(*old(doc)), s)
                &&& toml_members(doc_text(*final (doc))) == toml_members(doc_text(*old(doc)))
                &&& out.1@.map_values(|s: String| s@) == spec_anomalies(e0)
                &&& forall|k: int|
                    0 <= k < out.0@.len() ==> self_canonical(#[trigger] out.0@[k]@.new_text)
                &&& (out.0@.len() == 0 ==> *final (doc) == *old(doc))
            },
            Err(e) => spec_plan_section(*p, toml_entries(doc_text(*old(doc)), section@), registry@)
                == Err::<Seq<UpdateModel>, _>(e@) && *final (doc) == *old(doc),
        },
{
    let entries = extract_entries(doc, section);
    let (updates, anomalies) = match plan_section(p, &entries, registry) {
        Ok(pair) => pair,
        Err(e) => {
            return Err(e);
        },
    };
    proof {
        lemma_plan_applicable(
            *p,
            section_model(entries@),
            registry@,
            plan_model(updates@),
        );
    }
    apply_updates(doc, section, &updates);
    Ok((updates, anomalies))
}

/// The crate names of a section's usable declarations, in section order.
pub open spec fn spec_section_lookups(entries: SectionModel) -> Seq<Seq<char>>
    decreases entries.len(),
{
    if entries.len() == 0 {
        Seq::empty()
    } else {
        (if entry_declared(entries[0].1) is Some {
            seq![entries[0].0]
        } else {
            Seq::empty()
        }) + spec_section_lookups(entries.drop_first())
    }
}

/// Every crate name the engine will ask the registry about, in the order the
/// lookups are made.
pub open spec fn spec_lookup_names(text: Seq<char>) -> Seq<Seq<char>> {
    spec_section_lookups(toml_entries(text, "dependencies"@)) + spec_section_lookups(
        toml_entries(text, "build-dependencies"@),
    ) + spec_section_lookups(toml_entries(text, "dev-dependencies"@))
}

fn section_lookups(entries: &Vec<RawEntry>, out: &mut Vec<String>)
    ensures
        final (out)@.map_values(|s: String| s@) == old(out)@.map_values(|s: String| s@)
            + spec_section_lookups(section_model(entries@)),
{
    let ghost whole = section_model(entries@);
    let ghost base = out@.map_values(|s: String| s@);
    proof {
        assert(whole.skip(0) =~= whole);
        assert(base + Seq::<Seq<char>>::empty() =~= base);
    }
    let n = entries.len();
    let mut i: usize = 0;
    while i < n
        invariant
            n == entries@.len(),
            0 <= i <= n,
            whole == section_model(entries@),
            base + spec_section_lookups(whole) == out@.map_values(|s: String| s@)
                + spec_section_lookups(whole.skip(i as int)),
        decreases n - i,
    {
        proof {
            assert(whole.skip(i as int)[0] == whole[i as int]);
            assert(whole.skip(i as int).drop_first() =~= whole.skip(i as int + 1));
        }
        let e = &entries[i];
        let usable: bool = match &e.item {
            RawItem::Bare(_) => true,
            RawItem::TableLike(pairs) => find_version_pair(pairs).is_some(),
            RawItem::Other => false,
        };
        if usable {
            let ghost old_out = out@;
            out.push(e.name.clone());
            proof {
                assert(out@.map_values(|s: String| s@) =~= old_out.map_values(|s: String| s@)
                    + seq![out@.last()@]);
                assert(forall|rest: Seq<Seq<char>>|
                    (old_out.map_values(|s: String| s@) + seq![out@.last()@]) + rest
                        =~= old_out.map_values(|s: String| s@) + (seq![out@.last()@] + rest));
            }
        } else {
            proof {
                assert(Seq::<Seq<char>>::empty() + spec_section_lookups(whole.skip(i as int + 1))
                    =~= spec_section_lookups(whole.skip(i as int + 1)));
            }
        }
        i = i + 1;
    }
    proof {
        assert(whole.skip(n as int) =~= Seq::<(Seq<char>, crate::toml_api::EntryModel)>::empty());
        assert(out@.map_values(|s: String| s@) + Seq::<Seq<char>>::empty() =~= out@.map_values(
            |s: String| s@,
        ));
    }
}

/// The crate names a manifest's sections will need registry replies for, in
/// lookup order, so the caller can fetch exactly those, aborting at the first
/// failing lookup as the engine would.
pub fn crates_to_resolve(toml: &str) -> (r: Result<Vec<String>, Error>)
    ensures
        match r {
            Ok(v) => toml_parse_ok(toml@) && v@.map_values(|s: String| s@) == spec_lookup_names(
                toml@,
            ),
            Err(e) => !toml_parse_ok(toml@) && e@ is Syntax,
        },
{
    let doc = match parse_document(toml) {
        Ok(d) => d,
        Err(m) => {
            return Err(Error::Syntax(m));
        },
    };
    let mut out: Vec<String> = Vec::new();
    let e0 = extract_entries(&doc, "dependencies");
    section_lookups(&e0, &mut out);
    let e1 = extract_entries(&doc, "build-dependencies");
    section_lookups(&e1, &mut out);
    let e2 = extract_entries(&doc, "dev-dependencies");
    section_lookups(&e2, &mut out);
    proof {
        assert(out@.map_values(|s: String| s@) =~= spec_lookup_names(toml@));
    }
    Ok(out)
}

proof fn lemma_section_names_distinct()
    ensures
        "dependencies"@ != "build-dependencies"@,
        "dependencies"@ != "dev-dependencies"@,
        "build-dependencies"@ != "dev-dependencies"@,
        "dependencies"@ != "workspace"@,
        "build-dependencies"@ != "workspace"@,
        "dev-dependencies"@ != "workspace"@,
{
    reveal_strlit("dependencies");
    reveal_strlit("build-dependencies");
    reveal_strlit("dev-dependencies");
    reveal_strlit("workspace");
    assert("dependencies"@.len() == 12);
    assert("build-dependencies"@.len() == 18);
    assert("dev-dependencies"@.len() == 16);
    assert("workspace"@.len() == 9);
}

impl DepRefresh {
    /// Refresh one manifest text against the registry snapshot: walk the
    /// three dependency sections, resolve each declared crate's latest usable
    /// version under this policy, and rewrite exactly the declarations that
    /// do not match it, leaving every other part of the text as it was.
    ///
    /// The contract carries the two laws of the engine. No-op when satisfied:
    /// when no section queues an update the output text is the input itself,
    /// byte for byte. Idempotence: the output's sections plan nothing under
    /// the same policy and registry snapshot, so a second run returns its
    /// input unchanged.
    pub fn update_toml(&self, toml: &str, registry: &Registry) -> (r: Result<UpdateOutcome, Error>)
        ensures
            match r {
                Err(e) => (!toml_parse_ok(toml@) && e@ is Syntax) || (toml_parse_ok(toml@)
                    && spec_plans(*self, toml@, registry@) == Err::<Seq<Seq<UpdateModel>>, _>(e@)),
                Ok(out) => toml_parse_ok(toml@) && (spec_plans(*self, toml@, registry@) matches Ok(
                    plans,
                ) && {
                    &&& toml_entries(out.new_text@, "dependencies"@) == apply_plan(
                        toml_entries(toml@, "dependencies"@),
                        plans[0],
                    )
                    &&& toml_entries(out.new_text@, "build-dependencies"@) == apply_plan(
                        toml_entries(toml@, "build-dependencies"@),
                        plans[1],
                    )
                    &&& toml_entries(out.new_text@, "dev-dependencies"@) == apply_plan(
                        toml_entries(toml@, "dev-dependencies"@),
                        plans[2],
                    )
                    &&& forall|s: Seq<char>|
                        s != "dependencies"@ && s != "build-dependencies"@ && s
                            != "dev-dependencies"@ ==> #[trigger] toml_entries(out.new_text@, s)
                            == toml_entries(toml@, s)
                    &&& (plans[0].len() == 0 && plans[1].len() == 0 && plans[2].len() == 0)
                        ==> out.new_text@ == toml@
                    &&& out.anomalies@.map_values(|s: String| s@) == spec_all_anomalies(toml@)
                    &&& out.workspace_members@.map_values(|s: String| s@) == members_list(toml@)
                    &&& out.updates@.map_values(|u: PendingUpdate| u@) == plans[0] + plans[1]
                        + plans[2]
                    &&& toml_parse_ok(out.new_text@)
                    &&& spec_plans(*self, out.new_text@, registry@) == Ok::<_, ErrorModel>(
                        seq![
                            Seq::<UpdateModel>::empty(),
                            Seq::<UpdateModel>::empty(),
                            Seq::<UpdateModel>::empty(),
                        ],
                    )
                }),
            },
    {
        let mut doc = match parse_document(toml) {
            Ok(d) => d,
            Err(m) => {
                return Err(Error::Syntax(m));
            },
        };
        proof {
            lemma_section_names_distinct();
        }
        let ghost t0 = toml@;
        let ghost doc0 = doc;
        let raw_members = extract_members(&doc);
        let members = member_strings(raw_members);
        let (u0, a0) = match process_section(self, &mut doc, "dependencies", registry) {
            Ok(x) => x,
            Err(e) => {
                return Err(e);
            },
        };
        let ghost doc1 = doc;
        let (u1, a1) = match process_section(self, &mut doc, "build-dependencies", registry) {
            Ok(x) => x,
            Err(e) => {
                return Err(e);
            },
        };
        let ghost doc2 = doc;
        let (u2, a2) = match process_section(self, &mut doc, "dev-dependencies", registry) {
            Ok(x) => x,
            Err(e) => {
                return Err(e);
            },
        };
        let ghost doc3 = doc;
        let ghost plans = seq![plan_model(u0@), plan_model(u1@), plan_model(u2@)];
        proof {
            assert(spec_plans(*self, t0, registry@) == Ok::<_, ErrorModel>(plans));
        }
        let mut anomalies = a0;
        let mut a1m = a1;
        let mut a2m = a2;
        anomalies.append(&mut a1m);
        anomalies.append(&mut a2m);
        proof {
            assert(anomalies@.map_values(|s: String| s@) =~= spec_all_anomalies(t0));
        }
        let mut updates = u0;
        let mut u1m = u1;
        let mut u2m = u2;
        updates.append(&mut u1m);
        updates.append(&mut u2m);
        proof {
            assert(updates@.map_values(|u: PendingUpdate| u@) =~= plans[0] + plans[1] + plans[2]);
        }
        let new_text = doc_to_string(&doc);
        proof {
            // the rewritten text plans nothing further (idempotence)
            lemma_plan_after_apply(
                *self,
                toml_entries(t0, "dependencies"@),
                registry@,
                plans[0],
            );
            lemma_plan_after_apply(
                *self,
                toml_entries(t0, "build-dependencies"@),
                registry@,
                plans[1],
            );
            lemma_plan_after_apply(
                *self,
                toml_entries(t0, "dev-dependencies"@),
                registry@,
                plans[2],
            );
            assert(spec_plans(*self, new_text@, registry@) matches Ok(e) && e =~= seq![
                Seq::<UpdateModel>::empty(),
                Seq::<UpdateModel>::empty(),
                Seq::<UpdateModel>::empty(),
            ]);
            // when nothing was queued, the document was never touched
            if plans[0].len() == 0 && plans[1].len() == 0 && plans[2].len() == 0 {
                assert(u0@.len() == 0 && u1@.len() == 0 && u2@.len() == 0);
                assert(doc3 == doc0);
            }
        }
        Ok(UpdateOutcome { new_text, anomalies, workspace_members: members, updates })
    }
}

} // verus!
