use vstd::prelude::*;

use crate::errors::ErrorModel;
use crate::matcher::lemma_self_canonical_matches;
use crate::policy::DepRefresh;
use crate::registry::RegistryModel;
use crate::semver_api::self_canonical;
use crate::toml_api::{
    entry_has_version_pair, has_entry, pairs_has_key, set_entry_bare, set_entry_version,
    set_pairs_version, unique_entry_names, PairsModel, SectionModel,
};
use crate::walker::{
    entry_declared, pairs_version, spec_plan_entry, spec_plan_section, UpdateModel,
};

verus! {

/// Apply one queued update to the section model.
pub open spec fn apply_one(entries: SectionModel, u: UpdateModel) -> SectionModel {
    if u.nested {
        set_entry_version(entries, u.name, u.new_text)
    } else {
        set_entry_bare(entries, u.name, u.new_text)
    }
}

/// Apply a whole plan, in order.
pub open spec fn apply_plan(entries: SectionModel, plan: Seq<UpdateModel>) -> SectionModel
    decreases plan.len(),
{
    if plan.len() == 0 {
        entries
    } else {
        apply_plan(apply_one(entries, plan[0]), plan.drop_first())
    }
}

/// Each update of the plan, at its turn, finds the entry it edits in the
/// state the earlier updates left behind.
pub open spec fn plan_applicable(entries: SectionModel, plan: Seq<UpdateModel>) -> bool
    decreases plan.len(),
{
    plan.len() == 0 || {
        &&& has_entry(entries, plan[0].name)
        &&& plan[0].nested ==> entry_has_version_pair(entries, plan[0].name)
        &&& plan_applicable(apply_one(entries, plan[0]), plan.drop_first())
    }
}

proof fn lemma_pairs_version_has_key(pairs: PairsModel)
    requires
        pairs_version(pairs) is Some,
    ensures
        pairs_has_key(pairs, "version"@),
    decreases pairs.len(),
{
    if pairs.len() > 0 {
        if pairs[0].0 == "version"@ {
            assert(0 <= 0 < pairs.len() && pairs[0].0 == "version"@);
        } else {
            lemma_pairs_version_has_key(pairs.drop_first());
            let j = choose|j: int|
                0 <= j < pairs.drop_first().len() && pairs.drop_first()[j].0 == "version"@;
            assert(pairs[j + 1].0 == "version"@);
        }
    }
}

proof fn lemma_set_pairs_version_found(pairs: PairsModel, v: Seq<char>)
    requires
        pairs_version(pairs) is Some,
    ensures
        pairs_version(set_pairs_version(pairs, v)) == Some(v),
    decreases pairs.len(),
{
    if pairs.len() > 0 {
        let p2 = set_pairs_version(pairs, v);
        assert(p2[0] == (if pairs[0].0 == "version"@ {
            (pairs[0].0, Some(v))
        } else {
            pairs[0]
        }));
        if pairs[0].0 == "version"@ {
        } else {
            lemma_set_pairs_version_found(pairs.drop_first(), v);
            assert(p2.drop_first() =~= set_pairs_version(pairs.drop_first(), v));
        }
    }
}

// ---------------------------------------------------------------------------
// Pointwise consequences of applying one update.
// ---------------------------------------------------------------------------

/// An update rewrites nothing but the version value of the entry it names:
/// every other entry is untouched, names and order are kept, and in a nested
/// update the named entry's sibling pairs are kept as they were.
pub proof fn lemma_update_touches_only_version(entries: SectionModel, u: UpdateModel)
    ensures
        apply_one(entries, u).len() == entries.len(),
        forall|i: int|
            0 <= i < entries.len() ==> #[trigger] apply_one(entries, u)[i].0 == entries[i].0,
        forall|i: int|
            0 <= i < entries.len() && entries[i].0 != u.name ==> #[trigger] apply_one(entries, u)[i]
                == entries[i],
        u.nested ==> forall|i: int|
            0 <= i < entries.len() && (#[trigger] entries[i]).0 == u.name && entries[i].1.1
                is Some ==> {
                let old_pairs = entries[i].1.1->0;
                let new_pairs = apply_one(entries, u)[i].1.1->0;
                &&& apply_one(entries, u)[i].1.0 == entries[i].1.0
                &&& apply_one(entries, u)[i].1.1 is Some
                &&& new_pairs.len() == old_pairs.len()
                &&& forall|j: int|
                    0 <= j < old_pairs.len() ==> #[trigger] new_pairs[j].0 == old_pairs[j].0 && (
                    old_pairs[j].0 != "version"@ ==> new_pairs[j] == old_pairs[j]) && (old_pairs[j].0
                        == "version"@ ==> new_pairs[j].1 == Some(u.new_text))
            },
{
}

proof fn lemma_apply_one_skip_head(entries: SectionModel, u: UpdateModel)
    requires
        entries.len() > 0,
        u.name != entries[0].0,
    ensures
        apply_one(entries, u)[0] == entries[0],
        apply_one(entries, u).drop_first() =~= apply_one(entries.drop_first(), u),
{
}

/// Every update of a plan names an entry of the section it was planned from,
/// and the kind of edit it queues fits that entry's shape.
proof fn lemma_plan_names(
    p: DepRefresh,
    entries: SectionModel,
    reg: RegistryModel,
    plan: Seq<UpdateModel>,
)
    requires
        spec_plan_section(p, entries, reg) == Ok::<Seq<UpdateModel>, ErrorModel>(plan),
    ensures
        forall|k: int|
            0 <= k < plan.len() ==> exists|i: int|
                0 <= i < entries.len() && entries[i].0 == (#[trigger] plan[k]).name,
    decreases entries.len(),
{
    if entries.len() > 0 {
        let head = spec_plan_entry(p, entries[0], reg)->Ok_0;
        let rest_plan = spec_plan_section(p, entries.drop_first(), reg)->Ok_0;
        lemma_plan_names(p, entries.drop_first(), reg, rest_plan);
        assert forall|k: int| 0 <= k < plan.len() implies exists|i: int|
            0 <= i < entries.len() && entries[i].0 == (#[trigger] plan[k]).name by {
            match head {
                Some(u) => {
                    if k == 0 {
                        assert(entries[0].0 == plan[0].name);
                    } else {
                        assert(plan[k] == rest_plan[k - 1]);
                        let i = choose|i: int|
                            0 <= i < entries.drop_first().len() && entries.drop_first()[i].0
                                == rest_plan[k - 1].name;
                        assert(entries[i + 1].0 == plan[k].name);
                    }
                },
                None => {
                    assert(plan[k] == rest_plan[k]);
                    let i = choose|i: int|
                        0 <= i < entries.drop_first().len() && entries.drop_first()[i].0
                            == rest_plan[k].name;
                    assert(entries[i + 1].0 == plan[k].name);
                },
            }
        }
    }
}

/// A plan whose updates never name the first entry applies to the whole
/// section as soon as it applies to the rest.
proof fn lemma_applicable_skip_head(entries: SectionModel, plan: Seq<UpdateModel>)
    requires
        entries.len() > 0,
        plan_applicable(entries.drop_first(), plan),
        forall|k: int| 0 <= k < plan.len() ==> (#[trigger] plan[k]).name != entries[0].0,
    ensures
        plan_applicable(entries, plan),
    decreases plan.len(),
{
    if plan.len() > 0 {
        let u = plan[0];
        let rest = entries.drop_first();
        let i = choose|i: int| 0 <= i < rest.len() && rest[i].0 == u.name;
        assert(entries[i + 1].0 == u.name);
        assert(has_entry(entries, u.name));
        if u.nested {
            assert forall|j: int|
                0 <= j < entries.len() && (#[trigger] entries[j]).0 == u.name implies entries[j].1.1
                is Some && pairs_has_key(entries[j].1.1->0, "version"@) by {
                assert(j > 0);
                assert(rest[j - 1] == entries[j]);
            }
        }
        lemma_apply_one_skip_head(entries, u);
        assert(apply_one(entries, u)[0] == entries[0]);
        lemma_applicable_skip_head(apply_one(entries, u), plan.drop_first());
    }
}

/// A plan that a section gave rise to can be applied to that section: each
/// update finds its entry, in the state the earlier updates left.
pub proof fn lemma_plan_applicable(
    p: DepRefresh,
    entries: SectionModel,
    reg: RegistryModel,
    plan: Seq<UpdateModel>,
)
    requires
        unique_entry_names(entries),
        spec_plan_section(p, entries, reg) == Ok::<Seq<UpdateModel>, ErrorModel>(plan),
    ensures
        plan_applicable(entries, plan),
    decreases entries.len(),
{
    if entries.len() > 0 {
        let head = spec_plan_entry(p, entries[0], reg)->Ok_0;
        let rest = entries.drop_first();
        let rest_plan = spec_plan_section(p, rest, reg)->Ok_0;
        assert(unique_entry_names(rest)) by {
            assert(forall|i: int, j: int|
                0 <= i < j < rest.len() ==> rest[i] == entries[i + 1] && rest[j] == entries[j
                    + 1]);
        }
        lemma_plan_applicable(p, rest, reg, rest_plan);
        lemma_plan_names(p, rest, reg, rest_plan);
        assert forall|k: int|
            0 <= k < rest_plan.len() implies (#[trigger] rest_plan[k]).name != entries[0].0 by {
            let i = choose|i: int| 0 <= i < rest.len() && rest[i].0 == rest_plan[k].name;
            assert(entries[i + 1].0 == rest_plan[k].name);
        }
        match head {
            None => {
                assert(plan == rest_plan) by {
                    assert(Seq::<UpdateModel>::empty() + rest_plan =~= rest_plan);
                }
                lemma_applicable_skip_head(entries, plan);
            },
            Some(u) => {
                assert(plan =~= seq![u] + rest_plan);
                assert(plan[0] == u);
                assert(plan.drop_first() =~= rest_plan);
                // the head update fits the head entry
                assert(u.name == entries[0].0);
                assert(has_entry(entries, u.name));
                if u.nested {
                    assert(entries[0].1.1 is Some && pairs_version(entries[0].1.1->0) is Some);
                    lemma_pairs_version_has_key(entries[0].1.1->0);
                    assert forall|j: int|
                        0 <= j < entries.len() && (#[trigger] entries[j]).0
                            == u.name implies entries[j].1.1 is Some && pairs_has_key(
                        entries[j].1.1->0,
                        "version"@,
                    ) by {
                        assert(j == 0);
                    }
                }
                // after the head update, the rest of the plan applies
                let e2 = apply_one(entries, u);
                lemma_update_touches_only_version(entries, u);
                assert forall|j: int|
                    0 <= j < rest.len() implies #[trigger] e2.drop_first()[j] == rest[j] by {
                    assert(entries[j + 1].0 != u.name);
                    assert(e2[j + 1] == entries[j + 1]);
                }
                assert(e2.drop_first() =~= rest);
                lemma_applicable_skip_head(e2, rest_plan);
            },
        }
    }
}

proof fn lemma_apply_plan_skip_head(entries: SectionModel, plan: Seq<UpdateModel>)
    requires
        entries.len() > 0,
        forall|k: int| 0 <= k < plan.len() ==> (#[trigger] plan[k]).name != entries[0].0,
    ensures
        apply_plan(entries, plan).len() == entries.len(),
        apply_plan(entries, plan)[0] == entries[0],
        apply_plan(entries, plan).drop_first() =~= apply_plan(entries.drop_first(), plan),
    decreases plan.len(),
{
    if plan.len() == 0 {
    } else {
        lemma_apply_one_skip_head(entries, plan[0]);
        let e2 = apply_one(entries, plan[0]);
        assert(forall|k: int|
            0 <= k < plan.drop_first().len() ==> (#[trigger] plan.drop_first()[k]).name
                != e2[0].0);
        lemma_apply_plan_skip_head(e2, plan.drop_first());
        assert(apply_plan(e2.drop_first(), plan.drop_first()) =~= apply_plan(
            apply_one(entries.drop_first(), plan[0]),
            plan.drop_first(),
        ));
    }
}

/// No-op when satisfied: a section whose every entry needs nothing — each
/// declaration already matches its resolved version, or is skipped — plans
/// no update at all, so the engine leaves the text byte-identical.
pub proof fn lemma_satisfied_section_plans_nothing(
    p: DepRefresh,
    entries: SectionModel,
    reg: RegistryModel,
)
    requires
        forall|i: int|
            0 <= i < entries.len() ==> spec_plan_entry(p, #[trigger] entries[i], reg) == Ok::<
                Option<UpdateModel>,
                ErrorModel,
            >(None),
    ensures
        spec_plan_section(p, entries, reg) == Ok::<Seq<UpdateModel>, ErrorModel>(Seq::empty()),
    decreases entries.len(),
{
    if entries.len() > 0 {
        let rest = entries.drop_first();
        assert(forall|i: int|
            0 <= i < rest.len() ==> #[trigger] rest[i] == entries[i + 1]);
        lemma_satisfied_section_plans_nothing(p, rest, reg);
        assert(Seq::<UpdateModel>::empty() + Seq::<UpdateModel>::empty()
            =~= Seq::<UpdateModel>::empty());
    }
}

/// Idempotence: applying a section's own plan leaves a section that plans
/// nothing further — a second run under the same policy and the same registry
/// snapshot queues no update.
pub proof fn lemma_plan_after_apply(
    p: DepRefresh,
    entries: SectionModel,
    reg: RegistryModel,
    plan: Seq<UpdateModel>,
)
    requires
        unique_entry_names(entries),
        spec_plan_section(p, entries, reg) == Ok::<Seq<UpdateModel>, ErrorModel>(plan),
        forall|k: int| 0 <= k < plan.len() ==> self_canonical((#[trigger] plan[k]).new_text),
    ensures
        spec_plan_section(p, apply_plan(entries, plan), reg) == Ok::<Seq<UpdateModel>, ErrorModel>(
            Seq::empty(),
        ),
    decreases entries.len(),
{
    if entries.len() == 0 {
        assert(plan =~= Seq::<UpdateModel>::empty());
    } else {
        let head = spec_plan_entry(p, entries[0], reg)->Ok_0;
        let rest = entries.drop_first();
        let rest_plan = spec_plan_section(p, rest, reg)->Ok_0;
        assert(unique_entry_names(rest)) by {
            assert(forall|i: int, j: int|
                0 <= i < j < rest.len() ==> rest[i] == entries[i + 1] && rest[j] == entries[j
                    + 1]);
        }
        lemma_plan_names(p, rest, reg, rest_plan);
        assert forall|k: int|
            0 <= k < rest_plan.len() implies (#[trigger] rest_plan[k]).name != entries[0].0 by {
            let i = choose|i: int| 0 <= i < rest.len() && rest[i].0 == rest_plan[k].name;
            assert(entries[i + 1].0 == rest_plan[k].name);
        }
        match head {
            None => {
                assert(plan == rest_plan) by {
                    assert(Seq::<UpdateModel>::empty() + rest_plan =~= rest_plan);
                }
                lemma_plan_after_apply(p, rest, reg, rest_plan);
                let fin = apply_plan(entries, plan);
                lemma_apply_plan_skip_head(entries, plan);
                assert(fin[0] == entries[0]);
                assert(fin.drop_first() =~= apply_plan(rest, rest_plan));
                assert(spec_plan_entry(p, fin[0], reg) == Ok::<Option<UpdateModel>, ErrorModel>(
                    None,
                ));
                assert(Seq::<UpdateModel>::empty() + Seq::<UpdateModel>::empty()
                    =~= Seq::<UpdateModel>::empty());
            },
            Some(u) => {
                assert(plan =~= seq![u] + rest_plan);
                assert(plan[0] == u);
                assert(plan.drop_first() =~= rest_plan);
                assert(self_canonical(u.new_text));
                assert(forall|k: int|
                    0 <= k < rest_plan.len() ==> self_canonical(
                        (#[trigger] rest_plan[k]).new_text,
                    ));
                let e2 = apply_one(entries, u);
                lemma_update_touches_only_version(entries, u);
                assert forall|j: int|
                    0 <= j < rest.len() implies #[trigger] e2.drop_first()[j] == rest[j] by {
                    assert(entries[j + 1].0 != u.name);
                    assert(e2[j + 1] == entries[j + 1]);
                }
                assert(e2.drop_first() =~= rest);
                lemma_plan_after_apply(p, rest, reg, rest_plan);
                let fin = apply_plan(e2, rest_plan);
                assert(apply_plan(entries, plan) == fin);
                lemma_apply_plan_skip_head(e2, rest_plan);
                assert(fin[0] == e2[0]);
                assert(fin.drop_first() =~= apply_plan(rest, rest_plan));
                // the head entry, rewritten, now satisfies its resolved version
                let d = entry_declared(entries[0].1)->0;
                let m2 = fin[0].1;
                if u.nested {
                    assert(entries[0].1.0 is None);
                    assert(entries[0].1.1 is Some);
                    lemma_set_pairs_version_found(entries[0].1.1->0, u.new_text);
                    assert(m2.1 is Some);
                    assert(pairs_version(m2.1->0) == Some(u.new_text));
                    assert(entry_declared(m2) == Some((u.new_text, true)));
                } else {
                    assert(entry_declared(m2) == Some((u.new_text, false)));
                }
                lemma_self_canonical_matches(p.use_semver, u.new_text);
                assert(crate::text::spec_trim(u.new_text) == u.new_text);
                assert(spec_plan_entry(p, fin[0], reg) == Ok::<Option<UpdateModel>, ErrorModel>(
                    None,
                ));
                assert(Seq::<UpdateModel>::empty() + Seq::<UpdateModel>::empty()
                    =~= Seq::<UpdateModel>::empty());
            },
        }
    }
}

} // verus!
