//! Planning `dns set`: which records to reuse, remove and create.

use vstd::prelude::*;

verus! {

/// One reconcile action of `dns set`, over endpoints that each touch a single record.
#[derive(Debug, PartialEq)]
pub enum SetAction {
    /// Reuse an existing record's id, replacing its value with a new one.
    Replace { record_id: String, data: String },
    /// Remove an existing record no longer wanted.
    Delete { record_id: String },
    /// Create a record for a surplus value.
    Create { data: String },
}

/// The model of a [`SetAction`].
pub enum SetActionView {
    Replace { record_id: Seq<char>, data: Seq<char> },
    Delete { record_id: Seq<char> },
    Create { data: Seq<char> },
}

impl DeepView for SetAction {
    type V = SetActionView;

    open spec fn deep_view(&self) -> SetActionView {
        match self {
            SetAction::Replace { record_id, data } => SetActionView::Replace {
                record_id: record_id@,
                data: data@,
            },
            SetAction::Delete { record_id } => SetActionView::Delete { record_id: record_id@ },
            SetAction::Create { data } => SetActionView::Create { data: data@ },
        }
    }
}

/// How many ids have a value to take: the overlap of the two sides.
pub open spec fn overlap_len(existing: Seq<Seq<char>>, desired: Seq<Seq<char>>) -> nat {
    if existing.len() < desired.len() {
        existing.len()
    } else {
        desired.len()
    }
}

/// The plan that turns the records with the ids `existing` into records with the values `desired`:
/// the n-th id takes the n-th value, an id without a value is removed, and a value without an id
/// becomes a new record.
pub open spec fn set_plan(existing: Seq<Seq<char>>, desired: Seq<Seq<char>>) -> Seq<SetActionView> {
    Seq::new(
        if existing.len() < desired.len() {
            desired.len()
        } else {
            existing.len()
        },
        |i: int|
            if i < existing.len() && i < desired.len() {
                SetActionView::Replace { record_id: existing[i], data: desired[i] }
            } else if i < existing.len() {
                SetActionView::Delete { record_id: existing[i] }
            } else {
                SetActionView::Create { data: desired[i] }
            },
    )
}

/// Reconciles the existing records for a type and name (their ids, in list order) with the desired
/// values: reuses ids for the overlap, deletes the surplus existing, creates the surplus desired.
pub fn plan_set(existing_ids: &[String], desired: &[String]) -> (actions: Vec<SetAction>)
    ensures
        actions.deep_view() == set_plan(existing_ids.deep_view(), desired.deep_view()),
{
    let ghost plan = set_plan(existing_ids.deep_view(), desired.deep_view());
    let overlap: usize = if existing_ids.len() < desired.len() {
        existing_ids.len()
    } else {
        desired.len()
    };
    let mut actions: Vec<SetAction> = Vec::new();
    for i in 0..overlap
        invariant
            overlap <= existing_ids.len(),
            overlap <= desired.len(),
            plan == set_plan(existing_ids.deep_view(), desired.deep_view()),
            actions.len() == i,
            forall|j: int| 0 <= j < i ==> (#[trigger] actions@[j]).deep_view() == plan[j],
    {
        actions.push(
            SetAction::Replace { record_id: existing_ids[i].clone(), data: desired[i].clone() },
        );
    }
    for i in overlap..existing_ids.len()
        invariant
            overlap <= existing_ids.len(),
            overlap == existing_ids.len() || overlap == desired.len(),
            plan == set_plan(existing_ids.deep_view(), desired.deep_view()),
            actions.len() == i,
            forall|j: int| 0 <= j < i ==> (#[trigger] actions@[j]).deep_view() == plan[j],
    {
        actions.push(SetAction::Delete { record_id: existing_ids[i].clone() });
    }
    for i in overlap..desired.len()
        invariant
            overlap <= desired.len(),
            overlap == existing_ids.len() || overlap == desired.len(),
            plan == set_plan(existing_ids.deep_view(), desired.deep_view()),
            i == overlap || overlap == existing_ids.len(),
            actions.len() == if overlap == existing_ids.len() {
                i
            } else {
                existing_ids.len()
            },
            forall|j: int|
                0 <= j < actions.len() ==> (#[trigger] actions@[j]).deep_view() == plan[j],
    {
        actions.push(SetAction::Create { data: desired[i].clone() });
    }
    proof {
        assert(actions.deep_view() =~= plan);
    }
    actions
}

/// How many actions of a plan replace a record.
pub open spec fn replace_count(plan: Seq<SetActionView>) -> nat {
    plan.filter(|action: SetActionView| action is Replace).len()
}

/// How many actions of a plan delete a record.
pub open spec fn delete_count(plan: Seq<SetActionView>) -> nat {
    plan.filter(|action: SetActionView| action is Delete).len()
}

/// How many actions of a plan create a record.
pub open spec fn create_count(plan: Seq<SetActionView>) -> nat {
    plan.filter(|action: SetActionView| action is Create).len()
}

/// The records of a zone, as the actions of a plan change them: the value of each known record by
/// its id, and the values of the records created on the way, whose ids the server picks.
pub struct ZoneView {
    pub records: Map<Seq<char>, Seq<char>>,
    pub created: Seq<Seq<char>>,
}

/// The zone after one action has succeeded.
pub open spec fn apply_action(zone: ZoneView, action: SetActionView) -> ZoneView {
    match action {
        SetActionView::Replace { record_id, data } => ZoneView {
            records: zone.records.insert(record_id, data),
            ..zone
        },
        SetActionView::Delete { record_id } => ZoneView {
            records: zone.records.remove(record_id),
            ..zone
        },
        SetActionView::Create { data } => ZoneView { created: zone.created.push(data), ..zone },
    }
}

/// The zone after every action of a plan has succeeded, in order.
pub open spec fn apply_plan(zone: ZoneView, plan: Seq<SetActionView>) -> ZoneView
    decreases plan.len(),
{
    if plan.len() == 0 {
        zone
    } else {
        apply_action(apply_plan(zone, plan.drop_last()), plan.last())
    }
}

/// Whether two zones hold the same records, those with the given ids aside.
pub open spec fn same_outside(
    before: Map<Seq<char>, Seq<char>>,
    after: Map<Seq<char>, Seq<char>>,
    ids: Seq<Seq<char>>,
) -> bool {
    forall|id: Seq<char>|
        #![trigger after.dom().contains(id)]
        !ids.contains(id) ==> {
            &&& after.dom().contains(id) <==> before.dom().contains(id)
            &&& before.dom().contains(id) ==> after[id] == before[id]
        }
}

/// The zone after the first `done` actions of the plan for `existing` and `desired`.
proof fn lemma_apply_plan_prefix(
    zone: ZoneView,
    existing: Seq<Seq<char>>,
    desired: Seq<Seq<char>>,
    done: int,
)
    requires
        existing.no_duplicates(),
        0 <= done <= set_plan(existing, desired).len(),
    ensures
        ({
            let after = apply_plan(zone, set_plan(existing, desired).take(done));
            let overlap = overlap_len(existing, desired) as int;
            &&& same_outside(
                zone.records,
                after.records,
                existing.take(if done < existing.len() { done } else { existing.len() as int }),
            )
            &&& forall|i: int|
                #![trigger existing[i]]
                0 <= i < existing.len() && i < done ==> {
                    &&& after.records.contains_key(existing[i]) <==> i < desired.len()
                    &&& i < desired.len() ==> after.records[existing[i]] == desired[i]
                }
            &&& after.created == zone.created + desired.subrange(
                overlap,
                if existing.len() <= desired.len() && overlap < done {
                    done
                } else {
                    overlap
                },
            )
        }),
    decreases done,
{
    let plan = set_plan(existing, desired);
    let overlap = overlap_len(existing, desired) as int;
    if done == 0 {
        assert(desired.subrange(overlap, overlap) =~= Seq::empty());
        assert(zone.created + Seq::<Seq<char>>::empty() =~= zone.created);
    } else {
        lemma_apply_plan_prefix(zone, existing, desired, done - 1);
        assert(plan.take(done).drop_last() =~= plan.take(done - 1));
        assert(plan.take(done).last() == plan[done - 1]);
        let before = apply_plan(zone, plan.take(done - 1));
        let after = apply_plan(zone, plan.take(done));
        assert(after == apply_action(before, plan[done - 1]));
        if done <= existing.len() {
            let prefix = existing.take(done);
            assert(prefix[done - 1] == existing[done - 1]);
            let shorter = existing.take(done - 1);
            assert forall|id: Seq<char>| !prefix.contains(id) implies !shorter.contains(id) && id
                != existing[done - 1] by {
                if shorter.contains(id) {
                    let i = choose|i: int| 0 <= i < shorter.len() && shorter[i] == id;
                    assert(prefix[i] == id);
                }
            }
            assert(same_outside(zone.records, after.records, prefix)) by {
                assert forall|id: Seq<char>| !prefix.contains(id) implies {
                    &&& #[trigger] after.records.dom().contains(id)
                        <==> zone.records.dom().contains(id)
                    &&& zone.records.dom().contains(id) ==> after.records[id] == zone.records[id]
                } by {
                    assert(!shorter.contains(id) && id != existing[done - 1]);
                    assert(before.records.dom().contains(id) <==> zone.records.dom().contains(id));
                }
            }
        }
        if existing.len() <= desired.len() && overlap < done {
            assert(desired.subrange(overlap, done) =~= desired.subrange(overlap, done - 1).push(
                desired[done - 1],
            ));
            assert(after.created =~= zone.created + desired.subrange(overlap, done));
        }
    }
}

/// Setting is replacing the whole set: once every action of the plan has succeeded, the records
/// that stood for the type and name hold the desired values in order as far as there are both, the
/// surplus ones are gone, the values still missing have been created in order, and every other
/// record of the zone is as it was.
pub proof fn law_plan_replaces_the_whole_set(
    zone: ZoneView,
    existing: Seq<Seq<char>>,
    desired: Seq<Seq<char>>,
)
    requires
        existing.no_duplicates(),
    ensures
        ({
            let after = apply_plan(zone, set_plan(existing, desired));
            &&& forall|i: int|
                #![trigger existing[i]]
                0 <= i < existing.len() ==> {
                    &&& after.records.contains_key(existing[i]) <==> i < desired.len()
                    &&& i < desired.len() ==> after.records[existing[i]] == desired[i]
                }
            &&& after.created == zone.created + desired.skip(
                overlap_len(existing, desired) as int,
            )
            &&& same_outside(zone.records, after.records, existing)
        }),
{
    let plan = set_plan(existing, desired);
    lemma_apply_plan_prefix(zone, existing, desired, plan.len() as int);
    assert(plan.take(plan.len() as int) =~= plan);
    assert(existing.take(existing.len() as int) =~= existing);
    if existing.len() < desired.len() {
        assert(desired.skip(existing.len() as int) =~= desired.subrange(
            existing.len() as int,
            desired.len() as int,
        ));
    } else {
        assert(desired.skip(desired.len() as int) =~= desired.subrange(
            desired.len() as int,
            desired.len() as int,
        ));
    }
}

/// A filter that keeps exactly the items at positions from `low` up to `high` keeps that many.
pub proof fn lemma_filter_range_len<A>(items: Seq<A>, keep: spec_fn(A) -> bool, low: int, high: int)
    requires
        0 <= low <= high <= items.len(),
        forall|i: int| 0 <= i < items.len() ==> (keep(#[trigger] items[i]) <==> low <= i < high),
    ensures
        items.filter(keep).len() == high - low,
    decreases items.len(),
{
    reveal(Seq::filter);
    if items.len() > 0 {
        let rest = items.drop_last();
        assert(keep(items[items.len() - 1]) <==> low <= items.len() - 1 < high);
        assert forall|i: int| 0 <= i < rest.len() implies (keep(#[trigger] rest[i]) <==> low <= i
            < high) by {
            assert(rest[i] == items[i]);
        }
        if high == items.len() && low < high {
            lemma_filter_range_len(rest, keep, low, high - 1);
        } else if low == items.len() {
            lemma_filter_range_len(rest, keep, low - 1, high - 1);
        } else {
            lemma_filter_range_len(rest, keep, low, high);
        }
    }
}

/// Every id of the overlap is reused, and only what is surplus on one side is deleted or created:
/// a plan never holds both a deletion and a creation.
pub proof fn law_plan_counts(existing: Seq<Seq<char>>, desired: Seq<Seq<char>>)
    ensures
        replace_count(set_plan(existing, desired)) == overlap_len(existing, desired),
        delete_count(set_plan(existing, desired)) == existing.len() - overlap_len(
            existing,
            desired,
        ),
        create_count(set_plan(existing, desired)) == desired.len() - overlap_len(
            existing,
            desired,
        ),
{
    let plan = set_plan(existing, desired);
    let overlap = overlap_len(existing, desired) as int;
    lemma_filter_range_len(plan, |action: SetActionView| action is Replace, 0, overlap);
    lemma_filter_range_len(
        plan,
        |action: SetActionView| action is Delete,
        overlap,
        existing.len() as int,
    );
    lemma_filter_range_len(
        plan,
        |action: SetActionView| action is Create,
        existing.len() as int,
        plan.len() as int,
    );
}

/// No other way is less destructive: any plan that leaves as many records as there are desired
/// values deletes at least as many records, and creates at least as many.
pub proof fn law_plan_is_least_destructive(
    existing: Seq<Seq<char>>,
    desired: Seq<Seq<char>>,
    other: Seq<SetActionView>,
)
    requires
        existing.len() + create_count(other) == desired.len() + delete_count(other),
    ensures
        delete_count(set_plan(existing, desired)) <= delete_count(other),
        create_count(set_plan(existing, desired)) <= create_count(other),
{
    law_plan_counts(existing, desired);
}

} // verus!
