//! What becomes of the records of a zone when `dns set` runs over it.

use vstd::prelude::*;

use crate::api::{CallView, RecordView, ReplyView};
use crate::plan::{
    apply_action, apply_plan, law_plan_replaces_the_whole_set, overlap_len, same_outside, set_plan,
    ZoneView,
};
use crate::set::{ids_of, SetRunView};
use crate::set_laws::{law_set_run_is_confined, lemma_clean_run, lemma_stays_listed, was_listed};
use crate::write::types_conflict;

verus! {

/// The zone after a call has succeeded.
pub open spec fn apply_call(zone: ZoneView, call: CallView) -> ZoneView {
    match call {
        CallView::Create { draft, .. } => ZoneView {
            created: zone.created.push(draft.data),
            ..zone
        },
        CallView::Replace { record_id, draft, .. } => ZoneView {
            records: zone.records.insert(record_id, draft.data),
            ..zone
        },
        CallView::Delete { record_id, .. } => ZoneView {
            records: zone.records.remove(record_id),
            ..zone
        },
        CallView::ListName { .. } => zone,
    }
}

/// The zone after a run has met the given replies, where a call has its effect if it succeeds and
/// none if it does not.
pub open spec fn zone_after(start: SetRunView, zone: ZoneView, replies: Seq<ReplyView>) -> ZoneView
    decreases replies.len(),
{
    if replies.len() == 0 {
        zone
    } else {
        let earlier = replies.drop_last();
        let before = zone_after(start, zone, earlier);
        match start.after_all(earlier).pending() {
            Some(call) => if replies.last() is Succeeded {
                apply_call(before, call)
            } else {
                before
            },
            None => before,
        }
    }
}

/// Where every call succeeds, the calls have the effect of the actions of the plan.
proof fn lemma_zone_follows_plan(
    start: SetRunView,
    zone: ZoneView,
    replies: Seq<ReplyView>,
    k: int,
)
    requires
        start.position == 0,
        start.write is Sending,
        start.outcomes.len() == 0,
        replies.len() == start.plan.len(),
        forall|i: int| 0 <= i < replies.len() ==> #[trigger] replies[i] == ReplyView::Succeeded,
        0 <= k <= replies.len(),
    ensures
        zone_after(start, zone, replies.take(k)) == apply_plan(zone, start.plan.take(k)),
    decreases k,
{
    if k > 0 {
        lemma_zone_follows_plan(start, zone, replies, k - 1);
        assert(replies.take(k).drop_last() =~= replies.take(k - 1));
        assert(replies.take(k).last() == replies[k - 1]);
        assert(start.plan.take(k).drop_last() =~= start.plan.take(k - 1));
        assert(start.plan.take(k).last() == start.plan[k - 1]);
        assert(start.outcomes =~= Seq::empty());
        lemma_clean_run(start, replies, k - 1);
        let run = start.after_all(replies.take(k - 1));
        let before = zone_after(start, zone, replies.take(k - 1));
        let action = start.plan[k - 1];
        assert(run.pending() matches Some(call) && apply_call(before, call) == apply_action(
            before,
            action,
        ));
    }
}

/// `dns set` does what it is for: once a run of which every call succeeds is over, the records
/// found for the type and name hold the given values in order as far as there are both, the surplus
/// ones are gone, the values still missing have been created in order, and every other record of
/// the zone is as it was.
pub proof fn law_set_run_replaces_the_whole_set(
    domain: Seq<char>,
    record_type: Seq<char>,
    name: Seq<char>,
    desired: Seq<Seq<char>>,
    replace_conflicting: bool,
    existing: Seq<RecordView>,
    zone: ZoneView,
    replies: Seq<ReplyView>,
)
    requires
        ids_of(existing).no_duplicates(),
        replies.len() == set_plan(ids_of(existing), desired).len(),
        forall|i: int| 0 <= i < replies.len() ==> #[trigger] replies[i] == ReplyView::Succeeded,
    ensures
        ({
            let start = SetRunView::started(
                domain,
                record_type,
                name,
                desired,
                replace_conflicting,
                existing,
            );
            let ids = ids_of(existing);
            let after = zone_after(start, zone, replies);
            &&& start.after_all(replies).pending() is None
            &&& forall|i: int|
                #![trigger ids[i]]
                0 <= i < ids.len() ==> {
                    &&& after.records.contains_key(ids[i]) <==> i < desired.len()
                    &&& i < desired.len() ==> after.records[ids[i]] == desired[i]
                }
            &&& after.created == zone.created + desired.skip(overlap_len(ids, desired) as int)
            &&& same_outside(zone.records, after.records, ids)
        }),
{
    let start = SetRunView::started(
        domain,
        record_type,
        name,
        desired,
        replace_conflicting,
        existing,
    );
    let k = replies.len() as int;
    lemma_zone_follows_plan(start, zone, replies, k);
    lemma_clean_run(start, replies, k);
    assert(replies.take(k) =~= replies);
    assert(start.plan.take(k) =~= start.plan);
    law_plan_replaces_the_whole_set(zone, ids_of(existing), desired);
}

/// Whether a record was listed, has the given id and cannot stand beside the given type.
pub open spec fn listed_conflict(
    replies: Seq<ReplyView>,
    record_type: Seq<char>,
    record_id: Seq<char>,
) -> bool {
    exists|record: RecordView|
        #![trigger was_listed(replies, record)]
        was_listed(replies, record) && record.record_id == Some(record_id) && types_conflict(
            record_type,
            record.type_,
        )
}

/// Whatever the replies are, `dns set` leaves alone every record that was not found for the type
/// and name, but for listed records of a conflicting type where the user allows it.
pub proof fn law_set_run_leaves_other_records_alone(
    domain: Seq<char>,
    record_type: Seq<char>,
    name: Seq<char>,
    desired: Seq<Seq<char>>,
    replace_conflicting: bool,
    existing: Seq<RecordView>,
    zone: ZoneView,
    replies: Seq<ReplyView>,
    record_id: Seq<char>,
)
    requires
        !ids_of(existing).contains(record_id),
        !(replace_conflicting && listed_conflict(replies, record_type, record_id)),
    ensures
        ({
            let start = SetRunView::started(
                domain,
                record_type,
                name,
                desired,
                replace_conflicting,
                existing,
            );
            let after = zone_after(start, zone, replies);
            &&& after.records.contains_key(record_id) <==> zone.records.contains_key(record_id)
            &&& zone.records.contains_key(record_id) ==> after.records[record_id]
                == zone.records[record_id]
        }),
    decreases replies.len(),
{
    if replies.len() > 0 {
        let earlier = replies.drop_last();
        lemma_stays_listed(replies);
        law_set_run_leaves_other_records_alone(
            domain,
            record_type,
            name,
            desired,
            replace_conflicting,
            existing,
            zone,
            earlier,
            record_id,
        );
        law_set_run_is_confined(
            domain,
            record_type,
            name,
            desired,
            replace_conflicting,
            existing,
            earlier,
        );
    }
}

} // verus!
