//! What a complete run of `dns set` does to a zone, action by action.

use vstd::prelude::*;

use crate::api::{
    ids_before, lemma_ids_before_grows, lemma_ids_before_step, lemma_ids_before_tells_apart,
    CallView, RecordView, ReplyView,
};
use crate::outcome::OutcomeView;
use crate::plan::{apply_action, set_plan, SetActionView, ZoneView};
use crate::set::{ids_of, SetRunView};
use crate::set_laws::law_set_run_outcomes;
use crate::write::{WriteStateView, WriteView};
use crate::write_laws::{
    law_write_calls, law_write_outcomes, lemma_first_replies_answer, lemma_listed_second,
    met_conflicts, removals, reports_duplicate, write_replies_answer, write_run,
};
use crate::zone_laws::zone_after;

verus! {

/// Whether a write that met the given replies removed the record with the given id as one that
/// conflicts.
pub open spec fn write_removed(write: WriteView, replies: Seq<ReplyView>, id: Seq<char>) -> bool {
    let conflicts = met_conflicts(write, replies);
    exists|n: int|
        #![trigger conflicts[n]]
        0 <= n < conflicts.len() && conflicts[n].record_id == Some(id) && removals(
            conflicts,
            replies.skip(2),
        )[n].error is None
}

/// The records that are left when those with some ids are gone.
pub open spec fn records_without(
    records: Map<Seq<char>, Seq<char>>,
    gone: spec_fn(Seq<char>) -> bool,
) -> Map<Seq<char>, Seq<char>> {
    Map::new(|id: Seq<char>| records.contains_key(id) && !gone(id), |id: Seq<char>| records[id])
}

/// Whether the first `k` replies to a write removed the record with the given id.
spec fn removed_early(write: WriteView, replies: Seq<ReplyView>, k: int, id: Seq<char>) -> bool {
    let conflicts = met_conflicts(write, replies);
    exists|n: int|
        #![trigger conflicts[n]]
        0 <= n < conflicts.len() && conflicts[n].record_id == Some(id) && ids_before(conflicts, n)
            + 2 < k && replies[ids_before(conflicts, n) as int + 2] is Succeeded
}

/// Whether the current action of a run is the given write, which has not begun.
spec fn about_to_write(run: SetRunView, write: WriteView) -> bool {
    &&& run.position < run.plan.len()
    &&& run.write == WriteStateView::Sending
    &&& match run.plan[run.position as int] {
        SetActionView::Replace { record_id, data } => write == run.write_for(data, Some(record_id)),
        SetActionView::Create { data } => write == run.write_for(data, None),
        SetActionView::Delete { .. } => false,
    }
}

/// Until the last reply of a write has come, it has removed conflicting records and done nothing
/// else.
proof fn lemma_write_before_its_end(
    run: SetRunView,
    zone: ZoneView,
    write: WriteView,
    replies: Seq<ReplyView>,
    k: int,
)
    requires
        about_to_write(run, write),
        write_replies_answer(write, replies),
        0 <= k < replies.len(),
    ensures
        zone_after(run, zone, replies.take(k)) == (ZoneView {
            records: records_without(
                zone.records,
                |id: Seq<char>| removed_early(write, replies, k, id),
            ),
            ..zone
        }),
    decreases k,
{
    let conflicts = met_conflicts(write, replies);
    let gone = |id: Seq<char>| removed_early(write, replies, k, id);
    if k == 0 {
        assert(records_without(zone.records, gone) =~= zone.records);
    } else {
        lemma_write_before_its_end(run, zone, write, replies, k - 1);
        let gone_before = |id: Seq<char>| removed_early(write, replies, k - 1, id);
        let before = zone_after(run, zone, replies.take(k - 1));
        assert(replies.take(k).drop_last() =~= replies.take(k - 1));
        assert(replies.take(k).last() == replies[k - 1]);
        run.lemma_write_goes_on(write, replies, k - 1);
        lemma_first_replies_answer(write, replies, k - 1);
        law_write_calls(write, replies.take(k - 1));
        lemma_first_replies_answer(write, replies, k);
        law_write_calls(write, replies.take(k));
        let pending = run.after_all(replies.take(k - 1)).pending();
        let reply = replies[k - 1];
        let next = replies[k];
        assert(reports_duplicate(replies[0]));
        if k <= 2 {
            assert(records_without(zone.records, gone) =~= before.records);
        } else {
            let n = choose|n: int|
                #![trigger conflicts[n]]
                0 <= n < conflicts.len() && ids_before(conflicts, n) == k - 3 && (
                conflicts[n].record_id matches Some(record_id) && pending == Some(
                    CallView::Delete { zone: write.domain, record_id, conflict: true },
                ));
            let removed = conflicts[n].record_id->0;
            assert forall|id: Seq<char>| #[trigger] gone(id) <==> gone_before(id) || (id == removed
                && reply is Succeeded) by {
                if gone(id) && !gone_before(id) {
                    let m = choose|m: int|
                        #![trigger conflicts[m]]
                        0 <= m < conflicts.len() && conflicts[m].record_id == Some(id)
                            && ids_before(conflicts, m) + 2 < k
                            && replies[ids_before(conflicts, m) as int + 2] is Succeeded;
                    assert(ids_before(conflicts, m) == k - 3);
                    lemma_ids_before_tells_apart(conflicts, m, n);
                }
                if gone_before(id) {
                    let m = choose|m: int|
                        #![trigger conflicts[m]]
                        0 <= m < conflicts.len() && conflicts[m].record_id == Some(id)
                            && ids_before(conflicts, m) + 2 < k - 1
                            && replies[ids_before(conflicts, m) as int + 2] is Succeeded;
                    assert(conflicts[m].record_id == Some(id));
                }
            }
            if reply is Succeeded {
                assert(records_without(zone.records, gone) =~= before.records.remove(removed));
            } else {
                assert(records_without(zone.records, gone) =~= before.records);
            }
        }
    }
}

/// The removals that a complete write reports are those that its replies made.
proof fn lemma_removed_by_its_end(write: WriteView, replies: Seq<ReplyView>, id: Seq<char>)
    requires
        write_replies_answer(write, replies),
        write_run(write, replies) is Done,
    ensures
        removed_early(write, replies, replies.len() - 1, id) <==> write_removed(write, replies, id),
{
    law_write_outcomes(write, replies);
    let conflicts = met_conflicts(write, replies);
    let deletions = replies.skip(2);
    assert forall|n: int|
        #![trigger conflicts[n]]
        0 <= n < conflicts.len() && conflicts[n].record_id is Some implies {
        &&& ids_before(conflicts, n) + 2 < replies.len() - 1
        &&& replies[ids_before(conflicts, n) as int + 2] is Succeeded <==> removals(
            conflicts,
            deletions,
        )[n].error is None
    } by {
        lemma_ids_before_step(conflicts, n);
        lemma_ids_before_grows(conflicts, n + 1, conflicts.len() as int);
        let k = ids_before(conflicts, n) as int + 2;
        assert(deletions[k - 2] == replies[k]);
        if replies[k] is Listed {
            lemma_listed_second(write, replies, k);
        }
    }
}

/// Whether an action that met the given replies removed the record with the given id as one that
/// conflicts.
pub open spec fn action_removed(
    run: SetRunView,
    action: SetActionView,
    replies: Seq<ReplyView>,
    id: Seq<char>,
) -> bool {
    match action {
        SetActionView::Replace { record_id, data } => write_removed(
            run.write_for(data, Some(record_id)),
            replies,
            id,
        ),
        SetActionView::Create { data } => write_removed(run.write_for(data, None), replies, id),
        SetActionView::Delete { .. } => false,
    }
}

/// Whether an action that met the given replies did what it is for: its own outcome, which comes
/// after those of the conflicting records, holds no error.
pub open spec fn action_done(
    run: SetRunView,
    action: SetActionView,
    replies: Seq<ReplyView>,
) -> bool {
    run.action_outcomes(action, replies).last().error is None
}

/// The zone after one action that met the given replies: the conflicting records that it removed
/// are gone, and if it did what it is for, that has its effect.
pub open spec fn action_effect(
    run: SetRunView,
    zone: ZoneView,
    action: SetActionView,
    replies: Seq<ReplyView>,
) -> ZoneView {
    let cleared = ZoneView {
        records: records_without(
            zone.records,
            |id: Seq<char>| action_removed(run, action, replies, id),
        ),
        ..zone
    };
    if action_done(run, action, replies) {
        apply_action(cleared, action)
    } else {
        cleared
    }
}

/// The zone after the first actions of the plan, where `segments` holds the replies to each.
pub open spec fn run_effect(
    run: SetRunView,
    zone: ZoneView,
    segments: Seq<Seq<ReplyView>>,
) -> ZoneView
    decreases segments.len(),
{
    if segments.len() == 0 {
        zone
    } else {
        action_effect(
            run,
            run_effect(run, zone, segments.drop_last()),
            run.plan[segments.len() - 1],
            segments.last(),
        )
    }
}

/// A write has the effect that its outcomes say.
proof fn lemma_write_effect(
    run: SetRunView,
    zone: ZoneView,
    write: WriteView,
    replies: Seq<ReplyView>,
)
    requires
        about_to_write(run, write),
        write_replies_answer(write, replies),
        write_run(write, replies) is Done,
    ensures
        zone_after(run, zone, replies) == action_effect(
            run,
            zone,
            run.plan[run.position as int],
            replies,
        ),
{
    let action = run.plan[run.position as int];
    let k = replies.len() - 1;
    law_write_outcomes(write, replies);
    lemma_write_before_its_end(run, zone, write, replies, k);
    run.lemma_write_goes_on(write, replies, k);
    lemma_first_replies_answer(write, replies, k);
    law_write_calls(write, replies.take(k));
    assert(replies.take(k) =~= replies.drop_last());
    let reply = replies[k];
    if reply is Listed {
        lemma_listed_second(write, replies, k);
    }
    let before = zone_after(run, zone, replies.take(k));
    let gone = |id: Seq<char>| action_removed(run, action, replies, id);
    assert forall|id: Seq<char>| removed_early(write, replies, k, id) <==> #[trigger] gone(id) by {
        lemma_removed_by_its_end(write, replies, id);
    }
    assert(before.records =~= records_without(zone.records, gone));
}

/// An action has the effect that its outcomes say.
proof fn lemma_action_effect(run: SetRunView, zone: ZoneView, replies: Seq<ReplyView>)
    requires
        run.position < run.plan.len(),
        run.write == WriteStateView::Sending,
        run.answers_action(run.plan[run.position as int], replies),
    ensures
        zone_after(run, zone, replies) == action_effect(
            run,
            zone,
            run.plan[run.position as int],
            replies,
        ),
{
    let action = run.plan[run.position as int];
    match action {
        SetActionView::Replace { record_id, data } => {
            lemma_write_effect(run, zone, run.write_for(data, Some(record_id)), replies);
        },
        SetActionView::Create { data } => {
            lemma_write_effect(run, zone, run.write_for(data, None), replies);
        },
        SetActionView::Delete { .. } => {
            let gone = |id: Seq<char>| action_removed(run, action, replies, id);
            assert(records_without(zone.records, gone) =~= zone.records);
            let earlier = replies.drop_last();
            assert(earlier =~= Seq::empty());
            assert(zone_after(run, zone, earlier) == zone);
            assert(run.after_all(earlier) == run);
            assert(replies.last() == replies[0]);
        },
    }
}

/// What replies do to a zone one after another is what the first of them do and then the others.
proof fn lemma_zone_after_add(
    run: SetRunView,
    zone: ZoneView,
    first: Seq<ReplyView>,
    others: Seq<ReplyView>,
)
    ensures
        zone_after(run, zone, first + others) == zone_after(
            run.after_all(first),
            zone_after(run, zone, first),
            others,
        ),
    decreases others.len(),
{
    if others.len() == 0 {
        assert(first + others =~= first);
    } else {
        assert((first + others).drop_last() =~= first + others.drop_last());
        assert((first + others).last() == others.last());
        lemma_zone_after_add(run, zone, first, others.drop_last());
        run.lemma_after_all_add(first, others.drop_last());
    }
}

/// After the replies to the first `k` actions, the zone shows the effects of these.
proof fn lemma_run_effect(
    run: SetRunView,
    zone: ZoneView,
    segments: Seq<Seq<ReplyView>>,
    k: int,
)
    requires
        run.position == 0,
        run.write == WriteStateView::Sending,
        run.outcomes == Seq::<OutcomeView>::empty(),
        run.answered_by(segments),
        0 <= k <= segments.len(),
    ensures
        zone_after(run, zone, segments.take(k).flatten_alt()) == run_effect(
            run,
            zone,
            segments.take(k),
        ),
    decreases k,
{
    if k == 0 {
        assert(segments.take(0).flatten_alt() =~= Seq::empty());
    } else {
        lemma_run_effect(run, zone, segments, k - 1);
        run.lemma_actions(segments, k - 1);
        assert(segments.take(k).drop_last() =~= segments.take(k - 1));
        assert(segments.take(k).last() == segments[k - 1]);
        let earlier = segments.take(k - 1).flatten_alt();
        assert(segments.take(k).flatten_alt() == earlier + segments[k - 1]);
        lemma_zone_after_add(run, zone, earlier, segments[k - 1]);
        let now = run.after_all(earlier);
        let before = zone_after(run, zone, earlier);
        assert(now.answers_action(now.plan[k - 1], segments[k - 1]));
        lemma_action_effect(now, before, segments[k - 1]);
        let action = run.plan[k - 1];
        assert(records_without(
            before.records,
            |id: Seq<char>| action_removed(now, action, segments[k - 1], id),
        ) =~= records_without(
            before.records,
            |id: Seq<char>| action_removed(run, action, segments[k - 1], id),
        ));
    }
}

/// A complete run of `dns set`, whatever became of its actions, does to the zone what its actions
/// do one after another: each removes the conflicting records whose deletion succeeded, and then,
/// if its own outcome holds no error, has the effect that was planned.
pub proof fn law_set_run_effects(
    domain: Seq<char>,
    record_type: Seq<char>,
    name: Seq<char>,
    desired: Seq<Seq<char>>,
    replace_conflicting: bool,
    existing: Seq<RecordView>,
    zone: ZoneView,
    segments: Seq<Seq<ReplyView>>,
)
    requires
        SetRunView::started(
            domain,
            record_type,
            name,
            desired,
            replace_conflicting,
            existing,
        ).answered_by(segments),
    ensures
        ({
            let start = SetRunView::started(
                domain,
                record_type,
                name,
                desired,
                replace_conflicting,
                existing,
            );
            &&& start.after_all(segments.flatten()).pending() is None
            &&& zone_after(start, zone, segments.flatten()) == run_effect(start, zone, segments)
        }),
{
    let start = SetRunView::started(
        domain,
        record_type,
        name,
        desired,
        replace_conflicting,
        existing,
    );
    let k = segments.len() as int;
    law_set_run_outcomes(
        domain,
        record_type,
        name,
        desired,
        replace_conflicting,
        existing,
        segments,
    );
    lemma_run_effect(start, zone, segments, k);
    segments.lemma_flatten_and_flatten_alt_are_equivalent();
    assert(segments.take(k) =~= segments);
}

/// The value of the record with the given id, if there is one.
pub open spec fn value_of(records: Map<Seq<char>, Seq<char>>, id: Seq<char>) -> Option<Seq<char>> {
    if records.contains_key(id) {
        Some(records[id])
    } else {
        None
    }
}

/// Whether one of the actions from `low` up to `high` removed the record with the given id as one
/// that conflicts.
pub open spec fn removed_between(
    run: SetRunView,
    segments: Seq<Seq<ReplyView>>,
    low: int,
    high: int,
    id: Seq<char>,
) -> bool {
    exists|j: int|
        #![trigger segments[j]]
        low <= j < high && action_removed(run, run.plan[j], segments[j], id)
}

/// The values of the creations that were done, in order.
pub open spec fn values_created(run: SetRunView, segments: Seq<Seq<ReplyView>>) -> Seq<Seq<char>>
    decreases segments.len(),
{
    if segments.len() == 0 {
        Seq::empty()
    } else {
        let earlier = values_created(run, segments.drop_last());
        let action = run.plan[segments.len() - 1];
        if action is Create && action_done(run, action, segments.last()) {
            earlier.push(action->Create_data)
        } else {
            earlier
        }
    }
}

/// What one action does to one record.
proof fn lemma_action_on_record(
    run: SetRunView,
    zone: ZoneView,
    action: SetActionView,
    replies: Seq<ReplyView>,
    id: Seq<char>,
)
    ensures
        ({
            let after = value_of(action_effect(run, zone, action, replies).records, id);
            let cleared = if action_removed(run, action, replies, id) {
                None
            } else {
                value_of(zone.records, id)
            };
            match action {
                SetActionView::Replace { record_id, data } => after == if record_id == id
                    && action_done(run, action, replies) {
                    Some(data)
                } else {
                    cleared
                },
                SetActionView::Delete { record_id } => after == if record_id == id && action_done(
                    run,
                    action,
                    replies,
                ) {
                    None
                } else {
                    cleared
                },
                SetActionView::Create { .. } => after == cleared,
            }
        }),
{
}

/// Looking one action further for removals.
proof fn lemma_removed_between_step(
    run: SetRunView,
    segments: Seq<Seq<ReplyView>>,
    low: int,
    high: int,
    id: Seq<char>,
)
    requires
        low <= high,
    ensures
        removed_between(run, segments, low, high + 1, id) <==> removed_between(
            run,
            segments,
            low,
            high,
            id,
        ) || action_removed(run, run.plan[high], segments[high], id),
{
    if action_removed(run, run.plan[high], segments[high], id) {
        let replies = segments[high];
        assert(removed_between(run, segments, low, high + 1, id));
    }
}

/// What the first `k` actions do to a record that no action of the plan is about.
proof fn lemma_other_record(
    run: SetRunView,
    zone: ZoneView,
    segments: Seq<Seq<ReplyView>>,
    ids: Seq<Seq<char>>,
    desired: Seq<Seq<char>>,
    id: Seq<char>,
    k: int,
)
    requires
        run.plan == set_plan(ids, desired),
        !ids.contains(id),
        0 <= k <= segments.len() <= run.plan.len(),
    ensures
        value_of(run_effect(run, zone, segments.take(k)).records, id) == if removed_between(
            run,
            segments,
            0,
            k,
            id,
        ) {
            None
        } else {
            value_of(zone.records, id)
        },
    decreases k,
{
    if k > 0 {
        lemma_other_record(run, zone, segments, ids, desired, id, k - 1);
        assert(segments.take(k).drop_last() =~= segments.take(k - 1));
        assert(segments.take(k).last() == segments[k - 1]);
        let before = run_effect(run, zone, segments.take(k - 1));
        lemma_action_on_record(run, before, run.plan[k - 1], segments[k - 1], id);
        lemma_removed_between_step(run, segments, 0, k - 1, id);
        if k <= ids.len() {
            assert(ids.contains(ids[k - 1]));
        }
    }
}

/// What the first `k` actions do to a record that was found.
proof fn lemma_found_record(
    run: SetRunView,
    zone: ZoneView,
    segments: Seq<Seq<ReplyView>>,
    ids: Seq<Seq<char>>,
    desired: Seq<Seq<char>>,
    i: int,
    k: int,
)
    requires
        run.plan == set_plan(ids, desired),
        ids.no_duplicates(),
        0 <= i < ids.len(),
        0 <= k <= segments.len() <= run.plan.len(),
    ensures
        value_of(run_effect(run, zone, segments.take(k)).records, ids[i]) == if k <= i {
            if removed_between(run, segments, 0, k, ids[i]) {
                None
            } else {
                value_of(zone.records, ids[i])
            }
        } else {
            found_record_after(run, zone, segments, ids, desired, i, k)
        },
    decreases k,
{
    if k > 0 {
        let id = ids[i];
        lemma_found_record(run, zone, segments, ids, desired, i, k - 1);
        assert(segments.take(k).drop_last() =~= segments.take(k - 1));
        assert(segments.take(k).last() == segments[k - 1]);
        let before = run_effect(run, zone, segments.take(k - 1));
        lemma_action_on_record(run, before, run.plan[k - 1], segments[k - 1], id);
        if k <= i + 1 {
            lemma_removed_between_step(run, segments, 0, k - 1, id);
        } else {
            lemma_removed_between_step(run, segments, i + 1, k - 1, id);
        }
    }
}

/// The value that the record found at place `i` has after the first `k` actions, its own among
/// them: none if a later action removed it, else what its own action was to make of it if that was
/// done, and else what it was before, unless it was removed.
pub open spec fn found_record_after(
    run: SetRunView,
    zone: ZoneView,
    segments: Seq<Seq<ReplyView>>,
    ids: Seq<Seq<char>>,
    desired: Seq<Seq<char>>,
    i: int,
    k: int,
) -> Option<Seq<char>> {
    if removed_between(run, segments, i + 1, k, ids[i]) {
        None
    } else if action_done(run, run.plan[i], segments[i]) {
        if i < desired.len() {
            Some(desired[i])
        } else {
            None
        }
    } else if removed_between(run, segments, 0, i + 1, ids[i]) {
        None
    } else {
        value_of(zone.records, ids[i])
    }
}

/// The first `k` actions create the values of the creations among them that were done.
proof fn lemma_created(run: SetRunView, zone: ZoneView, segments: Seq<Seq<ReplyView>>)
    ensures
        run_effect(run, zone, segments).created == zone.created + values_created(run, segments),
    decreases segments.len(),
{
    if segments.len() == 0 {
        assert(zone.created + Seq::<Seq<char>>::empty() =~= zone.created);
    } else {
        lemma_created(run, zone, segments.drop_last());
        assert(run_effect(run, zone, segments).created =~= zone.created + values_created(
            run,
            segments,
        ));
    }
}

/// What a complete run of `dns set` leaves of each record of the zone, whatever became of its
/// actions. A record found for the type and name holds its value, or is gone, where its own action
/// was done and no later one removed it; where its action was not done it is as before, unless it
/// was removed as a conflicting record. Any other record is as before, unless it was removed as a
/// conflicting record. The values created are those of the creations that were done.
pub proof fn law_set_run_records(
    domain: Seq<char>,
    record_type: Seq<char>,
    name: Seq<char>,
    desired: Seq<Seq<char>>,
    replace_conflicting: bool,
    existing: Seq<RecordView>,
    zone: ZoneView,
    segments: Seq<Seq<ReplyView>>,
)
    requires
        ids_of(existing).no_duplicates(),
        SetRunView::started(
            domain,
            record_type,
            name,
            desired,
            replace_conflicting,
            existing,
        ).answered_by(segments),
    ensures
        ({
            let start = SetRunView::started(
                domain,
                record_type,
                name,
                desired,
                replace_conflicting,
                existing,
            );
            let ids = ids_of(existing);
            let count = segments.len() as int;
            let after = zone_after(start, zone, segments.flatten());
            &&& start.after_all(segments.flatten()).pending() is None
            &&& forall|i: int|
                #![trigger ids[i]]
                0 <= i < ids.len() ==> value_of(after.records, ids[i]) == found_record_after(
                    start,
                    zone,
                    segments,
                    ids,
                    desired,
                    i,
                    count,
                )
            &&& forall|id: Seq<char>|
                #![trigger value_of(after.records, id)]
                !ids.contains(id) ==> value_of(after.records, id) == if removed_between(
                    start,
                    segments,
                    0,
                    count,
                    id,
                ) {
                    None
                } else {
                    value_of(zone.records, id)
                }
            &&& after.created == zone.created + values_created(start, segments)
        }),
{
    let start = SetRunView::started(
        domain,
        record_type,
        name,
        desired,
        replace_conflicting,
        existing,
    );
    let ids = ids_of(existing);
    let count = segments.len() as int;
    law_set_run_effects(
        domain,
        record_type,
        name,
        desired,
        replace_conflicting,
        existing,
        zone,
        segments,
    );
    let after = zone_after(start, zone, segments.flatten());
    assert(segments.take(count) =~= segments);
    assert forall|i: int| #![trigger ids[i]] 0 <= i < ids.len() implies value_of(
        after.records,
        ids[i],
    ) == found_record_after(start, zone, segments, ids, desired, i, count) by {
        lemma_found_record(start, zone, segments, ids, desired, i, count);
    }
    assert forall|id: Seq<char>|
        #![trigger value_of(after.records, id)]
        !ids.contains(id) implies value_of(after.records, id) == if removed_between(
        start,
        segments,
        0,
        count,
        id,
    ) {
        None
    } else {
        value_of(zone.records, id)
    } by {
        lemma_other_record(start, zone, segments, ids, desired, id, count);
    }
    lemma_created(start, zone, segments);
}

} // verus!
