//! What a run of `dns set` that is reported as a success has done.

use vstd::prelude::*;

use crate::api::{RecordView, ReplyView};
use crate::effect_laws::{
    action_done, action_removed, law_set_run_records, removed_between, value_of, values_created,
    write_removed,
};
use crate::json::Json;
use crate::outcome::{
    failure_count, lemma_kinds_differ, set_success, succeeded_as, success_count, OutcomeView,
};
use crate::plan::{lemma_filter_range_len, overlap_len, set_plan, SetActionView, ZoneView};
use crate::set::{ids_of, SetRunView};
use crate::set_laws::{law_set_run_outcomes, was_listed};
use crate::write::{write_kind, WriteView};
use crate::write_laws::{
    law_write_outcomes, lemma_conflicts_are_listed, met_conflicts, removals, write_replies_answer,
    write_result, write_run,
};
use crate::zone_laws::{listed_conflict, zone_after};

verus! {

/// The conflicting records that an action which met the given replies set out to remove.
pub open spec fn action_conflicts(
    run: SetRunView,
    action: SetActionView,
    replies: Seq<ReplyView>,
) -> Seq<RecordView> {
    match action {
        SetActionView::Replace { record_id, data } => met_conflicts(
            run.write_for(data, Some(record_id)),
            replies,
        ),
        SetActionView::Create { data } => met_conflicts(run.write_for(data, None), replies),
        SetActionView::Delete { .. } => Seq::empty(),
    }
}

/// Where nothing failed, none of the outcomes holds an error.
pub proof fn lemma_no_failure(outcomes: Seq<OutcomeView>)
    requires
        failure_count(outcomes) == 0,
    ensures
        forall|n: int|
            #![trigger outcomes[n]]
            0 <= n < outcomes.len() ==> outcomes[n].error is None,
{
    let failed = |outcome: OutcomeView| outcome.error is Some;
    assert forall|n: int|
        #![trigger outcomes[n]]
        0 <= n < outcomes.len() implies outcomes[n].error is None by {
        if failed(outcomes[n]) {
            outcomes.lemma_filter_contains(failed, n);
            assert(outcomes.filter(failed).contains(outcomes[n]));
        }
    }
}

/// Where nothing failed in any group of outcomes, none of them holds an error.
proof fn lemma_no_failure_in_groups(groups: Seq<Seq<OutcomeView>>)
    requires
        failure_count(groups.flatten_alt()) == 0,
    ensures
        forall|i: int, n: int|
            #![trigger groups[i][n]]
            0 <= i < groups.len() && 0 <= n < groups[i].len() ==> groups[i][n].error is None,
    decreases groups.len(),
{
    if groups.len() > 0 {
        let failed = |outcome: OutcomeView| outcome.error is Some;
        let earlier = groups.drop_last();
        Seq::filter_distributes_over_add(earlier.flatten_alt(), groups.last(), failed);
        lemma_no_failure_in_groups(earlier);
        lemma_no_failure(groups.last());
        assert forall|i: int, n: int|
            #![trigger groups[i][n]]
            0 <= i < groups.len() && 0 <= n
                < groups[i].len() implies groups[i][n].error is None by {
            if i < earlier.len() {
                assert(earlier[i] == groups[i]);
                assert(earlier[i][n].error is None);
            }
        }
    }
}

/// The outcomes of a complete write are those of the conflicting records that it set out to remove,
/// and then its own.
proof fn lemma_write_result(write: WriteView, replies: Seq<ReplyView>)
    requires
        write_replies_answer(write, replies),
        write_run(write, replies) is Done,
    ensures
        ({
            let result = write_result(write, replies);
            let conflicts = met_conflicts(write, replies);
            &&& result.len() == conflicts.len() + 1
            &&& result.drop_last() == removals(conflicts, replies.skip(2))
            &&& result.last().kind == write_kind(write)
        }),
{
    law_write_outcomes(write, replies);
    let result = write_result(write, replies);
    let conflicts = met_conflicts(write, replies);
    assert(result.drop_last() =~= removals(conflicts, replies.skip(2)));
}

/// The outcomes of an action of which nothing failed: that it was done, and before that the removal
/// of each conflicting record, which had an id.
proof fn lemma_action_succeeded(run: SetRunView, action: SetActionView, replies: Seq<ReplyView>)
    requires
        run.answers_action(action, replies),
        forall|n: int|
            #![trigger run.action_outcomes(action, replies)[n]]
            0 <= n < run.action_outcomes(action, replies).len() ==> run.action_outcomes(
                action,
                replies,
            )[n].error is None,
    ensures
        action_done(run, action, replies),
        forall|n: int|
            #![trigger action_conflicts(run, action, replies)[n]]
            0 <= n < action_conflicts(run, action, replies).len() ==> (action_conflicts(
                run,
                action,
                replies,
            )[n].record_id matches Some(id) && action_removed(run, action, replies, id)),
        success_count(run.action_outcomes(action, replies), "replaced"@) == if action is Replace {
            1int
        } else {
            0
        },
        success_count(run.action_outcomes(action, replies), "created"@) == if action is Create {
            1int
        } else {
            0
        },
        success_count(run.action_outcomes(action, replies), "deleted"@) == action_conflicts(
            run,
            action,
            replies,
        ).len() + if action is Delete {
            1int
        } else {
            0
        },
{
    let outcomes = run.action_outcomes(action, replies);
    let conflicts = action_conflicts(run, action, replies);
    let count = conflicts.len() as int;
    lemma_kinds_differ();
    if !(action is Delete) {
        let write = match action {
            SetActionView::Replace { record_id, data } => run.write_for(data, Some(record_id)),
            SetActionView::Create { data } => run.write_for(data, None),
            SetActionView::Delete { .. } => arbitrary(),
        };
        lemma_write_result(write, replies);
        let removed = removals(conflicts, replies.skip(2));
        assert forall|n: int|
            #![trigger conflicts[n]]
            0 <= n < conflicts.len() implies removed[n] == outcomes[n] && (
        conflicts[n].record_id matches Some(id) && action_removed(run, action, replies, id)) by {
            assert(outcomes.drop_last()[n] == outcomes[n]);
            assert(outcomes[n].error is None);
            let id = conflicts[n].record_id->0;
            assert(write_removed(write, replies, id));
        }
        assert forall|n: int| 0 <= n < count implies (#[trigger] outcomes[n]).kind == "deleted"@
            && outcomes[n].error is None by {
            assert(removed[n] == outcomes[n]);
            let record = conflicts[n];
        }
    }
    assert(outcomes[count].error is None);
    assert(outcomes.last() == outcomes[count]);
    let full = count + 1;
    lemma_filter_range_len(
        outcomes,
        succeeded_as("replaced"@),
        if action is Replace {
            count
        } else {
            full
        },
        full,
    );
    lemma_filter_range_len(
        outcomes,
        succeeded_as("created"@),
        if action is Create {
            count
        } else {
            full
        },
        full,
    );
    lemma_filter_range_len(
        outcomes,
        succeeded_as("deleted"@),
        0,
        if action is Delete {
            full
        } else {
            count
        },
    );
}

/// In a complete run of which nothing failed, nothing failed in any action.
proof fn lemma_actions_succeeded(
    domain: Seq<char>,
    record_type: Seq<char>,
    name: Seq<char>,
    desired: Seq<Seq<char>>,
    replace_conflicting: bool,
    existing: Seq<RecordView>,
    segments: Seq<Seq<ReplyView>>,
)
    requires
        SetRunView::started(
            domain,
            record_type,
            name,
            desired,
            replace_conflicting,
            existing,
        ).answered_by(segments),
        failure_count(
            SetRunView::started(
                domain,
                record_type,
                name,
                desired,
                replace_conflicting,
                existing,
            ).after_all(segments.flatten()).outcomes,
        ) == 0,
    ensures
        ({
            let start = SetRunView::started(
                domain,
                record_type,
                name,
                desired,
                replace_conflicting,
                existing,
            );
            forall|i: int|
                #![trigger segments[i]]
                0 <= i < segments.len() ==> {
                    let outcomes = start.action_outcomes(start.plan[i], segments[i]);
                    forall|n: int|
                        #![trigger outcomes[n]]
                        0 <= n < outcomes.len() ==> outcomes[n].error is None
                }
        }),
{
    let start = SetRunView::started(
        domain,
        record_type,
        name,
        desired,
        replace_conflicting,
        existing,
    );
    let groups = start.all_outcomes(segments);
    law_set_run_outcomes(
        domain,
        record_type,
        name,
        desired,
        replace_conflicting,
        existing,
        segments,
    );
    groups.lemma_flatten_and_flatten_alt_are_equivalent();
    lemma_no_failure_in_groups(groups);
    assert forall|i: int| #![trigger segments[i]] 0 <= i < segments.len() implies {
        let outcomes = start.action_outcomes(start.plan[i], segments[i]);
        forall|n: int|
            #![trigger outcomes[n]]
            0 <= n < outcomes.len() ==> outcomes[n].error is None
    } by {
        let outcomes = start.action_outcomes(start.plan[i], segments[i]);
        assert(groups[i] == outcomes);
        assert forall|n: int|
            #![trigger outcomes[n]]
            0 <= n < outcomes.len() implies outcomes[n].error is None by {
            assert(groups[i][n].error is None);
        }
    }
}

/// Where every action was done, every value without a record was created.
proof fn lemma_all_values_created(
    run: SetRunView,
    segments: Seq<Seq<ReplyView>>,
    ids: Seq<Seq<char>>,
    desired: Seq<Seq<char>>,
    k: int,
)
    requires
        run.plan == set_plan(ids, desired),
        forall|i: int|
            #![trigger segments[i]]
            0 <= i < segments.len() ==> action_done(run, run.plan[i], segments[i]),
        0 <= k <= segments.len() <= run.plan.len(),
    ensures
        values_created(run, segments.take(k)) == if k <= ids.len() {
            Seq::empty()
        } else {
            desired.subrange(ids.len() as int, k)
        },
    decreases k,
{
    if k > 0 {
        lemma_all_values_created(run, segments, ids, desired, k - 1);
        assert(segments.take(k).drop_last() =~= segments.take(k - 1));
        assert(segments.take(k).last() == segments[k - 1]);
        assert(action_done(run, run.plan[k - 1], segments[k - 1]));
        if k > ids.len() {
            assert(values_created(run, segments.take(k)) =~= desired.subrange(
                ids.len() as int,
                k,
            ));
        }
    }
}

/// A run of `dns set` that is complete and reported as a success has replaced the whole set,
/// whether or not conflicting records had to be removed on the way. The records found for the type
/// and name hold the given values in order as far as there are both, the surplus ones are gone, and
/// the values still missing have been created in order. Every conflicting record that a write met
/// had an id, and none is left. Every other record of the zone is as it was.
///
/// A found record that has taken its value must not be listed to a later write as one that
/// conflicts: it would be removed again.
pub proof fn law_reported_success_replaces_the_whole_set(
    domain: Seq<char>,
    record_type: Seq<char>,
    name: Seq<char>,
    desired: Seq<Seq<char>>,
    replace_conflicting: bool,
    existing: Seq<RecordView>,
    zone: ZoneView,
    segments: Seq<Seq<ReplyView>>,
)
    requires
        ids_of(existing).no_duplicates(),
        SetRunView::started(
            domain,
            record_type,
            name,
            desired,
            replace_conflicting,
            existing,
        ).answered_by(segments),
        failure_count(
            SetRunView::started(
                domain,
                record_type,
                name,
                desired,
                replace_conflicting,
                existing,
            ).after_all(segments.flatten()).outcomes,
        ) == 0,
        forall|i: int|
            #![trigger ids_of(existing)[i]]
            0 <= i < overlap_len(ids_of(existing), desired) ==> !removed_between(
                SetRunView::started(
                    domain,
                    record_type,
                    name,
                    desired,
                    replace_conflicting,
                    existing,
                ),
                segments,
                i + 1,
                segments.len() as int,
                ids_of(existing)[i],
            ),
    ensures
        ({
            let start = SetRunView::started(
                domain,
                record_type,
                name,
                desired,
                replace_conflicting,
                existing,
            );
            let ids = ids_of(existing);
            let count = segments.len() as int;
            let after = zone_after(start, zone, segments.flatten());
            &&& start.after_all(segments.flatten()).pending() is None
            &&& forall|i: int|
                #![trigger ids[i]]
                0 <= i < ids.len() ==> value_of(after.records, ids[i]) == if i < desired.len() {
                    Some(desired[i])
                } else {
                    None
                }
            &&& after.created == zone.created + desired.skip(overlap_len(ids, desired) as int)
            &&& forall|j: int, n: int|
                #![trigger action_conflicts(start, start.plan[j], segments[j])[n]]
                0 <= j < segments.len() && 0 <= n < action_conflicts(
                    start,
                    start.plan[j],
                    segments[j],
                ).len() ==> (action_conflicts(
                    start,
                    start.plan[j],
                    segments[j],
                )[n].record_id matches Some(id) && (!ids.contains(id) ==> value_of(
                    after.records,
                    id,
                ) is None))
            &&& forall|id: Seq<char>|
                #![trigger value_of(after.records, id)]
                !ids.contains(id) && !removed_between(start, segments, 0, count, id) ==> value_of(
                    after.records,
                    id,
                ) == value_of(zone.records, id)
        }),
{
    let start = SetRunView::started(
        domain,
        record_type,
        name,
        desired,
        replace_conflicting,
        existing,
    );
    let ids = ids_of(existing);
    let count = segments.len() as int;
    let after = zone_after(start, zone, segments.flatten());
    law_set_run_records(
        domain,
        record_type,
        name,
        desired,
        replace_conflicting,
        existing,
        zone,
        segments,
    );
    lemma_actions_succeeded(
        domain,
        record_type,
        name,
        desired,
        replace_conflicting,
        existing,
        segments,
    );
    assert forall|j: int| #![trigger segments[j]] 0 <= j < segments.len() implies {
        let conflicts = action_conflicts(start, start.plan[j], segments[j]);
        &&& action_done(start, start.plan[j], segments[j])
        &&& forall|n: int|
            #![trigger conflicts[n]]
            0 <= n < conflicts.len() ==> (conflicts[n].record_id matches Some(id)
                && removed_between(start, segments, 0, count, id))
    } by {
        lemma_action_succeeded(start, start.plan[j], segments[j]);
        let conflicts = action_conflicts(start, start.plan[j], segments[j]);
        assert forall|n: int| #![trigger conflicts[n]] 0 <= n < conflicts.len() implies (
        conflicts[n].record_id matches Some(id) && removed_between(
            start,
            segments,
            0,
            count,
            id,
        )) by {
            let id = conflicts[n].record_id->0;
            assert(action_removed(start, start.plan[j], segments[j], id));
        }
    }
    lemma_all_values_created(start, segments, ids, desired, count);
    assert(segments.take(count) =~= segments);
    let overlap = overlap_len(ids, desired) as int;
    assert(values_created(start, segments) =~= desired.skip(overlap));
    assert forall|i: int| #![trigger ids[i]] 0 <= i < ids.len() implies value_of(
        after.records,
        ids[i],
    ) == if i < desired.len() {
        Some(desired[i])
    } else {
        None
    } by {
        let replies = segments[i];
        assert(action_done(start, start.plan[i], segments[i]));
    }
    assert forall|j: int, n: int|
        #![trigger action_conflicts(start, start.plan[j], segments[j])[n]]
        0 <= j < segments.len() && 0 <= n < action_conflicts(
            start,
            start.plan[j],
            segments[j],
        ).len() implies (action_conflicts(
        start,
        start.plan[j],
        segments[j],
    )[n].record_id matches Some(id) && (!ids.contains(id) ==> value_of(
        after.records,
        id,
    ) is None)) by {
        let conflicts = action_conflicts(start, start.plan[j], segments[j]);
        let id = conflicts[n].record_id->0;
        assert(removed_between(start, segments, 0, count, id));
    }
}

/// How many conflicting records the actions set out to remove, where `segments` holds the replies
/// to each.
pub open spec fn conflict_count(run: SetRunView, segments: Seq<Seq<ReplyView>>) -> nat
    decreases segments.len(),
{
    if segments.len() == 0 {
        0
    } else {
        conflict_count(run, segments.drop_last()) + action_conflicts(
            run,
            run.plan[segments.len() - 1],
            segments.last(),
        ).len()
    }
}

/// The counts over the outcomes of the first `k` actions, where nothing failed.
proof fn lemma_counts(
    run: SetRunView,
    segments: Seq<Seq<ReplyView>>,
    ids: Seq<Seq<char>>,
    desired: Seq<Seq<char>>,
    k: int,
)
    requires
        run.plan == set_plan(ids, desired),
        run.answered_by(segments),
        forall|i: int|
            #![trigger segments[i]]
            0 <= i < segments.len() ==> {
                let outcomes = run.action_outcomes(run.plan[i], segments[i]);
                forall|n: int|
                    #![trigger outcomes[n]]
                    0 <= n < outcomes.len() ==> outcomes[n].error is None
            },
        0 <= k <= segments.len(),
    ensures
        ({
            let outcomes = run.all_outcomes(segments).take(k).flatten_alt();
            let overlap = overlap_len(ids, desired);
            let found = if k < ids.len() {
                k
            } else {
                ids.len() as int
            };
            let reused = if k < overlap {
                k
            } else {
                overlap as int
            };
            &&& success_count(outcomes, "replaced"@) == reused
            &&& success_count(outcomes, "created"@) == k - found
            &&& success_count(outcomes, "deleted"@) == found - reused + conflict_count(
                run,
                segments.take(k),
            )
        }),
    decreases k,
{
    let all = run.all_outcomes(segments);
    if k == 0 {
        reveal(Seq::filter);
        assert(all.take(0).flatten_alt() =~= Seq::empty());
    } else {
        lemma_counts(run, segments, ids, desired, k - 1);
        let action = run.plan[k - 1];
        let outcomes = run.action_outcomes(action, segments[k - 1]);
        assert(run.answers_action(action, segments[k - 1]));
        lemma_action_succeeded(run, action, segments[k - 1]);
        assert(segments.take(k).drop_last() =~= segments.take(k - 1));
        assert(segments.take(k).last() == segments[k - 1]);
        assert(all.take(k).drop_last() =~= all.take(k - 1));
        assert(all.take(k).last() == outcomes);
        let earlier = all.take(k - 1).flatten_alt();
        assert(all.take(k).flatten_alt() == earlier + outcomes);
        Seq::filter_distributes_over_add(earlier, outcomes, succeeded_as("replaced"@));
        Seq::filter_distributes_over_add(earlier, outcomes, succeeded_as("created"@));
        Seq::filter_distributes_over_add(earlier, outcomes, succeeded_as("deleted"@));
    }
}

/// The counts of a run of `dns set` that is complete and reported as a success: as many replaced as
/// the two sides have in common, as many created as were missing, and as many deleted as were too
/// many and as stood in the way of a write.
pub proof fn law_reported_success_counts(
    domain: Seq<char>,
    record_type: Seq<char>,
    name: Seq<char>,
    desired: Seq<Seq<char>>,
    replace_conflicting: bool,
    existing: Seq<RecordView>,
    segments: Seq<Seq<ReplyView>>,
)
    requires
        SetRunView::started(
            domain,
            record_type,
            name,
            desired,
            replace_conflicting,
            existing,
        ).answered_by(segments),
        failure_count(
            SetRunView::started(
                domain,
                record_type,
                name,
                desired,
                replace_conflicting,
                existing,
            ).after_all(segments.flatten()).outcomes,
        ) == 0,
    ensures
        ({
            let start = SetRunView::started(
                domain,
                record_type,
                name,
                desired,
                replace_conflicting,
                existing,
            );
            let end = start.after_all(segments.flatten());
            let overlap = overlap_len(ids_of(existing), desired);
            set_success(domain, record_type, name, end.outcomes) == Json::Object(
                map![
                    "domain"@ => Json::Text(domain),
                    "type"@ => Json::Text(record_type),
                    "name"@ => Json::Text(name),
                    "replaced"@ => Json::Number(overlap as int),
                    "created"@ => Json::Number(desired.len() - overlap),
                    "deleted"@ => Json::Number(
                        existing.len() - overlap + conflict_count(start, segments),
                    ),
                    "action"@ => Json::Text("set"@),
                ],
            )
        }),
{
    let start = SetRunView::started(
        domain,
        record_type,
        name,
        desired,
        replace_conflicting,
        existing,
    );
    let k = segments.len() as int;
    let all = start.all_outcomes(segments);
    law_set_run_outcomes(
        domain,
        record_type,
        name,
        desired,
        replace_conflicting,
        existing,
        segments,
    );
    lemma_actions_succeeded(
        domain,
        record_type,
        name,
        desired,
        replace_conflicting,
        existing,
        segments,
    );
    lemma_counts(start, segments, ids_of(existing), desired, k);
    all.lemma_flatten_and_flatten_alt_are_equivalent();
    assert(all.take(k) =~= all);
    assert(segments.take(k) =~= segments);
}

/// The replies to one action are among all replies.
proof fn lemma_reply_in_flatten(segments: Seq<Seq<ReplyView>>, j: int, k: int)
    requires
        0 <= j < segments.len(),
        0 <= k < segments[j].len(),
    ensures
        segments.flatten_alt().contains(segments[j][k]),
    decreases segments.len(),
{
    let earlier = segments.drop_last();
    let all = segments.flatten_alt();
    let start = earlier.flatten_alt();
    assert(all == start + segments.last());
    if j < earlier.len() {
        lemma_reply_in_flatten(earlier, j, k);
        let i = choose|i: int| 0 <= i < start.len() && start[i] == earlier[j][k];
        assert(all[i] == segments[j][k]);
    } else {
        assert(all[start.len() + k] == segments[j][k]);
    }
}

/// A complete run of `dns set` removes a record as one that conflicts only where the user allows
/// it, and only one that was listed and that the given type cannot stand beside.
pub proof fn law_removed_records_were_listed(
    domain: Seq<char>,
    record_type: Seq<char>,
    name: Seq<char>,
    desired: Seq<Seq<char>>,
    replace_conflicting: bool,
    existing: Seq<RecordView>,
    segments: Seq<Seq<ReplyView>>,
    j: int,
    id: Seq<char>,
)
    requires
        SetRunView::started(
            domain,
            record_type,
            name,
            desired,
            replace_conflicting,
            existing,
        ).answered_by(segments),
        0 <= j < segments.len(),
        ({
            let start = SetRunView::started(
                domain,
                record_type,
                name,
                desired,
                replace_conflicting,
                existing,
            );
            action_removed(start, start.plan[j], segments[j], id)
        }),
    ensures
        replace_conflicting,
        listed_conflict(segments.flatten(), record_type, id),
{
    let start = SetRunView::started(
        domain,
        record_type,
        name,
        desired,
        replace_conflicting,
        existing,
    );
    let replies = segments[j];
    let conflicts = action_conflicts(start, start.plan[j], replies);
    let n = choose|n: int|
        #![trigger conflicts[n]]
        0 <= n < conflicts.len() && conflicts[n].record_id == Some(id);
    let record = conflicts[n];
    lemma_conflicts_are_listed(record_type, replies[1]->records, n);
    lemma_reply_in_flatten(segments, j, 1);
    segments.lemma_flatten_and_flatten_alt_are_equivalent();
    let all = segments.flatten();
    let k = choose|k: int| 0 <= k < all.len() && all[k] == replies[1];
    assert(all[k] matches ReplyView::Listed { records, .. } && records.contains(record));
    assert(was_listed(all, record));
}

} // verus!
