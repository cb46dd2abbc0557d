//! What becomes of the records of a zone when `dns delete` runs over it.

use vstd::prelude::*;

use crate::api::{
    answers, error_of, ids_before, lemma_ids_before_grows, lemma_ids_before_step,
    lemma_ids_before_tells_apart, CallView, RecordView, ReplyView,
};
use crate::delete::{
    delete_outcomes, failed_deletions, law_delete_run_calls, law_delete_run_outcomes,
    law_delete_run_success, no_id_text, DeleteRunView,
};
use crate::effect_laws::{records_without, value_of};
use crate::plan::ZoneView;
use crate::zone_laws::apply_call;

verus! {

/// The zone after a run of `dns delete` has met the given replies, where a call has its effect if
/// it succeeds and none if it does not.
pub open spec fn zone_after_delete(
    start: DeleteRunView,
    zone: ZoneView,
    replies: Seq<ReplyView>,
) -> ZoneView
    decreases replies.len(),
{
    if replies.len() == 0 {
        zone
    } else {
        let earlier = replies.drop_last();
        let before = zone_after_delete(start, zone, earlier);
        match start.after_all(earlier).pending() {
            Some(call) => if replies.last() is Succeeded {
                apply_call(before, call)
            } else {
                before
            },
            None => before,
        }
    }
}

/// Whether a record was found with the given id.
pub open spec fn was_found(records: Seq<RecordView>, id: Seq<char>) -> bool {
    exists|n: int| 0 <= n < records.len() && (#[trigger] records[n]).record_id == Some(id)
}

/// Whether the first `k` replies deleted the record with the given id, where the records with an id
/// are deleted in order.
spec fn deleted_early(
    records: Seq<RecordView>,
    replies: Seq<ReplyView>,
    k: int,
    id: Seq<char>,
) -> bool {
    exists|n: int|
        #![trigger records[n]]
        0 <= n < records.len() && records[n].record_id == Some(id) && ids_before(records, n) < k
            && replies[ids_before(records, n) as int] is Succeeded
}

/// After the first `k` replies the records whose deletion succeeded are gone, and nothing else has
/// changed.
proof fn lemma_zone_after_deletions(
    domain: Seq<char>,
    record_type: Seq<char>,
    name: Seq<char>,
    records: Seq<RecordView>,
    zone: ZoneView,
    replies: Seq<ReplyView>,
    k: int,
)
    requires
        replies.len() == ids_before(records, records.len() as int),
        forall|i: int| 0 <= i < replies.len() ==> !(#[trigger] replies[i] is Listed),
        0 <= k <= replies.len(),
    ensures
        zone_after_delete(
            DeleteRunView::started(domain, record_type, name, records),
            zone,
            replies.take(k),
        ) == (ZoneView {
            records: records_without(
                zone.records,
                |id: Seq<char>| deleted_early(records, replies, k, id),
            ),
            ..zone
        }),
    decreases k,
{
    let start = DeleteRunView::started(domain, record_type, name, records);
    let gone = |id: Seq<char>| deleted_early(records, replies, k, id);
    if k == 0 {
        assert(records_without(zone.records, gone) =~= zone.records);
    } else {
        lemma_zone_after_deletions(domain, record_type, name, records, zone, replies, k - 1);
        law_delete_run_calls(domain, record_type, name, records, replies, k - 1);
        assert(replies.take(k).drop_last() =~= replies.take(k - 1));
        assert(replies.take(k).last() == replies[k - 1]);
        let before = zone_after_delete(start, zone, replies.take(k - 1));
        let pending = start.after_all(replies.take(k - 1)).pending();
        let reply = replies[k - 1];
        let gone_before = |id: Seq<char>| deleted_early(records, replies, k - 1, id);
        let n = choose|n: int|
            #![trigger records[n]]
            0 <= n < records.len() && ids_before(records, n) == k - 1 && (
            records[n].record_id matches Some(record_id) && pending == Some(
                CallView::Delete { zone: domain, record_id, conflict: false },
            ));
        let deleted = records[n].record_id->0;
        assert forall|id: Seq<char>| #[trigger] gone(id) <==> gone_before(id) || (id == deleted
            && reply is Succeeded) by {
            if gone(id) && !gone_before(id) {
                let m = choose|m: int|
                    #![trigger records[m]]
                    0 <= m < records.len() && records[m].record_id == Some(id) && ids_before(
                        records,
                        m,
                    ) < k && replies[ids_before(records, m) as int] is Succeeded;
                assert(ids_before(records, m) == k - 1);
                lemma_ids_before_tells_apart(records, m, n);
            }
            if gone_before(id) {
                let m = choose|m: int|
                    #![trigger records[m]]
                    0 <= m < records.len() && records[m].record_id == Some(id) && ids_before(
                        records,
                        m,
                    ) < k - 1 && replies[ids_before(records, m) as int] is Succeeded;
                assert(records[m].record_id == Some(id));
            }
        }
        if reply is Succeeded {
            assert(records_without(zone.records, gone) =~= before.records.remove(deleted));
        } else {
            assert(records_without(zone.records, gone) =~= before.records);
        }
    }
}

/// Whether the deletion of a record found with the given id is reported as done, where `replies`
/// holds the replies to the deletions.
pub open spec fn reported_deleted(
    domain: Seq<char>,
    record_type: Seq<char>,
    name: Seq<char>,
    records: Seq<RecordView>,
    replies: Seq<ReplyView>,
    id: Seq<char>,
) -> bool {
    exists|n: int|
        #![trigger records[n]]
        0 <= n < records.len() && records[n].record_id == Some(id) && delete_outcomes(
            domain,
            record_type,
            name,
            records,
            replies,
        )[n].1 is None
}

/// What a complete run of `dns delete` leaves of each record of the zone, whatever became of the
/// deletions: a record is gone if a record found with its id is reported deleted, and otherwise as
/// it was, so that a record whose deletion failed and one that was not found stay. Nothing is
/// created.
pub proof fn law_delete_run_records(
    domain: Seq<char>,
    record_type: Seq<char>,
    name: Seq<char>,
    records: Seq<RecordView>,
    zone: ZoneView,
    replies: Seq<ReplyView>,
)
    requires
        replies.len() == ids_before(records, records.len() as int),
        forall|i: int| 0 <= i < replies.len() ==> !(#[trigger] replies[i] is Listed),
    ensures
        ({
            let start = DeleteRunView::started(domain, record_type, name, records);
            let end = start.after_all(replies);
            let after = zone_after_delete(start, zone, replies);
            &&& end.pending() is None
            &&& end.outcomes == delete_outcomes(domain, record_type, name, records, replies)
            &&& forall|n: int|
                #![trigger records[n]]
                0 <= n < records.len() && end.outcomes[n].1 is None ==> (
                records[n].record_id matches Some(id) && value_of(after.records, id) is None)
            &&& forall|id: Seq<char>|
                #![trigger value_of(after.records, id)]
                value_of(after.records, id) == if reported_deleted(
                    domain,
                    record_type,
                    name,
                    records,
                    replies,
                    id,
                ) {
                    None
                } else {
                    value_of(zone.records, id)
                }
            &&& forall|id: Seq<char>|
                #![trigger value_of(after.records, id)]
                !was_found(records, id) ==> value_of(after.records, id) == value_of(
                    zone.records,
                    id,
                )
            &&& after.created == zone.created
        }),
{
    let start = DeleteRunView::started(domain, record_type, name, records);
    let k = replies.len() as int;
    let after = zone_after_delete(start, zone, replies);
    let outcomes = delete_outcomes(domain, record_type, name, records, replies);
    lemma_zone_after_deletions(domain, record_type, name, records, zone, replies, k);
    law_delete_run_calls(domain, record_type, name, records, replies, k);
    law_delete_run_outcomes(domain, record_type, name, records, replies);
    assert(replies.take(k) =~= replies);
    assert forall|n: int|
        #![trigger records[n]]
        0 <= n < records.len() && records[n].record_id is Some implies ids_before(records, n) < k
        && (outcomes[n].1 is None <==> replies[ids_before(records, n) as int] is Succeeded) by {
        lemma_ids_before_step(records, n);
        lemma_ids_before_grows(records, n + 1, records.len() as int);
        assert(!(replies[ids_before(records, n) as int] is Listed));
    }
    assert forall|id: Seq<char>|
        #![trigger value_of(after.records, id)]
        deleted_early(records, replies, k, id) <==> reported_deleted(
            domain,
            record_type,
            name,
            records,
            replies,
            id,
        ) by {
        if deleted_early(records, replies, k, id) {
            let n = choose|n: int|
                #![trigger records[n]]
                0 <= n < records.len() && records[n].record_id == Some(id) && ids_before(records, n)
                    < k && replies[ids_before(records, n) as int] is Succeeded;
            assert(outcomes[n].1 is None);
        }
        if reported_deleted(domain, record_type, name, records, replies, id) {
            let n = choose|n: int|
                #![trigger records[n]]
                0 <= n < records.len() && records[n].record_id == Some(id) && outcomes[n].1 is None;
            assert(deleted_early(records, replies, k, id));
        }
    }
    assert forall|n: int|
        #![trigger records[n]]
        0 <= n < records.len() && outcomes[n].1 is None implies (
    records[n].record_id matches Some(id) && value_of(after.records, id) is None) by {
        let id = records[n].record_id->0;
        assert(reported_deleted(domain, record_type, name, records, replies, id));
        let left = value_of(after.records, id);
    }
}

/// `dns delete` does what it is for: once a run that is reported as a success is over, every record
/// found for the type and name is gone, and every other record of the zone is as it was.
pub proof fn law_reported_deletion_removes_every_record(
    domain: Seq<char>,
    record_type: Seq<char>,
    name: Seq<char>,
    records: Seq<RecordView>,
    zone: ZoneView,
    replies: Seq<ReplyView>,
)
    requires
        replies.len() == ids_before(records, records.len() as int),
        forall|i: int| 0 <= i < replies.len() ==> !(#[trigger] replies[i] is Listed),
        failed_deletions(
            DeleteRunView::started(domain, record_type, name, records).after_all(replies).outcomes,
        ) == 0,
    ensures
        ({
            let start = DeleteRunView::started(domain, record_type, name, records);
            let after = zone_after_delete(start, zone, replies);
            &&& start.after_all(replies).pending() is None
            &&& forall|n: int|
                #![trigger records[n]]
                0 <= n < records.len() ==> (records[n].record_id matches Some(id) && value_of(
                    after.records,
                    id,
                ) is None)
            &&& forall|id: Seq<char>|
                #![trigger value_of(after.records, id)]
                value_of(after.records, id) == if was_found(records, id) {
                    None
                } else {
                    value_of(zone.records, id)
                }
            &&& after.created == zone.created
        }),
{
    let start = DeleteRunView::started(domain, record_type, name, records);
    let after = zone_after_delete(start, zone, replies);
    let outcomes = delete_outcomes(domain, record_type, name, records, replies);
    law_delete_run_records(domain, record_type, name, records, zone, replies);
    law_delete_run_success(domain, record_type, name, records, replies);
    assert forall|n: int|
        #![trigger records[n]]
        0 <= n < records.len() implies outcomes[n].1 is None by {
        lemma_ids_before_step(records, n);
        lemma_ids_before_grows(records, n + 1, records.len() as int);
        assert(replies[ids_before(records, n) as int] is Succeeded);
    }
}

/// Whatever the replies are, and however far it has come, a run of `dns delete` leaves alone every
/// record that was not found for the type and name, and creates nothing.
pub proof fn law_delete_run_leaves_other_records_alone(
    domain: Seq<char>,
    record_type: Seq<char>,
    name: Seq<char>,
    records: Seq<RecordView>,
    zone: ZoneView,
    replies: Seq<ReplyView>,
    id: Seq<char>,
)
    requires
        !was_found(records, id),
    ensures
        ({
            let start = DeleteRunView::started(domain, record_type, name, records);
            let after = zone_after_delete(start, zone, replies);
            &&& value_of(after.records, id) == value_of(zone.records, id)
            &&& after.created == zone.created
        }),
    decreases replies.len(),
{
    if replies.len() > 0 {
        let start = DeleteRunView::started(domain, record_type, name, records);
        let earlier = replies.drop_last();
        law_delete_run_leaves_other_records_alone(
            domain,
            record_type,
            name,
            records,
            zone,
            earlier,
            id,
        );
        lemma_keeps_records(start, earlier);
        lemma_settled_keeps_records(
            DeleteRunView { domain, record_type, name, records, outcomes: Seq::empty() },
        );
        let run = start.after_all(earlier);
        if let Some(CallView::Delete { record_id, .. }) = run.pending() {
            assert(records[run.outcomes.len() as int].record_id == Some(record_id));
        }
    }
}

/// Settling keeps the records that were found.
proof fn lemma_settled_keeps_records(run: DeleteRunView)
    ensures
        run.settled().records == run.records,
    decreases run.records.len() - run.outcomes.len(),
{
    if run.outcomes.len() < run.records.len()
        && run.records[run.outcomes.len() as int].record_id is None {
        lemma_settled_keeps_records(
            run.with_outcome(Some(no_id_text(run.domain, run.record_type, run.name))),
        );
    }
}

/// A run keeps the records that were found.
proof fn lemma_keeps_records(start: DeleteRunView, replies: Seq<ReplyView>)
    ensures
        start.after_all(replies).records == start.records,
    decreases replies.len(),
{
    if replies.len() > 0 {
        lemma_keeps_records(start, replies.drop_last());
        let before = start.after_all(replies.drop_last());
        lemma_settled_keeps_records(before.with_outcome(error_of(replies.last())));
    }
}

/// Whether each reply answers the call that was pending when it came.
pub open spec fn delete_replies_answer(start: DeleteRunView, replies: Seq<ReplyView>) -> bool {
    forall|k: int|
        #![trigger replies.take(k)]
        0 <= k < replies.len() ==> {
            let pending = start.after_all(replies.take(k)).pending();
            pending matches Some(call) && answers(replies[k], call)
        }
}

/// Where each reply answers, a call was pending when it came, and it is no listing.
proof fn lemma_reply_answers(start: DeleteRunView, replies: Seq<ReplyView>, k: int)
    requires
        delete_replies_answer(start, replies),
        0 <= k < replies.len(),
    ensures
        start.after_all(replies.take(k)).pending() is Some,
        !(replies[k] is Listed),
{
    assert(start.after_all(replies.take(k)).pending() is Some);
}

/// Every complete run of `dns delete` has met one reply for each record that has an id, and none of
/// them is a listing.
pub proof fn law_complete_delete_run(
    domain: Seq<char>,
    record_type: Seq<char>,
    name: Seq<char>,
    records: Seq<RecordView>,
    replies: Seq<ReplyView>,
)
    requires
        delete_replies_answer(
            DeleteRunView::started(domain, record_type, name, records),
            replies,
        ),
        DeleteRunView::started(domain, record_type, name, records).after_all(
            replies,
        ).pending() is None,
    ensures
        replies.len() == ids_before(records, records.len() as int),
        forall|i: int| 0 <= i < replies.len() ==> !(#[trigger] replies[i] is Listed),
{
    let start = DeleteRunView::started(domain, record_type, name, records);
    let total = ids_before(records, records.len() as int);
    let k = replies.len() as int;
    assert forall|i: int| 0 <= i < replies.len() implies !(#[trigger] replies[i] is Listed) by {
        lemma_reply_answers(start, replies, i);
    }
    if k <= total {
        let full = Seq::new(
            total,
            |i: int|
                if i < k {
                    replies[i]
                } else {
                    ReplyView::Succeeded
                },
        );
        law_delete_run_calls(domain, record_type, name, records, full, k);
        assert(full.take(k) =~= replies);
    } else {
        let first = replies.take(total as int);
        assert forall|i: int| 0 <= i < first.len() implies !(#[trigger] first[i] is Listed) by {
            assert(first[i] == replies[i]);
        }
        law_delete_run_calls(domain, record_type, name, records, first, total as int);
        assert(first.take(total as int) =~= first);
        lemma_reply_answers(start, replies, total as int);
    }
}

} // verus!
