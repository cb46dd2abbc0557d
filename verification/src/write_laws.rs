//! What holds of a whole write, from the first attempt to the last outcome.

use vstd::prelude::*;

use crate::api::{
    answers, error_of, ids_before, lemma_ids_before_grows, lemma_ids_before_step,
    lemma_ids_before_zero, CallView, RecordView, ReplyView,
};
use crate::outcome::OutcomeView;
use crate::write::{
    clearing, conflicts_among, draft_of, ended, removal_outcome, sending, types_conflict,
    unremovable_text, write_after, write_of, write_outcome, write_pending, WriteCall, WriteRequest,
    WriteStateView, WriteView,
};

verus! {

/// The state of a write after several replies, in order, from its beginning.
pub open spec fn write_run(write: WriteView, replies: Seq<ReplyView>) -> WriteStateView
    decreases replies.len(),
{
    if replies.len() == 0 {
        WriteStateView::Sending
    } else {
        write_after(write, write_run(write, replies.drop_last()), replies.last())
    }
}

/// Whether each reply answers the call that was pending when it came.
pub open spec fn write_replies_answer(write: WriteView, replies: Seq<ReplyView>) -> bool {
    forall|k: int|
        #![trigger replies.take(k)]
        0 <= k < replies.len() ==> {
            let pending = write_pending(write, write_run(write, replies.take(k)));
            pending matches Some(call) && answers(replies[k], call)
        }
}

/// Whether a reply reports a duplicate record.
pub open spec fn reports_duplicate(reply: ReplyView) -> bool {
    reply matches ReplyView::Rejected { duplicate, .. } && duplicate
}

/// The outcomes of removing the conflicting records, where those with an id are deleted in order
/// and `replies` holds the replies to these deletions.
pub open spec fn removals(
    conflicts: Seq<RecordView>,
    replies: Seq<ReplyView>,
) -> Seq<OutcomeView> {
    Seq::new(
        conflicts.len(),
        |i: int|
            removal_outcome(
                conflicts[i],
                if conflicts[i].record_id is Some {
                    error_of(replies[ids_before(conflicts, i) as int])
                } else {
                    Some(unremovable_text())
                },
            ),
    )
}

/// Whether conflicting records are to be removed: the user allows it, and there are some.
pub open spec fn removes_conflicts(write: WriteView, records: Seq<RecordView>) -> bool {
    write.replace_conflicting && conflicts_among(write.record_type, records).len() > 0
}

/// The conflicting records that a write which met the given replies set out to remove.
pub open spec fn met_conflicts(write: WriteView, replies: Seq<ReplyView>) -> Seq<RecordView> {
    if replies.len() > 1 && reports_duplicate(replies[0]) && replies[1] is Listed
        && removes_conflicts(write, replies[1]->records) {
        conflicts_among(write.record_type, replies[1]->records)
    } else {
        Seq::empty()
    }
}

/// The outcomes of a write that met the given replies, the last of which ended it.
pub open spec fn write_result(write: WriteView, replies: Seq<ReplyView>) -> Seq<OutcomeView> {
    if !reports_duplicate(replies[0]) {
        seq![write_outcome(write, error_of(replies[0]))]
    } else {
        match replies[1] {
            ReplyView::Listed { records, description } => if removes_conflicts(write, records) {
                removals(conflicts_among(write.record_type, records), replies.skip(2)).push(
                    write_outcome(write, error_of(replies.last())),
                )
            } else {
                seq![write_outcome(write, Some(description))]
            },
            _ => seq![write_outcome(write, error_of(replies[1]))],
        }
    }
}

/// The number of calls that a write makes when it meets the given replies.
pub open spec fn write_call_count(write: WriteView, replies: Seq<ReplyView>) -> nat {
    if !reports_duplicate(replies[0]) {
        1
    } else {
        match replies[1] {
            ReplyView::Listed { records, .. } => if removes_conflicts(write, records) {
                let conflicts = conflicts_among(write.record_type, records);
                3 + ids_before(conflicts, conflicts.len() as int)
            } else {
                2
            },
            _ => 2,
        }
    }
}

/// The state of a write after the first `k` of the replies. While conflicting records are being
/// deleted, `m` of them have their outcome.
spec fn stage(
    write: WriteView,
    state: WriteStateView,
    replies: Seq<ReplyView>,
    k: int,
    m: int,
) -> bool {
    if k == 0 {
        state == WriteStateView::Sending
    } else if !reports_duplicate(replies[0]) {
        k == 1 && state == ended(write, Seq::empty(), error_of(replies[0]))
    } else if k == 1 {
        state == WriteStateView::Listing
    } else {
        match replies[1] {
            ReplyView::Listed { records, description } => {
                let conflicts = conflicts_among(write.record_type, records);
                let outcomes = removals(conflicts, replies.skip(2));
                let ids = ids_before(conflicts, conflicts.len() as int);
                if !removes_conflicts(write, records) {
                    k == 2 && state == ended(write, Seq::empty(), Some(description))
                } else if k <= 2 + ids {
                    &&& 0 <= m <= conflicts.len()
                    &&& ids_before(conflicts, m) == k - 2
                    &&& m < conflicts.len() ==> conflicts[m].record_id is Some && state
                        == (WriteStateView::Clearing { conflicts, outcomes: outcomes.take(m) })
                    &&& m == conflicts.len() ==> state == (WriteStateView::Resending { outcomes })
                } else {
                    k == 3 + ids && state == ended(write, outcomes, error_of(replies[k - 1]))
                }
            },
            _ => k == 2 && state == ended(write, Seq::empty(), error_of(replies[1])),
        }
    }
}

/// Clearing reports exactly the conflicting records without an id that come next.
proof fn lemma_clearing(conflicts: Seq<RecordView>, replies: Seq<ReplyView>, n: int) -> (m: int)
    requires
        0 <= n <= conflicts.len(),
    ensures
        n <= m <= conflicts.len(),
        ids_before(conflicts, m) == ids_before(conflicts, n),
        m < conflicts.len() ==> conflicts[m].record_id is Some && clearing(
            conflicts,
            removals(conflicts, replies).take(n),
        ) == (WriteStateView::Clearing {
            conflicts,
            outcomes: removals(conflicts, replies).take(m),
        }),
        m == conflicts.len() ==> clearing(conflicts, removals(conflicts, replies).take(n)) == (
        WriteStateView::Resending { outcomes: removals(conflicts, replies) }),
    decreases conflicts.len() - n,
{
    let all = removals(conflicts, replies);
    assert(all.take(n).len() == n);
    if n == conflicts.len() {
        assert(all.take(n) =~= all);
        n
    } else if conflicts[n].record_id is Some {
        n
    } else {
        assert(all.take(n).push(removal_outcome(conflicts[n], Some(unremovable_text())))
            =~= all.take(n + 1));
        lemma_ids_before_step(conflicts, n);
        lemma_clearing(conflicts, replies, n + 1)
    }
}

/// After any number of answers a write stands where [`stage`] says.
proof fn lemma_stage(write: WriteView, replies: Seq<ReplyView>, k: int) -> (m: int)
    requires
        write_replies_answer(write, replies),
        0 <= k <= replies.len(),
    ensures
        stage(write, write_run(write, replies.take(k)), replies, k, m),
    decreases k,
{
    if k == 0 {
        assert(replies.take(0) =~= Seq::empty());
        0
    } else {
        let n = lemma_stage(write, replies, k - 1);
        let state = write_run(write, replies.take(k - 1));
        let reply = replies[k - 1];
        assert(replies.take(k).drop_last() =~= replies.take(k - 1));
        assert(replies.take(k).last() == reply);
        assert(write_pending(write, state) is Some);
        if k >= 2 && reports_duplicate(replies[0]) && replies[1] is Listed && removes_conflicts(
            write,
            replies[1]->records,
        ) {
            let conflicts = conflicts_among(write.record_type, replies[1]->records);
            let deletions = replies.skip(2);
            let all = removals(conflicts, deletions);
            lemma_ids_before_zero(conflicts);
            if k == 2 {
                assert(all.take(0) =~= Seq::empty());
                lemma_clearing(conflicts, deletions, 0)
            } else if n < conflicts.len() && k <= 3 + ids_before(
                conflicts,
                conflicts.len() as int,
            ) {
                assert(deletions[k - 3] == reply);
                assert(all.take(n).len() == n);
                assert(all.take(n).push(removal_outcome(conflicts[n], error_of(reply)))
                    =~= all.take(n + 1));
                lemma_ids_before_step(conflicts, n);
                lemma_ids_before_grows(conflicts, n + 1, conflicts.len() as int);
                lemma_clearing(conflicts, deletions, n + 1)
            } else {
                n
            }
        } else {
            n
        }
    }
}

/// The first of the replies that answer a write answer it too.
pub proof fn lemma_first_replies_answer(write: WriteView, replies: Seq<ReplyView>, k: int)
    requires
        write_replies_answer(write, replies),
        0 <= k <= replies.len(),
    ensures
        write_replies_answer(write, replies.take(k)),
{
    let first = replies.take(k);
    assert forall|i: int| #![trigger first.take(i)] 0 <= i < first.len() implies {
        let pending = write_pending(write, write_run(write, first.take(i)));
        pending matches Some(call) && answers(first[i], call)
    } by {
        assert(first[i] == replies[i]);
        assert(first.take(i) =~= replies.take(i));
    }
}

/// One more reply answers a write if it answers the call that is pending.
pub proof fn lemma_one_more_answer(write: WriteView, replies: Seq<ReplyView>, reply: ReplyView)
    requires
        write_replies_answer(write, replies),
        write_pending(write, write_run(write, replies)) matches Some(call) && answers(reply, call),
    ensures
        write_replies_answer(write, replies.push(reply)),
        write_run(write, replies.push(reply)) == write_after(
            write,
            write_run(write, replies),
            reply,
        ),
{
    let more = replies.push(reply);
    assert(more.drop_last() =~= replies);
    assert forall|k: int| #![trigger more.take(k)] 0 <= k < more.len() implies {
        let pending = write_pending(write, write_run(write, more.take(k)));
        pending matches Some(call) && answers(more[k], call)
    } by {
        if k < replies.len() {
            assert(more.take(k) =~= replies.take(k));
            assert(more[k] == replies[k]);
        } else {
            assert(more.take(k) =~= replies);
        }
    }
}

/// The outcomes of a write that has ended are these: its own outcome, once and last, and before
/// it, where conflicting records were removed for a second attempt, one for each of them in the
/// order in which they were listed. It has made as many calls as that takes and no more, two of
/// them at most to write.
pub proof fn law_write_outcomes(write: WriteView, replies: Seq<ReplyView>)
    requires
        write_replies_answer(write, replies),
        write_run(write, replies) is Done,
    ensures
        write_run(write, replies) == (WriteStateView::Done {
            outcomes: write_result(write, replies),
        }),
        replies.len() == write_call_count(write, replies),
{
    let k = replies.len() as int;
    let m = lemma_stage(write, replies, k);
    assert(replies.take(k) =~= replies);
    assert(Seq::<OutcomeView>::empty().push(write_outcome(write, error_of(replies[0]))) =~= seq![
        write_outcome(write, error_of(replies[0])),
    ]);
    assert(Seq::<OutcomeView>::empty().push(write_outcome(write, error_of(replies[1]))) =~= seq![
        write_outcome(write, error_of(replies[1])),
    ]);
    if let ReplyView::Listed { description, .. } = replies[1] {
        assert(Seq::<OutcomeView>::empty().push(write_outcome(write, Some(description)))
            =~= seq![write_outcome(write, Some(description))]);
    }
}

/// What a write asks for at each point: first to write, then, only after a reported duplicate, for
/// the records at the name, then, only where the user allows it and records do conflict, for the
/// deletion of each conflicting record that has an id, once and in order, and at last to write the
/// same again.
pub proof fn law_write_calls(write: WriteView, replies: Seq<ReplyView>)
    requires
        write_replies_answer(write, replies),
    ensures
        write_pending(write, write_run(write, replies)) matches Some(call) ==> {
            if replies.len() == 0 {
                call == sending(write, false)
            } else {
                &&& reports_duplicate(replies[0])
                &&& if replies.len() == 1 {
                    call == (CallView::ListName { zone: write.domain, draft: draft_of(write) })
                } else {
                    &&& replies[1] is Listed
                    &&& removes_conflicts(write, replies[1]->records)
                    &&& ({
                        let conflicts = conflicts_among(write.record_type, replies[1]->records);
                        let ids = ids_before(conflicts, conflicts.len() as int);
                        if replies.len() - 2 < ids {
                            exists|n: int|
                                #![trigger conflicts[n]]
                                0 <= n < conflicts.len() && ids_before(conflicts, n)
                                    == replies.len() - 2 && (
                                conflicts[n].record_id matches Some(record_id) && call
                                    == (CallView::Delete {
                                    zone: write.domain,
                                    record_id,
                                    conflict: true,
                                }))
                        } else {
                            replies.len() - 2 == ids && call == sending(write, true)
                        }
                    })
                }
            }
        },
{
    let k = replies.len() as int;
    let m = lemma_stage(write, replies, k);
    assert(replies.take(k) =~= replies);
    if k >= 2 && reports_duplicate(replies[0]) {
        if let ReplyView::Listed { records, description } = replies[1] {
            let conflicts = conflicts_among(write.record_type, records);
            if removes_conflicts(write, records) && k <= 2 + ids_before(
                conflicts,
                conflicts.len() as int,
            ) && m < conflicts.len() {
                lemma_ids_before_step(conflicts, m);
                lemma_ids_before_grows(conflicts, m + 1, conflicts.len() as int);
                assert(removals(conflicts, replies.skip(2)).take(m).len() == m);
            }
        }
    }
}

/// A write never gets stuck and always comes to an end: as long as it is not over it asks for a
/// call, and it asks for no more than [`write_call_count`] of them.
pub proof fn law_write_ends(write: WriteView, replies: Seq<ReplyView>)
    requires
        write_replies_answer(write, replies),
    ensures
        write_run(write, replies) is Done || write_pending(
            write,
            write_run(write, replies),
        ) is Some,
        replies.len() > 0 ==> replies.len() <= write_call_count(write, replies),
{
    let k = replies.len() as int;
    let m = lemma_stage(write, replies, k);
    assert(replies.take(k) =~= replies);
    if k >= 2 && replies[1] is Listed {
        let conflicts = conflicts_among(write.record_type, replies[1]->records);
        if 0 <= m < conflicts.len() {
            assert(removals(conflicts, replies.skip(2)).take(m).len() == m);
        }
    }
}

/// A write deletes no record unless the user allows it, and then only records that the API listed
/// at the name and that the record to write cannot stand beside.
pub proof fn law_write_deletes_only_conflicts(write: WriteView, replies: Seq<ReplyView>)
    requires
        write_replies_answer(write, replies),
    ensures
        write_pending(write, write_run(write, replies)) matches Some(
            CallView::Delete { record_id, .. },
        ) ==> {
            &&& write.replace_conflicting
            &&& replies.len() > 1 && replies[1] is Listed
            &&& exists|record: RecordView|
                #![trigger replies[1]->records.contains(record)]
                replies[1]->records.contains(record) && record.record_id == Some(record_id)
                    && types_conflict(write.record_type, record.type_)
        },
{
    law_write_calls(write, replies);
    if let Some(CallView::Delete { zone, record_id, conflict }) = write_pending(
        write,
        write_run(write, replies),
    ) {
        assert(sending(write, false) is Create || sending(write, false) is Replace);
        assert(sending(write, true) is Create || sending(write, true) is Replace);
        let records = replies[1]->records;
        let conflicts = conflicts_among(write.record_type, records);
        let n = choose|n: int|
            #![trigger conflicts[n]]
            0 <= n < conflicts.len() && ids_before(conflicts, n) == replies.len() - 2 && (
            conflicts[n].record_id matches Some(id) && id == record_id);
        lemma_conflicts_are_listed(write.record_type, records, n);
        assert(records.contains(conflicts[n]));
    }
}

/// A conflicting record is one of those at the name, and it does conflict.
pub proof fn lemma_conflicts_are_listed(record_type: Seq<char>, at_name: Seq<RecordView>, n: int)
    requires
        0 <= n < conflicts_among(record_type, at_name).len(),
    ensures
        at_name.contains(conflicts_among(record_type, at_name)[n]),
        types_conflict(record_type, conflicts_among(record_type, at_name)[n].type_),
    decreases at_name.len(),
{
    reveal(Seq::filter);
    let rest = at_name.drop_last();
    if at_name.len() > 0 {
        if n < conflicts_among(record_type, rest).len() {
            lemma_conflicts_are_listed(record_type, rest, n);
            let i = choose|i: int|
                0 <= i < rest.len() && rest[i] == conflicts_among(record_type, rest)[n];
            assert(at_name[i] == rest[i]);
        } else {
            assert(at_name[at_name.len() - 1] == at_name.last());
        }
    }
}

/// Only the second call of a write is answered by records.
pub proof fn lemma_listed_second(write: WriteView, replies: Seq<ReplyView>, k: int)
    requires
        write_replies_answer(write, replies),
        0 <= k < replies.len(),
        replies[k] is Listed,
    ensures
        k == 1,
{
    lemma_first_replies_answer(write, replies, k);
    law_write_calls(write, replies.take(k));
}

/// A record among those at a name stands in the way of another exactly if one of the two types is
/// CNAME and the other is not. So setting a CNAME is in conflict with every record of any other
/// type, and setting any other type with every CNAME, and with nothing else.
pub proof fn law_conflicts_by_type(
    record_type: Seq<char>,
    at_name: Seq<RecordView>,
    record: RecordView,
)
    ensures
        conflicts_among(record_type, at_name).contains(record) <==> at_name.contains(record) && (
        record_type == "CNAME"@ && record.type_ != "CNAME"@ || record_type != "CNAME"@
            && record.type_ == "CNAME"@),
{
    let conflicts = conflicts_among(record_type, at_name);
    let keep = |listed: RecordView| types_conflict(record_type, listed.type_);
    if conflicts.contains(record) {
        let n = choose|n: int| 0 <= n < conflicts.len() && conflicts[n] == record;
        lemma_conflicts_are_listed(record_type, at_name, n);
    }
    if at_name.contains(record) && keep(record) {
        let i = choose|i: int| 0 <= i < at_name.len() && at_name[i] == record;
        at_name.lemma_filter_contains(keep, i);
    }
}

/// The conflicting records come in the order in which they were listed, each as often as it was:
/// listing one record more adds that record at the end, if its type conflicts, and nothing else.
pub proof fn law_conflicts_keep_their_order(
    record_type: Seq<char>,
    at_name: Seq<RecordView>,
    record: RecordView,
)
    ensures
        conflicts_among(record_type, Seq::empty()).len() == 0,
        record_type == "CNAME"@ && record.type_ != "CNAME"@ || record_type != "CNAME"@
            && record.type_ == "CNAME"@ ==> conflicts_among(record_type, at_name.push(record))
            == conflicts_among(record_type, at_name).push(record),
        !(record_type == "CNAME"@ && record.type_ != "CNAME"@ || record_type != "CNAME"@
            && record.type_ == "CNAME"@) ==> conflicts_among(record_type, at_name.push(record))
            == conflicts_among(record_type, at_name),
{
    reveal(Seq::filter);
    assert(at_name.push(record).drop_last() =~= at_name);
}

/// A write sends the value that it is about, under its name and type, to the zone of its domain: as
/// a replacement of the record that it is over, or as a new record if there is none, the second
/// time as the first.
pub proof fn law_write_sends_its_value(write: WriteView, retry: bool)
    ensures
        match sending(write, retry) {
            CallView::Create { zone, draft, retry: again } => {
                &&& write.record_id is None
                &&& zone == write.domain
                &&& draft.name == write.name
                &&& draft.record_type == write.record_type
                &&& draft.data == write.value
                &&& again == retry
            },
            CallView::Replace { zone, record_id, draft, retry: again } => {
                &&& write.record_id == Some(record_id)
                &&& zone == write.domain
                &&& draft.name == write.name
                &&& draft.record_type == write.record_type
                &&& draft.data == write.value
                &&& again == retry
            },
            _ => false,
        },
        draft_of(write).name == write.name,
        draft_of(write).record_type == write.record_type,
        draft_of(write).data == write.value,
{
}

/// The model of a request and a call is all of them.
pub proof fn law_write_model(req: &WriteRequest<'_>, call: &WriteCall<'_>)
    ensures
        write_of(req, call).domain == req.domain@,
        write_of(req, call).name == req.name@,
        write_of(req, call).record_type == req.record_type@,
        write_of(req, call).value == req.value@,
        write_of(req, call).replace_conflicting == req.replace_conflicting,
        call is Create <==> write_of(req, call).record_id is None,
        call matches WriteCall::Replace { record_id } ==> write_of(req, call).record_id == Some(
            record_id@,
        ),
{
}

/// What a write that has ended reports of itself, last of all: what it did, the value that it was
/// about, and no error exactly if the last reply was success. Otherwise the error is the message of
/// that reply, word for word, or, if the last reply was a listing, the description that came with
/// it.
pub proof fn law_write_reports_its_end(write: WriteView, replies: Seq<ReplyView>)
    requires
        write_replies_answer(write, replies),
        write_run(write, replies) is Done,
    ensures
        replies.len() > 0,
        write_run(write, replies) matches WriteStateView::Done { outcomes } && outcomes.len() > 0
            && {
            let own = outcomes.last();
            &&& own.kind == if write.record_id is Some {
                "replaced"@
            } else {
                "created"@
            }
            &&& own.detail == write.value
            &&& match replies.last() {
                ReplyView::Succeeded => own.error is None,
                ReplyView::Listed { description, .. } => own.error == Some(description),
                ReplyView::Rejected { message, .. } => own.error == Some(message),
                ReplyView::Failed { message } => own.error == Some(message),
            }
        },
{
    law_write_outcomes(write, replies);
    let k = replies.len() - 1;
    if replies[k] is Listed {
        lemma_listed_second(write, replies, k);
    }
    if k == 1 {
        let reply = replies[1];
        assert(write_pending(write, write_run(write, replies.take(1))) is Some);
        lemma_first_replies_answer(write, replies, 1);
        law_write_calls(write, replies.take(1));
    }
}

/// What a write that has ended reports before that: one outcome for each conflicting record, in
/// order, by its type and value. A record without an id could not be removed; for any other the
/// error is the message of the reply to its deletion, if that failed.
pub proof fn law_write_reports_removals(write: WriteView, replies: Seq<ReplyView>, n: int)
    requires
        write_replies_answer(write, replies),
        write_run(write, replies) is Done,
        0 <= n < met_conflicts(write, replies).len(),
    ensures
        write_run(write, replies) matches WriteStateView::Done { outcomes } && outcomes.len()
            == met_conflicts(write, replies).len() + 1 && {
            let record = met_conflicts(write, replies)[n];
            let k = ids_before(met_conflicts(write, replies), n) as int + 2;
            &&& outcomes[n].kind == "deleted"@
            &&& outcomes[n].detail == record.type_ + " "@ + record.data
            &&& record.record_id is None ==> outcomes[n].error == Some(
                "the API returned this record without a recordId, so it can't be removed automatically; remove it in the control panel"@,
            )
            &&& record.record_id is Some ==> k < replies.len() - 1 && match replies[k] {
                ReplyView::Succeeded => outcomes[n].error is None,
                ReplyView::Listed { .. } => false,
                ReplyView::Rejected { message, .. } => outcomes[n].error == Some(message),
                ReplyView::Failed { message } => outcomes[n].error == Some(message),
            }
        },
{
    law_write_outcomes(write, replies);
    let conflicts = met_conflicts(write, replies);
    if conflicts[n].record_id is Some {
        let k = ids_before(conflicts, n) as int + 2;
        lemma_ids_before_step(conflicts, n);
        lemma_ids_before_grows(conflicts, n + 1, conflicts.len() as int);
        assert(replies.skip(2)[k - 2] == replies[k]);
        if replies[k] is Listed {
            lemma_listed_second(write, replies, k);
        }
    }
}

} // verus!
