//! What a run asks for and reports, in terms of what it was given.

use vstd::prelude::*;
use vstd::string::*;
use vstd::utf8::*;

use crate::api::{
    error_of, ids_before, lemma_ids_before_grows, lemma_ids_before_step,
    lemma_ids_before_tells_apart, CallView, RecordView, ReplyView,
};
use crate::delete::{law_delete_run_calls, law_delete_run_outcomes, DeleteRun, DeleteRunView};
use crate::endpoint::{path_segment, Method};
use crate::endpoint_laws::{law_calls_reach_their_records, request_method, request_path};
use crate::outcome::{OutcomeView, SetOutcome};
use crate::plan::{set_plan, SetAction, SetActionView};
use crate::set::{all_have_ids, delete_detail, ids_of, SetRun, SetRunView};
use crate::set_laws::lemma_clean_run;
use crate::write::{write_after, write_pending, WriteState, WriteStateView, WriteView};
use crate::write_laws::{
    law_conflicts_by_type, law_write_outcomes, law_write_reports_its_end,
    law_write_reports_removals, met_conflicts,
};

verus! {

/// Existing records can be set over exactly if none of them came without an id. Their types, their
/// values and how many they are do not matter.
pub proof fn law_set_needs_ids_and_nothing_else(records: Seq<RecordView>, others: Seq<RecordView>)
    ensures
        all_have_ids(records) <==> !(exists|i: int|
            #![trigger records[i]]
            0 <= i < records.len() && records[i].record_id is None),
        records.len() == others.len() && (forall|i: int|
            #![trigger records[i]]
            0 <= i < records.len() ==> records[i].record_id == others[i].record_id) ==> (
        all_have_ids(records) <==> all_have_ids(others)) && ids_of(records) == ids_of(others),
{
    if records.len() == others.len() && (forall|i: int|
        #![trigger records[i]]
        0 <= i < records.len() ==> records[i].record_id == others[i].record_id) {
        assert forall|i: int| 0 <= i < others.len() implies (#[trigger] others[i]).record_id
            == records[i].record_id by {
            let record = records[i];
        }
        assert(ids_of(records) =~= ids_of(others));
    }
}

/// The ids of the existing records are theirs, one for each and in their order.
pub proof fn law_ids_are_those_of_the_records(records: Seq<RecordView>)
    requires
        all_have_ids(records),
    ensures
        ids_of(records).len() == records.len(),
        forall|i: int|
            #![trigger records[i]]
            0 <= i < records.len() ==> records[i].record_id == Some(ids_of(records)[i]),
{
}

/// The plan takes the ids and the values in order, one action for each place: an id with a value is
/// replaced by that value, an id without one is deleted, and a value without an id is created.
pub proof fn law_plan_takes_both_sides_in_order(
    existing: Seq<Seq<char>>,
    desired: Seq<Seq<char>>,
    i: int,
)
    ensures
        ({
            let plan = set_plan(existing, desired);
            &&& plan.len() == existing.len() || plan.len() == desired.len()
            &&& existing.len() <= plan.len() && desired.len() <= plan.len()
            &&& 0 <= i < existing.len() && i < desired.len() ==> plan[i] == (
            SetActionView::Replace { record_id: existing[i], data: desired[i] })
            &&& desired.len() <= i < existing.len() ==> plan[i] == (SetActionView::Delete {
                record_id: existing[i],
            })
            &&& existing.len() <= i < desired.len() ==> plan[i] == (SetActionView::Create {
                data: desired[i],
            })
        }),
{
}

/// A deleted record is reported by the given type and its value, those of the first existing record
/// with its id; an id that no existing record has is reported itself.
pub proof fn law_deleted_records_are_described(
    record_type: Seq<char>,
    existing: Seq<RecordView>,
    record_id: Seq<char>,
    i: int,
)
    ensures
        0 <= i < existing.len() && existing[i].record_id == Some(record_id) && (forall|j: int|
            #![trigger existing[j]]
            0 <= j < i ==> existing[j].record_id != Some(record_id)) ==> delete_detail(
            record_type,
            existing,
            record_id,
        ) == record_type + " "@ + existing[i].data,
        (forall|j: int|
            #![trigger existing[j]]
            0 <= j < existing.len() ==> existing[j].record_id != Some(record_id)) ==> delete_detail(
            record_type,
            existing,
            record_id,
        ) == record_id,
    decreases existing.len(),
{
    if existing.len() > 0 && existing[0].record_id != Some(record_id) {
        let rest = existing.drop_first();
        law_deleted_records_are_described(record_type, rest, record_id, i - 1);
        assert(forall|j: int|
            #![trigger rest[j]]
            0 <= j < rest.len() ==> rest[j] == existing[j + 1]);
        if 0 < i < existing.len() {
            assert(rest[i - 1] == existing[i]);
        }
    }
}

/// A run starts with what it was asked for, and each of its writes goes by that.
pub proof fn law_set_run_goes_by_what_it_was_given(
    domain: Seq<char>,
    record_type: Seq<char>,
    name: Seq<char>,
    desired: Seq<Seq<char>>,
    replace_conflicting: bool,
    existing: Seq<RecordView>,
    data: Seq<char>,
    record_id: Option<Seq<char>>,
)
    ensures
        ({
            let start = SetRunView::started(
                domain,
                record_type,
                name,
                desired,
                replace_conflicting,
                existing,
            );
            let write = start.write_for(data, record_id);
            &&& start.domain == domain
            &&& start.record_type == record_type
            &&& start.name == name
            &&& start.replace_conflicting == replace_conflicting
            &&& start.existing == existing
            &&& start.plan == set_plan(ids_of(existing), desired)
            &&& start.position == 0
            &&& start.write is Sending
            &&& start.outcomes.len() == 0
            &&& write.domain == domain
            &&& write.record_type == record_type
            &&& write.name == name
            &&& write.replace_conflicting == replace_conflicting
            &&& write.value == data
            &&& write.record_id == record_id
        }),
{
}

/// A run of `dns set` takes its actions in turn, whatever became of the earlier ones. A deletion is
/// one call for the record, and any answer to it ends the action with one outcome. A write asks for
/// what it asks for on its own, with what the run was given, and when it ends its outcomes are added
/// to those of the run. After the last action nothing is asked for.
pub proof fn law_set_run_takes_actions_in_turn(run: SetRunView, reply: ReplyView)
    ensures
        ({
            let after = run.after(reply);
            &&& after.domain == run.domain
            &&& after.record_type == run.record_type
            &&& after.name == run.name
            &&& after.replace_conflicting == run.replace_conflicting
            &&& after.existing == run.existing
            &&& after.plan == run.plan
            &&& run.position >= run.plan.len() ==> run.pending() is None && after == run
            &&& run.position < run.plan.len() ==> match run.plan[run.position as int] {
                SetActionView::Delete { record_id } => {
                    &&& run.pending() == Some(
                        CallView::Delete { zone: run.domain, record_id, conflict: false },
                    )
                    &&& !(reply is Listed) ==> {
                        &&& after.position == run.position + 1
                        &&& after.write is Sending
                        &&& after.outcomes == run.outcomes.push(
                            OutcomeView {
                                kind: "deleted"@,
                                detail: delete_detail(run.record_type, run.existing, record_id),
                                error: match reply {
                                    ReplyView::Rejected { message, .. } => Some(message),
                                    ReplyView::Failed { message } => Some(message),
                                    _ => None,
                                },
                            },
                        )
                    }
                },
                SetActionView::Replace { record_id, data } => runs_write(
                    run,
                    reply,
                    WriteView {
                        domain: run.domain,
                        name: run.name,
                        record_type: run.record_type,
                        value: data,
                        replace_conflicting: run.replace_conflicting,
                        record_id: Some(record_id),
                    },
                ),
                SetActionView::Create { data } => runs_write(
                    run,
                    reply,
                    WriteView {
                        domain: run.domain,
                        name: run.name,
                        record_type: run.record_type,
                        value: data,
                        replace_conflicting: run.replace_conflicting,
                        record_id: None,
                    },
                ),
            }
        }),
{
    if run.position < run.plan.len() {
        if let SetActionView::Delete { record_id } = run.plan[run.position as int] {
            let outcome = OutcomeView {
                kind: "deleted"@,
                detail: delete_detail(run.record_type, run.existing, record_id),
                error: error_of(reply),
            };
            assert(run.outcomes + seq![outcome] =~= run.outcomes.push(outcome));
        }
    }
}

/// Whether a run asks for what a write asks for, and takes a reply as the write does.
pub open spec fn runs_write(run: SetRunView, reply: ReplyView, write: WriteView) -> bool {
    let after = run.after(reply);
    &&& run.pending() == write_pending(write, run.write)
    &&& match write_after(write, run.write, reply) {
        WriteStateView::Done { outcomes } => {
            &&& after.position == run.position + 1
            &&& after.write is Sending
            &&& after.outcomes == run.outcomes + outcomes
        },
        state => {
            &&& after.position == run.position
            &&& after.write == state
            &&& after.outcomes == run.outcomes
        },
    }
}

/// The requests of a run of `dns set` of which every call succeeds, one for each place in order. A
/// record that has a value is put, with that value under the given type and name; a record without
/// one is deleted; a value without a record is posted.
pub proof fn law_clean_set_run_requests(
    domain: Seq<char>,
    record_type: Seq<char>,
    name: Seq<char>,
    desired: Seq<Seq<char>>,
    replace_conflicting: bool,
    existing: Seq<RecordView>,
    replies: Seq<ReplyView>,
    k: int,
)
    requires
        replies.len() == set_plan(ids_of(existing), desired).len(),
        forall|i: int| 0 <= i < replies.len() ==> #[trigger] replies[i] == ReplyView::Succeeded,
        0 <= k < replies.len(),
    ensures
        ({
            let pending = SetRunView::started(
                domain,
                record_type,
                name,
                desired,
                replace_conflicting,
                existing,
            ).after_all(replies.take(k)).pending();
            let ids = ids_of(existing);
            let records = "/v3/domains/zones/"@ + path_segment(encode_utf8(domain))
                + "/dns-records"@;
            &&& pending is Some
            &&& k < ids.len() && k < desired.len() ==> {
                &&& request_method(pending->0) == Method::Put
                &&& request_path(pending->0) == records + "/"@ + path_segment(encode_utf8(ids[k]))
                &&& pending->0 matches CallView::Replace { draft, retry, .. } && draft.data
                    == desired[k] && draft.name == name && draft.record_type == record_type
                    && !retry
            }
            &&& desired.len() <= k < ids.len() ==> {
                &&& request_method(pending->0) == Method::Delete
                &&& request_path(pending->0) == records + "/"@ + path_segment(encode_utf8(ids[k]))
                &&& pending->0 matches CallView::Delete { conflict, .. } && !conflict
            }
            &&& ids.len() <= k < desired.len() ==> {
                &&& request_method(pending->0) == Method::Post
                &&& request_path(pending->0) == records
                &&& pending->0 matches CallView::Create { draft, retry, .. } && draft.data
                    == desired[k] && draft.name == name && draft.record_type == record_type
                    && !retry
            }
        }),
{
    let start = SetRunView::started(
        domain,
        record_type,
        name,
        desired,
        replace_conflicting,
        existing,
    );
    lemma_clean_run(start, replies, k);
    match start.after_all(replies.take(k)).pending() {
        Some(CallView::Replace { zone, record_id, draft, retry }) => {
            law_calls_reach_their_records(zone, record_id, draft, retry);
        },
        Some(CallView::Create { zone, draft, retry }) => {
            law_calls_reach_their_records(zone, zone, draft, retry);
        },
        _ => {},
    }
}

/// The requests of a run of `dns delete`, whatever became of the earlier ones: the record that
/// comes next among those with an id is deleted, in the zone of the domain.
pub proof fn law_delete_run_requests(
    domain: Seq<char>,
    record_type: Seq<char>,
    name: Seq<char>,
    records: Seq<RecordView>,
    replies: Seq<ReplyView>,
    n: int,
)
    requires
        replies.len() == ids_before(records, records.len() as int),
        forall|i: int| 0 <= i < replies.len() ==> !(#[trigger] replies[i] is Listed),
        0 <= n < records.len(),
        records[n].record_id is Some,
    ensures
        ({
            let pending = DeleteRunView::started(domain, record_type, name, records).after_all(
                replies.take(ids_before(records, n) as int),
            ).pending();
            &&& pending is Some
            &&& request_method(pending->0) == Method::Delete
            &&& request_path(pending->0) == "/v3/domains/zones/"@ + path_segment(
                encode_utf8(domain),
            ) + "/dns-records"@ + "/"@ + path_segment(encode_utf8(records[n].record_id->0))
        }),
{
    let k = ids_before(records, n) as int;
    lemma_ids_before_step(records, n);
    lemma_ids_before_grows(records, n + 1, records.len() as int);
    law_delete_run_calls(domain, record_type, name, records, replies, k);
    let pending = DeleteRunView::started(domain, record_type, name, records).after_all(
        replies.take(k),
    ).pending();
    let m = choose|m: int|
        #![trigger records[m]]
        0 <= m < records.len() && ids_before(records, m) == k && (
        records[m].record_id matches Some(record_id) && pending == Some(
            CallView::Delete { zone: domain, record_id, conflict: false },
        ));
    lemma_ids_before_tells_apart(records, m, n);
}

/// What a complete run of `dns delete` reports of each record: its value, and no error exactly if
/// its deletion succeeded. Otherwise the error is the message of the reply, word for word, or, for
/// a record without an id, that it can't be deleted.
pub proof fn law_delete_run_reports_each_record(
    domain: Seq<char>,
    record_type: Seq<char>,
    name: Seq<char>,
    records: Seq<RecordView>,
    replies: Seq<ReplyView>,
    n: int,
)
    requires
        replies.len() == ids_before(records, records.len() as int),
        forall|i: int| 0 <= i < replies.len() ==> !(#[trigger] replies[i] is Listed),
        0 <= n < records.len(),
    ensures
        ({
            let end = DeleteRunView::started(domain, record_type, name, records).after_all(replies);
            let k = ids_before(records, n) as int;
            &&& end.outcomes.len() == records.len()
            &&& end.outcomes[n].0 == records[n].data
            &&& records[n].record_id is None ==> end.outcomes[n].1 is Some
            &&& records[n].record_id is Some ==> k < replies.len() && match replies[k] {
                ReplyView::Succeeded => end.outcomes[n].1 is None,
                ReplyView::Listed { .. } => false,
                ReplyView::Rejected { message, .. } => end.outcomes[n].1 == Some(message),
                ReplyView::Failed { message } => end.outcomes[n].1 == Some(message),
            }
        }),
{
    law_delete_run_outcomes(domain, record_type, name, records, replies);
    lemma_ids_before_step(records, n);
    lemma_ids_before_grows(records, n + 1, records.len() as int);
    if records[n].record_id is Some {
        assert(!(replies[ids_before(records, n) as int] is Listed));
    }
}

/// What a complete run of `dns set` reports of each place, last among the outcomes of its action:
/// that the record was replaced by its value, that it was deleted, described by the given type and
/// its value, or that the value was created. There is no error exactly if the last reply to the
/// action was success; otherwise the error is what came with that reply, word for word.
pub proof fn law_set_run_reports_each_place(
    domain: Seq<char>,
    record_type: Seq<char>,
    name: Seq<char>,
    desired: Seq<Seq<char>>,
    replace_conflicting: bool,
    existing: Seq<RecordView>,
    segments: Seq<Seq<ReplyView>>,
    i: int,
)
    requires
        all_have_ids(existing),
        ids_of(existing).no_duplicates(),
        SetRunView::started(
            domain,
            record_type,
            name,
            desired,
            replace_conflicting,
            existing,
        ).answered_by(segments),
        0 <= i < segments.len(),
    ensures
        ({
            let outcomes = SetRunView::started(
                domain,
                record_type,
                name,
                desired,
                replace_conflicting,
                existing,
            ).all_outcomes(segments)[i];
            let own = outcomes.last();
            &&& outcomes.len() > 0 && segments[i].len() > 0
            &&& i < existing.len() && i < desired.len() ==> own.kind == "replaced"@ && own.detail
                == desired[i]
            &&& desired.len() <= i < existing.len() ==> own.kind == "deleted"@ && own.detail
                == record_type + " "@ + existing[i].data
            &&& existing.len() <= i < desired.len() ==> own.kind == "created"@ && own.detail
                == desired[i]
            &&& match segments[i].last() {
                ReplyView::Succeeded => own.error is None,
                ReplyView::Listed { description, .. } => own.error == Some(description),
                ReplyView::Rejected { message, .. } => own.error == Some(message),
                ReplyView::Failed { message } => own.error == Some(message),
            }
        }),
{
    let start = SetRunView::started(
        domain,
        record_type,
        name,
        desired,
        replace_conflicting,
        existing,
    );
    let replies = segments[i];
    assert(start.answers_action(start.plan[i], replies));
    let ids = ids_of(existing);
    match start.plan[i] {
        SetActionView::Replace { record_id, data } => {
            let write = start.write_for(data, Some(record_id));
            law_write_reports_its_end(write, replies);
            law_write_outcomes(write, replies);
        },
        SetActionView::Create { data } => {
            let write = start.write_for(data, None);
            law_write_reports_its_end(write, replies);
            law_write_outcomes(write, replies);
        },
        SetActionView::Delete { record_id } => {
            law_ids_are_those_of_the_records(existing);
            assert(existing[i].record_id == Some(ids[i]));
            assert forall|j: int|
                #![trigger existing[j]]
                0 <= j < i implies existing[j].record_id != Some(record_id) by {
                assert(existing[j].record_id == Some(ids[j]));
            }
            law_deleted_records_are_described(record_type, existing, record_id, i);
        },
    }
}

/// Where the first attempt at a write meets a duplicate and a record of a conflicting type is
/// listed at the name, it depends on the user alone what comes next. If they allow it, that record
/// is dealt with: it is reported as deleted, with an error or without, and the write is tried once
/// more. If they do not, the write ends with the description of the duplicate, and nothing is
/// deleted.
pub proof fn law_conflicts_are_removed_where_allowed(
    domain: Seq<char>,
    record_type: Seq<char>,
    name: Seq<char>,
    desired: Seq<Seq<char>>,
    replace_conflicting: bool,
    existing: Seq<RecordView>,
    segments: Seq<Seq<ReplyView>>,
    i: int,
    record: RecordView,
)
    requires
        SetRunView::started(
            domain,
            record_type,
            name,
            desired,
            replace_conflicting,
            existing,
        ).answered_by(segments),
        0 <= i < segments.len() && i < desired.len(),
        segments[i].len() > 1,
        segments[i][0] matches ReplyView::Rejected { duplicate, .. } && duplicate,
        segments[i][1] matches ReplyView::Listed { records, .. } && records.contains(record),
        record_type == "CNAME"@ && record.type_ != "CNAME"@ || record_type != "CNAME"@
            && record.type_ == "CNAME"@,
    ensures
        ({
            let outcomes = SetRunView::started(
                domain,
                record_type,
                name,
                desired,
                replace_conflicting,
                existing,
            ).all_outcomes(segments)[i];
            &&& replace_conflicting ==> segments[i].len() > 2 && exists|n: int|
                #![trigger outcomes[n]]
                0 <= n < outcomes.len() - 1 && outcomes[n].kind == "deleted"@ && outcomes[n].detail
                    == record.type_ + " "@ + record.data
            &&& !replace_conflicting ==> segments[i].len() == 2 && outcomes.len() == 1
                && outcomes[0].error == Some(segments[i][1]->description)
        }),
{
    let start = SetRunView::started(
        domain,
        record_type,
        name,
        desired,
        replace_conflicting,
        existing,
    );
    let replies = segments[i];
    let records = replies[1]->records;
    assert(start.answers_action(start.plan[i], replies));
    let write = match start.plan[i] {
        SetActionView::Replace { record_id, data } => start.write_for(data, Some(record_id)),
        SetActionView::Create { data } => start.write_for(data, None),
        SetActionView::Delete { .. } => arbitrary(),
    };
    law_write_outcomes(write, replies);
    law_conflicts_by_type(record_type, records, record);
    if replace_conflicting {
        let conflicts = met_conflicts(write, replies);
        assert(conflicts.contains(record));
        let n = choose|n: int| 0 <= n < conflicts.len() && conflicts[n] == record;
        law_write_reports_removals(write, replies, n);
        let outcomes = start.all_outcomes(segments)[i];
        assert(outcomes[n].kind == "deleted"@);
    }
}

/// The model of an action is all of it.
pub proof fn law_action_model(action: SetAction)
    ensures
        match action {
            SetAction::Replace { record_id, data } => action.deep_view() == (
            SetActionView::Replace { record_id: record_id@, data: data@ }),
            SetAction::Delete { record_id } => action.deep_view() == (SetActionView::Delete {
                record_id: record_id@,
            }),
            SetAction::Create { data } => action.deep_view() == (SetActionView::Create {
                data: data@,
            }),
        },
{
}

/// The model of an outcome is all of it.
pub proof fn law_outcome_model(outcome: SetOutcome)
    ensures
        outcome.deep_view().kind == outcome.kind@,
        outcome.deep_view().detail == outcome.detail@,
        outcome.error is None <==> outcome.deep_view().error is None,
        outcome.error matches Some(error) ==> outcome.deep_view().error == Some(error@),
{
}

/// Whether the models are those of the outcomes, one for each and in order.
pub open spec fn models_outcomes(models: Seq<OutcomeView>, outcomes: Seq<SetOutcome>) -> bool {
    &&& models.len() == outcomes.len()
    &&& forall|i: int|
        #![trigger models[i]]
        0 <= i < models.len() ==> models[i] == outcomes[i].deep_view()
}

/// The model of the state of a write is all of it.
pub proof fn law_write_state_model(state: WriteState)
    ensures
        match state {
            WriteState::Sending => state.deep_view() is Sending,
            WriteState::Listing => state.deep_view() is Listing,
            WriteState::Clearing { conflicts, outcomes } => state.deep_view() matches
                WriteStateView::Clearing { conflicts: records, outcomes: so_far }
                && models_outcomes(so_far, outcomes@) && records.len() == conflicts.len() && (
            forall|i: int| 0 <= i < records.len() ==> #[trigger] records[i]
                == conflicts@[i].deep_view()),
            WriteState::Resending { outcomes } => state.deep_view() matches
                WriteStateView::Resending { outcomes: so_far } && models_outcomes(
                so_far,
                outcomes@,
            ),
            WriteState::Done { outcomes } => state.deep_view() matches WriteStateView::Done {
                outcomes: so_far,
            } && models_outcomes(so_far, outcomes@),
        },
{
}

/// The model of a run of `dns set` is all of it.
pub proof fn law_set_run_model(run: SetRun)
    ensures
        run.deep_view().domain == run.domain@,
        run.deep_view().record_type == run.record_type@,
        run.deep_view().name == run.name@,
        run.deep_view().replace_conflicting == run.replace_conflicting,
        run.deep_view().existing.len() == run.existing.len(),
        forall|i: int|
            0 <= i < run.existing.len() ==> #[trigger] run.deep_view().existing[i]
                == run.existing@[i].deep_view(),
        run.deep_view().plan.len() == run.plan.len(),
        forall|i: int|
            0 <= i < run.plan.len() ==> #[trigger] run.deep_view().plan[i]
                == run.plan@[i].deep_view(),
        run.deep_view().position == run.position,
        run.deep_view().write == run.write.deep_view(),
        models_outcomes(run.deep_view().outcomes, run.outcomes@),
{
}

/// The model of a run of `dns delete` is all of it.
pub proof fn law_delete_run_model(run: DeleteRun)
    ensures
        run.deep_view().domain == run.domain@,
        run.deep_view().record_type == run.record_type@,
        run.deep_view().name == run.name@,
        run.deep_view().records.len() == run.records.len(),
        forall|i: int|
            0 <= i < run.records.len() ==> #[trigger] run.deep_view().records[i]
                == run.records@[i].deep_view(),
        run.deep_view().outcomes.len() == run.outcomes.len(),
        forall|i: int|
            0 <= i < run.outcomes.len() ==> (#[trigger] run.deep_view().outcomes[i]).0
                == run.outcomes@[i].0@,
        forall|i: int|
            0 <= i < run.outcomes.len() ==> (#[trigger] run.deep_view().outcomes[i]).1
                == run.outcomes@[i].1.deep_view(),
{
}

} // verus!
