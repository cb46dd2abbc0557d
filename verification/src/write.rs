//! Writing one record, with care for records of another type that stand in its way.
//!
//! DNS allows a CNAME or records of other types at a name, never both. A write that the API
//! refuses for that reason is answered with a description of the conflict, or, where the user
//! opted in, with the deletion of the conflicting records and a second attempt.

use vstd::prelude::*;
use vstd::string::*;

use crate::api::{
    answers, error_of, ApiCall, CallView, DnsRecord, DraftView, RecordDraft, RecordView, Reply,
    ReplyView,
};
use crate::outcome::{OutcomeView, SetOutcome};
use crate::text::same_text;

verus! {

/// Which write to make.
#[derive(Debug)]
pub enum WriteCall<'a> {
    Create,
    Replace { record_id: &'a str },
}

/// Context for one create or replace action of `dns set`.
#[derive(Debug)]
pub struct WriteRequest<'a> {
    pub domain: &'a str,
    pub name: &'a str,
    pub record_type: &'a str,
    pub value: &'a str,
    /// Whether the user allows conflicting records to be deleted.
    pub replace_conflicting: bool,
}

/// The model of a [`WriteRequest`] with its [`WriteCall`]. The record to replace is `None` for a
/// creation.
pub struct WriteView {
    pub domain: Seq<char>,
    pub name: Seq<char>,
    pub record_type: Seq<char>,
    pub value: Seq<char>,
    pub replace_conflicting: bool,
    pub record_id: Option<Seq<char>>,
}

/// The model of a request and a call together.
pub open spec fn write_of(req: &WriteRequest<'_>, call: &WriteCall<'_>) -> WriteView {
    WriteView {
        domain: req.domain@,
        name: req.name@,
        record_type: req.record_type@,
        value: req.value@,
        replace_conflicting: req.replace_conflicting,
        record_id: match call {
            WriteCall::Create => None,
            WriteCall::Replace { record_id } => Some(record_id@),
        },
    }
}

/// Whether records of the two types cannot stand at one name: exactly one of them is a CNAME.
pub open spec fn types_conflict(left: Seq<char>, right: Seq<char>) -> bool {
    (left == "CNAME"@) != (right == "CNAME"@)
}

/// The records among those at a name that a record of the given type cannot stand beside.
pub open spec fn conflicts_among(
    record_type: Seq<char>,
    at_name: Seq<RecordView>,
) -> Seq<RecordView> {
    at_name.filter(|record: RecordView| types_conflict(record_type, record.type_))
}

/// Picks the records at a name that a record of the given type cannot stand beside: any CNAME, or,
/// for a CNAME, any other type.
pub fn conflicting_records(
    record_type: &str,
    at_name: Vec<DnsRecord>,
) -> (conflicts: Vec<DnsRecord>)
    ensures
        conflicts.deep_view() == conflicts_among(record_type@, at_name.deep_view()),
        forall|record: RecordView|
            #![trigger conflicts.deep_view().contains(record)]
            conflicts.deep_view().contains(record) <==> at_name.deep_view().contains(record) && ((
            record_type@ == "CNAME"@) != (record.type_ == "CNAME"@)),
{
    let ghost views = at_name.deep_view();
    let ghost keep = |record: RecordView| types_conflict(record_type@, record.type_);
    let setting_cname = same_text(record_type, "CNAME");
    let mut conflicts: Vec<DnsRecord> = Vec::new();
    proof {
        reveal(Seq::filter);
        assert(conflicts.deep_view() =~= views.take(0).filter(keep));
    }
    for record in iter: at_name
        invariant
            iter.seq() == at_name@,
            views == at_name.deep_view(),
            keep == (|record: RecordView| types_conflict(record_type@, record.type_)),
            setting_cname == (record_type@ == "CNAME"@),
            conflicts.deep_view() == views.take(iter.index()).filter(keep),
    {
        let ghost before = conflicts.deep_view();
        proof {
            reveal(Seq::filter);
            assert(views.take(iter.index() + 1).drop_last() =~= views.take(iter.index()));
            assert(views.take(iter.index() + 1).last() == record.deep_view());
        }
        let is_cname = same_text(record.type_.as_str(), "CNAME");
        if setting_cname != is_cname {
            conflicts.push(record);
            proof {
                assert(conflicts.deep_view() =~= before.push(record.deep_view()));
            }
        }
    }
    proof {
        assert(views.take(at_name.len() as int) =~= views);
        assert forall|record: RecordView|
            #![trigger conflicts.deep_view().contains(record)]
            conflicts.deep_view().contains(record) <==> views.contains(record) && ((record_type@
                == "CNAME"@) != (record.type_ == "CNAME"@)) by {
            if conflicts.deep_view().contains(record) {
                let n = choose|n: int|
                    0 <= n < conflicts.deep_view().len() && conflicts.deep_view()[n] == record;
                views.lemma_filter_contains_rev(keep, record);
                views.lemma_filter_pred(keep, n);
            }
            if views.contains(record) && keep(record) {
                let i = choose|i: int| 0 <= i < views.len() && views[i] == record;
                views.lemma_filter_contains(keep, i);
            }
        }
    }
    conflicts
}

/// The word for what a write does.
pub open spec fn write_kind(write: WriteView) -> Seq<char> {
    if write.record_id is Some {
        "replaced"@
    } else {
        "created"@
    }
}

/// The outcome of a write.
pub open spec fn write_outcome(write: WriteView, error: Option<Seq<char>>) -> OutcomeView {
    OutcomeView { kind: write_kind(write), detail: write.value, error }
}

/// The error reported for a conflicting record that the API listed without an id.
pub open spec fn unremovable_text() -> Seq<char> {
    "the API returned this record without a recordId, so it can't be removed automatically; remove it in the control panel"@
}

/// The outcome of removing a conflicting record.
pub open spec fn removal_outcome(record: RecordView, error: Option<Seq<char>>) -> OutcomeView {
    OutcomeView { kind: "deleted"@, detail: record.type_ + " "@ + record.data, error }
}

/// The record that a write sends.
pub open spec fn draft_of(write: WriteView) -> DraftView {
    DraftView { name: write.name, record_type: write.record_type, data: write.value }
}

/// The call that makes a write.
pub open spec fn sending(write: WriteView, retry: bool) -> CallView {
    let draft = draft_of(write);
    match write.record_id {
        None => CallView::Create { zone: write.domain, draft, retry },
        Some(record_id) => CallView::Replace { zone: write.domain, record_id, draft, retry },
    }
}

/// The record that a write sends.
fn draft_record(req: &WriteRequest<'_>) -> (draft: RecordDraft)
    ensures
        forall|call: &WriteCall<'_>| draft.deep_view() == draft_of(#[trigger] write_of(req, call)),
{
    RecordDraft {
        name: req.name.to_owned(),
        record_type: req.record_type.to_owned(),
        data: req.value.to_owned(),
    }
}

/// The call that makes a write: the same record each time, in the zone of the domain.
pub fn send_write(req: &WriteRequest<'_>, call: &WriteCall<'_>, retry: bool) -> (sent: ApiCall)
    ensures
        sent.deep_view() == sending(write_of(req, call), retry),
{
    let draft = draft_record(req);
    match call {
        WriteCall::Create => ApiCall::Create { zone: req.domain.to_owned(), draft, retry },
        WriteCall::Replace { record_id } => ApiCall::Replace {
            zone: req.domain.to_owned(),
            record_id: (*record_id).to_owned(),
            draft,
            retry,
        },
    }
}

/// How far a write has come.
#[derive(Debug)]
pub enum WriteState {
    /// The first attempt is under way.
    Sending,
    /// The first attempt met a duplicate; the records at the name are being listed.
    Listing,
    /// The conflicting records are being deleted, in order; there is an outcome for each so far.
    Clearing { conflicts: Vec<DnsRecord>, outcomes: Vec<SetOutcome> },
    /// The second attempt is under way.
    Resending { outcomes: Vec<SetOutcome> },
    /// The write is over: the outcomes of the deletions, if any, and then its own.
    Done { outcomes: Vec<SetOutcome> },
}

/// The model of a [`WriteState`].
pub enum WriteStateView {
    Sending,
    Listing,
    Clearing { conflicts: Seq<RecordView>, outcomes: Seq<OutcomeView> },
    Resending { outcomes: Seq<OutcomeView> },
    Done { outcomes: Seq<OutcomeView> },
}

impl DeepView for WriteState {
    type V = WriteStateView;

    open spec fn deep_view(&self) -> WriteStateView {
        match self {
            WriteState::Sending => WriteStateView::Sending,
            WriteState::Listing => WriteStateView::Listing,
            WriteState::Clearing { conflicts, outcomes } => WriteStateView::Clearing {
                conflicts: conflicts.deep_view(),
                outcomes: outcomes.deep_view(),
            },
            WriteState::Resending { outcomes } => WriteStateView::Resending {
                outcomes: outcomes.deep_view(),
            },
            WriteState::Done { outcomes } => WriteStateView::Done {
                outcomes: outcomes.deep_view(),
            },
        }
    }
}

/// The state from which the conflicting records that have no outcome yet are cleared: one without
/// an id is reported at once, one with an id waits for its deletion, and after the last of them
/// comes the second attempt.
pub open spec fn clearing(
    conflicts: Seq<RecordView>,
    outcomes: Seq<OutcomeView>,
) -> WriteStateView
    decreases conflicts.len() - outcomes.len(),
{
    if outcomes.len() >= conflicts.len() {
        WriteStateView::Resending { outcomes }
    } else if conflicts[outcomes.len() as int].record_id is Some {
        WriteStateView::Clearing { conflicts, outcomes }
    } else {
        clearing(
            conflicts,
            outcomes.push(
                removal_outcome(conflicts[outcomes.len() as int], Some(unremovable_text())),
            ),
        )
    }
}

/// The call that a write asks for in a state.
pub open spec fn write_pending(write: WriteView, state: WriteStateView) -> Option<CallView> {
    match state {
        WriteStateView::Sending => Some(sending(write, false)),
        WriteStateView::Listing => Some(
            CallView::ListName { zone: write.domain, draft: draft_of(write) },
        ),
        WriteStateView::Clearing { conflicts, outcomes } => if outcomes.len() < conflicts.len() {
            match conflicts[outcomes.len() as int].record_id {
                Some(record_id) => Some(
                    CallView::Delete { zone: write.domain, record_id, conflict: true },
                ),
                None => None,
            }
        } else {
            None
        },
        WriteStateView::Resending { .. } => Some(sending(write, true)),
        WriteStateView::Done { .. } => None,
    }
}

/// The state after the write has ended with one outcome of its own.
pub open spec fn ended(
    write: WriteView,
    earlier: Seq<OutcomeView>,
    error: Option<Seq<char>>,
) -> WriteStateView {
    WriteStateView::Done { outcomes: earlier.push(write_outcome(write, error)) }
}

/// The state after the answer to the pending call.
pub open spec fn write_answered(
    write: WriteView,
    state: WriteStateView,
    reply: ReplyView,
) -> WriteStateView {
    match state {
        WriteStateView::Sending => if reply matches ReplyView::Rejected { duplicate, .. }
            && duplicate {
            WriteStateView::Listing
        } else {
            ended(write, Seq::empty(), error_of(reply))
        },
        WriteStateView::Listing => match reply {
            ReplyView::Listed { records, description } => {
                let conflicts = conflicts_among(write.record_type, records);
                if write.replace_conflicting && conflicts.len() > 0 {
                    clearing(conflicts, Seq::empty())
                } else {
                    ended(write, Seq::empty(), Some(description))
                }
            },
            _ => ended(write, Seq::empty(), error_of(reply)),
        },
        WriteStateView::Clearing { conflicts, outcomes } => clearing(
            conflicts,
            outcomes.push(removal_outcome(conflicts[outcomes.len() as int], error_of(reply))),
        ),
        WriteStateView::Resending { outcomes } => ended(write, outcomes, error_of(reply)),
        WriteStateView::Done { .. } => state,
    }
}

/// The state after a reply. One that cannot answer the pending call changes nothing.
pub open spec fn write_after(
    write: WriteView,
    state: WriteStateView,
    reply: ReplyView,
) -> WriteStateView {
    match write_pending(write, state) {
        Some(call) => if answers(reply, call) {
            write_answered(write, state, reply)
        } else {
            state
        },
        None => state,
    }
}

/// Writes the record that a conflicting record's outcome is about.
fn removal_detail(record: &DnsRecord) -> (detail: String)
    ensures
        detail@ == record.type_@ + " "@ + record.data@,
{
    let mut detail = record.type_.clone();
    detail.append(" ");
    detail.append(record.data.as_str());
    detail
}

/// Reports the conflicting records without an id that come next, and moves on to the next deletion
/// or, after the last record, to the second attempt.
fn delete_conflicts(conflicts: Vec<DnsRecord>, outcomes: Vec<SetOutcome>) -> (state: WriteState)
    ensures
        state.deep_view() == clearing(conflicts.deep_view(), outcomes.deep_view()),
{
    let mut outcomes = outcomes;
    let ghost goal = clearing(conflicts.deep_view(), outcomes.deep_view());
    while outcomes.len() < conflicts.len() && conflicts[outcomes.len()].record_id.is_none()
        invariant
            goal == clearing(conflicts.deep_view(), outcomes.deep_view()),
        decreases conflicts.len() - outcomes.len(),
    {
        let ghost before = outcomes.deep_view();
        let detail = removal_detail(&conflicts[outcomes.len()]);
        let error =
            "the API returned this record without a recordId, so it can't be removed automatically; remove it in the control panel".to_owned();
        let outcome = SetOutcome::new("deleted", detail, Some(error));
        outcomes.push(outcome);
        proof {
            assert(outcomes.deep_view() =~= before.push(outcome.deep_view()));
        }
    }
    if outcomes.len() < conflicts.len() {
        WriteState::Clearing { conflicts, outcomes }
    } else {
        WriteState::Resending { outcomes }
    }
}

/// The outcome of the write itself.
fn own_outcome(
    req: &WriteRequest<'_>,
    call: &WriteCall<'_>,
    error: Option<String>,
) -> (outcome: SetOutcome)
    ensures
        outcome.deep_view() == write_outcome(write_of(req, call), error.deep_view()),
{
    let kind = match call {
        WriteCall::Create => "created",
        WriteCall::Replace { .. } => "replaced",
    };
    SetOutcome::new(kind, req.value.to_owned(), error)
}

/// Ends the write with one outcome of its own.
fn end_write(
    req: &WriteRequest<'_>,
    call: &WriteCall<'_>,
    earlier: Vec<SetOutcome>,
    error: Option<String>,
) -> (state: WriteState)
    ensures
        state.deep_view() == ended(
            write_of(req, call),
            earlier.deep_view(),
            error.deep_view(),
        ),
{
    let mut outcomes = earlier;
    let ghost before = outcomes.deep_view();
    let outcome = own_outcome(req, call, error);
    outcomes.push(outcome);
    proof {
        assert(outcomes.deep_view() =~= before.push(outcome.deep_view()));
    }
    WriteState::Done { outcomes }
}

/// The call that a write asks for in a state, or none when it is over.
pub fn next_write_call(
    req: &WriteRequest<'_>,
    call: &WriteCall<'_>,
    state: &WriteState,
) -> (next: Option<ApiCall>)
    ensures
        next.deep_view() == write_pending(write_of(req, call), state.deep_view()),
{
    match state {
        WriteState::Sending => Some(send_write(req, call, false)),
        WriteState::Listing => Some(
            ApiCall::ListName { zone: req.domain.to_owned(), draft: draft_record(req) },
        ),
        WriteState::Clearing { conflicts, outcomes } => if outcomes.len() < conflicts.len() {
            match &conflicts[outcomes.len()].record_id {
                Some(record_id) => Some(
                    ApiCall::Delete {
                        zone: req.domain.to_owned(),
                        record_id: record_id.clone(),
                        conflict: true,
                    },
                ),
                None => None,
            }
        } else {
            None
        },
        WriteState::Resending { .. } => Some(send_write(req, call, true)),
        WriteState::Done { .. } => None,
    }
}

/// Applies the reply to the pending call of a create or replace action: a duplicate leads to a
/// listing of the name, and from there, where the user opted in and records do conflict, through
/// their deletion to a single second attempt. A reply that cannot answer the pending call changes
/// nothing.
pub fn write_with_conflict_handling(
    req: &WriteRequest<'_>,
    call: &WriteCall<'_>,
    state: WriteState,
    reply: Reply,
) -> (next: WriteState)
    ensures
        next.deep_view() == write_after(
            write_of(req, call),
            state.deep_view(),
            reply.deep_view(),
        ),
{
    let none: Vec<SetOutcome> = Vec::new();
    proof {
        assert(none.deep_view() =~= Seq::empty());
    }
    match state {
        WriteState::Sending => match reply {
            Reply::Listed { .. } => WriteState::Sending,
            Reply::Rejected { duplicate: true, .. } => WriteState::Listing,
            _ => end_write(req, call, none, reply.into_error()),
        },
        WriteState::Listing => match reply {
            Reply::Succeeded => WriteState::Listing,
            Reply::Listed { records, description } => {
                let conflicts = conflicting_records(req.record_type, records);
                if req.replace_conflicting && conflicts.len() > 0 {
                    delete_conflicts(conflicts, none)
                } else {
                    // Either the user did not opt in, or the duplicate is no cross-type conflict
                    // (an exact duplicate, say): nothing to resolve.
                    end_write(req, call, none, Some(description))
                }
            },
            _ => end_write(req, call, none, reply.into_error()),
        },
        WriteState::Clearing { conflicts, outcomes } => {
            if outcomes.len() >= conflicts.len() || conflicts[outcomes.len()].record_id.is_none() {
                return WriteState::Clearing { conflicts, outcomes };
            }
            match reply {
                Reply::Listed { .. } => WriteState::Clearing { conflicts, outcomes },
                _ => {
                    let mut outcomes = outcomes;
                    let ghost before = outcomes.deep_view();
                    let detail = removal_detail(&conflicts[outcomes.len()]);
                    let outcome = SetOutcome::new("deleted", detail, reply.into_error());
                    outcomes.push(outcome);
                    proof {
                        assert(outcomes.deep_view() =~= before.push(outcome.deep_view()));
                    }
                    delete_conflicts(conflicts, outcomes)
                },
            }
        },
        WriteState::Resending { outcomes } => match reply {
            Reply::Listed { .. } => WriteState::Resending { outcomes },
            _ => end_write(req, call, outcomes, reply.into_error()),
        },
        WriteState::Done { outcomes } => WriteState::Done { outcomes },
    }
}

} // verus!
