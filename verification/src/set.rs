//! The `dns set` command: the records for a type and name become exactly the given values.
//!
//! The API has no bulk replace, so a run reconciles record by record. It is not atomic: an action
//! that fails is reported, and the actions after it are still carried out.

use serde_json::Value;
use vstd::prelude::*;
use vstd::string::*;

use crate::api::{error_of, ApiCall, CallView, DnsRecord, RecordView, Reply, ReplyView};
use crate::json::json_of;
use crate::outcome::{
    failure_count, set_failure_text, set_success, summarize_set_outcomes, OutcomeView, SetOutcome,
};
use crate::plan::{plan_set, set_plan, SetAction, SetActionView};
use crate::text::same_text;
use crate::write::{
    next_write_call, write_after, write_of, write_pending, write_with_conflict_handling, WriteCall,
    WriteRequest, WriteState, WriteStateView, WriteView,
};

verus! {

/// Whether the API gave every record an id.
pub open spec fn all_have_ids(records: Seq<RecordView>) -> bool {
    forall|i: int| 0 <= i < records.len() ==> (#[trigger] records[i]).record_id is Some
}

/// The ids of records that all have one, in order.
pub open spec fn ids_of(records: Seq<RecordView>) -> Seq<Seq<char>> {
    records.map_values(|record: RecordView| record.record_id->0)
}

/// The message of a `dns set` that finds a record without an id among the existing ones.
pub open spec fn missing_id_text(
    domain: Seq<char>,
    record_type: Seq<char>,
    name: Seq<char>,
) -> Seq<char> {
    "some existing "@ + record_type + " records for "@ + name
        + " were returned without a recordId, so `set` can't safely replace the full set. Re-run `gddy dns list "@
        + domain + " --type "@ + record_type + " --name "@ + name
        + "` and adjust in the control panel if this persists."@
}

/// The ids of the existing records, in order. Every existing record must have one to be reconciled
/// against: if any lacks it there is a message in place of the ids, rather than a record that
/// would silently be left behind.
pub fn existing_ids(
    domain: &str,
    record_type: &str,
    name: &str,
    existing: &[DnsRecord],
) -> (ids: Result<Vec<String>, String>)
    ensures
        ids is Ok <==> all_have_ids(existing.deep_view()),
        ids is Ok <==> forall|i: int|
            #![trigger existing@[i]]
            0 <= i < existing.len() ==> existing@[i].record_id is Some,
        ids matches Ok(ids) ==> ids.len() == existing.len() && forall|i: int|
            #![trigger existing@[i]]
            0 <= i < existing.len() ==> existing@[i].record_id->0@ == ids@[i]@,
        ids matches Ok(ids) ==> ids.deep_view() == ids_of(existing.deep_view()),
        ids matches Err(message) ==> message@ == missing_id_text(domain@, record_type@, name@),
{
    let ghost views = existing.deep_view();
    let mut ids: Vec<String> = Vec::new();
    for i in 0..existing.len()
        invariant
            views == existing.deep_view(),
            ids.len() == i,
            forall|j: int|
                0 <= j < i ==> (#[trigger] views[j]).record_id == Some(ids@[j]@),
    {
        match &existing[i].record_id {
            Some(id) => ids.push(id.clone()),
            None => {
                let mut message = "some existing ".to_owned();
                message.append(record_type);
                message.append(" records for ");
                message.append(name);
                message.append(
                    " were returned without a recordId, so `set` can't safely replace the full set. Re-run `gddy dns list ",
                );
                message.append(domain);
                message.append(" --type ");
                message.append(record_type);
                message.append(" --name ");
                message.append(name);
                message.append("` and adjust in the control panel if this persists.");
                proof {
                    assert(views[i as int].record_id is None);
                }
                return Err(message);
            },
        }
    }
    proof {
        assert forall|j: int| 0 <= j < ids.len() implies ids.deep_view()[j] == ids_of(views)[j] by {
            assert(views[j].record_id == Some(ids@[j]@));
        }
        assert(ids.deep_view() =~= ids_of(views));
        assert forall|j: int| #![trigger existing@[j]] 0 <= j < existing.len() implies existing@[
            j
        ].record_id is Some && existing@[j].record_id->0@ == ids@[j]@ by {
            assert(views[j] == existing@[j].deep_view());
        }
    }
    Ok(ids)
}

/// How a deleted record is reported: by its type and value, or by its id if it is not among the
/// existing records.
pub open spec fn delete_detail(
    record_type: Seq<char>,
    existing: Seq<RecordView>,
    record_id: Seq<char>,
) -> Seq<char>
    decreases existing.len(),
{
    if existing.len() == 0 {
        record_id
    } else if existing[0].record_id == Some(record_id) {
        record_type + " "@ + existing[0].data
    } else {
        delete_detail(record_type, existing.drop_first(), record_id)
    }
}

/// Reports a deleted record by its type and value, or by its id if it is not among the existing
/// records.
fn describe_deleted(
    record_type: &str,
    existing: &[DnsRecord],
    record_id: &str,
) -> (detail: String)
    ensures
        detail@ == delete_detail(record_type@, existing.deep_view(), record_id@),
{
    let ghost views = existing.deep_view();
    proof {
        assert(views.skip(0) =~= views);
    }
    for i in 0..existing.len()
        invariant
            views == existing.deep_view(),
            delete_detail(record_type@, views, record_id@) == delete_detail(
                record_type@,
                views.skip(i as int),
                record_id@,
            ),
    {
        proof {
            assert(views.skip(i as int)[0] == views[i as int]);
            assert(views.skip(i as int).drop_first() =~= views.skip(i + 1));
        }
        if let Some(id) = &existing[i].record_id {
            if same_text(id.as_str(), record_id) {
                let mut detail = record_type.to_owned();
                detail.append(" ");
                detail.append(existing[i].data.as_str());
                return detail;
            }
        }
    }
    record_id.to_owned()
}

/// A run of `dns set`: the plan, how many of its actions are over, how far the write of the
/// current one has come, and the outcomes so far. It asks for one call at a time and takes the
/// reply to it.
pub struct SetRun {
    pub domain: String,
    pub record_type: String,
    pub name: String,
    pub replace_conflicting: bool,
    pub existing: Vec<DnsRecord>,
    pub plan: Vec<SetAction>,
    pub position: usize,
    pub write: WriteState,
    pub outcomes: Vec<SetOutcome>,
}

/// The model of a [`SetRun`].
pub struct SetRunView {
    pub domain: Seq<char>,
    pub record_type: Seq<char>,
    pub name: Seq<char>,
    pub replace_conflicting: bool,
    pub existing: Seq<RecordView>,
    pub plan: Seq<SetActionView>,
    pub position: nat,
    pub write: WriteStateView,
    pub outcomes: Seq<OutcomeView>,
}

impl DeepView for SetRun {
    type V = SetRunView;

    open spec fn deep_view(&self) -> SetRunView {
        SetRunView {
            domain: self.domain@,
            record_type: self.record_type@,
            name: self.name@,
            replace_conflicting: self.replace_conflicting,
            existing: self.existing.deep_view(),
            plan: self.plan.deep_view(),
            position: self.position as nat,
            write: self.write.deep_view(),
            outcomes: self.outcomes.deep_view(),
        }
    }
}

impl SetRunView {
    /// A run that has just been started.
    pub open spec fn started(
        domain: Seq<char>,
        record_type: Seq<char>,
        name: Seq<char>,
        desired: Seq<Seq<char>>,
        replace_conflicting: bool,
        existing: Seq<RecordView>,
    ) -> SetRunView {
        SetRunView {
            domain,
            record_type,
            name,
            replace_conflicting,
            existing,
            plan: set_plan(ids_of(existing), desired),
            position: 0,
            write: WriteStateView::Sending,
            outcomes: Seq::empty(),
        }
    }

    /// The write of a value, over the record with the given id or as a new record.
    pub open spec fn write_for(self, data: Seq<char>, record_id: Option<Seq<char>>) -> WriteView {
        WriteView {
            domain: self.domain,
            name: self.name,
            record_type: self.record_type,
            value: data,
            replace_conflicting: self.replace_conflicting,
            record_id,
        }
    }

    /// The call that the run asks for, if some action is left.
    pub open spec fn pending(self) -> Option<CallView> {
        if self.position < self.plan.len() {
            match self.plan[self.position as int] {
                SetActionView::Replace { record_id, data } => write_pending(
                    self.write_for(data, Some(record_id)),
                    self.write,
                ),
                SetActionView::Create { data } => write_pending(
                    self.write_for(data, None),
                    self.write,
                ),
                SetActionView::Delete { record_id } => Some(
                    CallView::Delete { zone: self.domain, record_id, conflict: false },
                ),
            }
        } else {
            None
        }
    }

    /// The run after the current action has come to an end with the given outcomes.
    pub open spec fn moved_on(self, outcomes: Seq<OutcomeView>) -> SetRunView {
        SetRunView {
            position: self.position + 1,
            write: WriteStateView::Sending,
            outcomes: self.outcomes + outcomes,
            ..self
        }
    }

    /// The run after a reply to a call of the given write.
    pub open spec fn after_write(self, write: WriteView, reply: ReplyView) -> SetRunView {
        match write_after(write, self.write, reply) {
            WriteStateView::Done { outcomes } => self.moved_on(outcomes),
            state => SetRunView { write: state, ..self },
        }
    }

    /// The run after a reply. One that cannot answer the pending call changes nothing.
    pub open spec fn after(self, reply: ReplyView) -> SetRunView {
        if self.position < self.plan.len() {
            match self.plan[self.position as int] {
                SetActionView::Replace { record_id, data } => self.after_write(
                    self.write_for(data, Some(record_id)),
                    reply,
                ),
                SetActionView::Create { data } => self.after_write(
                    self.write_for(data, None),
                    reply,
                ),
                SetActionView::Delete { record_id } => if reply is Listed {
                    self
                } else {
                    self.moved_on(
                        seq![
                            OutcomeView {
                                kind: "deleted"@,
                                detail: delete_detail(
                                    self.record_type,
                                    self.existing,
                                    record_id,
                                ),
                                error: error_of(reply),
                            },
                        ],
                    )
                },
            }
        } else {
            self
        }
    }
}

impl SetRun {
    /// Starts a run that turns the existing records for the type and name into records with the
    /// values `data`. If some existing record has no id there is a message in place of the run.
    pub fn begin(
        domain: String,
        record_type: String,
        name: String,
        data: &[String],
        replace_conflicting: bool,
        existing: Vec<DnsRecord>,
    ) -> (run: Result<SetRun, String>)
        ensures
            run is Ok <==> all_have_ids(existing.deep_view()),
            run is Ok <==> forall|i: int|
                #![trigger existing@[i]]
                0 <= i < existing.len() ==> existing@[i].record_id is Some,
            run matches Ok(run) ==> run.deep_view() == SetRunView::started(
                domain@,
                record_type@,
                name@,
                data.deep_view(),
                replace_conflicting,
                existing.deep_view(),
            ),
            run matches Err(message) ==> message@ == missing_id_text(domain@, record_type@, name@),
    {
        let records = existing.as_slice();
        proof {
            assert(records.deep_view() =~= existing.deep_view());
        }
        match existing_ids(domain.as_str(), record_type.as_str(), name.as_str(), records) {
            Ok(ids) => {
                let id_slice = ids.as_slice();
                proof {
                    assert(id_slice.deep_view() =~= ids.deep_view());
                }
                let plan = plan_set(id_slice, data);
                let outcomes: Vec<SetOutcome> = Vec::new();
                proof {
                    assert(outcomes.deep_view() =~= Seq::empty());
                }
                Ok(
                    SetRun {
                        domain,
                        record_type,
                        name,
                        replace_conflicting,
                        existing,
                        plan,
                        position: 0,
                        write: WriteState::Sending,
                        outcomes,
                    },
                )
            },
            Err(message) => Err(message),
        }
    }

    /// The write of a value, as the current action makes it.
    fn write_request<'a>(&'a self, value: &'a str) -> (req: WriteRequest<'a>)
        ensures
            write_of(&req, &WriteCall::Create) == self.deep_view().write_for(value@, None),
            forall|record_id: &str|
                write_of(&req, &WriteCall::Replace { record_id })
                    == self.deep_view().write_for(value@, Some(#[trigger] record_id@)),
    {
        WriteRequest {
            domain: self.domain.as_str(),
            name: self.name.as_str(),
            record_type: self.record_type.as_str(),
            value,
            replace_conflicting: self.replace_conflicting,
        }
    }

    /// The call that the run asks for, or none when every action is over.
    pub fn next_call(&self) -> (call: Option<ApiCall>)
        ensures
            call.deep_view() == self.deep_view().pending(),
    {
        if self.position < self.plan.len() {
            match &self.plan[self.position] {
                SetAction::Replace { record_id, data } => {
                    let req = self.write_request(data.as_str());
                    let call = WriteCall::Replace { record_id: record_id.as_str() };
                    next_write_call(&req, &call, &self.write)
                },
                SetAction::Create { data } => {
                    let req = self.write_request(data.as_str());
                    next_write_call(&req, &WriteCall::Create, &self.write)
                },
                SetAction::Delete { record_id } => Some(
                    ApiCall::Delete {
                        zone: self.domain.clone(),
                        record_id: record_id.clone(),
                        conflict: false,
                    },
                ),
            }
        } else {
            None
        }
    }

    /// Takes the new state of the current write; where it is over, moves on to the next action.
    fn settle_write(&mut self, state: WriteState)
        requires
            old(self).position < old(self).plan.len(),
        ensures
            final(self).deep_view() == match state.deep_view() {
                WriteStateView::Done { outcomes } => old(self).deep_view().moved_on(outcomes),
                state => SetRunView { write: state, ..old(self).deep_view() },
            },
    {
        match state {
            WriteState::Done { outcomes } => {
                let mut own = outcomes;
                self.outcomes.append(&mut own);
                self.position = self.position + 1;
                self.write = WriteState::Sending;
                proof {
                    assert(self.outcomes.deep_view() =~= old(self).outcomes.deep_view()
                        + outcomes.deep_view());
                }
            },
            state => {
                self.write = state;
            },
        }
    }

    /// Takes the reply to the pending call. A reply that cannot answer it changes nothing.
    pub fn take_reply(&mut self, reply: Reply)
        ensures
            final(self).deep_view() == old(self).deep_view().after(reply.deep_view()),
    {
        if self.position >= self.plan.len() {
            return ;
        }
        let mut state = WriteState::Sending;
        let ghost before = self.deep_view();
        match &self.plan[self.position] {
            SetAction::Replace { record_id, data } => {
                core::mem::swap(&mut state, &mut self.write);
                let req = self.write_request(data.as_str());
                let call = WriteCall::Replace { record_id: record_id.as_str() };
                let next = write_with_conflict_handling(&req, &call, state, reply);
                self.settle_write(next);
            },
            SetAction::Create { data } => {
                core::mem::swap(&mut state, &mut self.write);
                let req = self.write_request(data.as_str());
                let next = write_with_conflict_handling(&req, &WriteCall::Create, state, reply);
                self.settle_write(next);
            },
            SetAction::Delete { record_id } => {
                match reply {
                    Reply::Listed { .. } => {},
                    _ => {
                        let existing = self.existing.as_slice();
                        let detail = describe_deleted(
                            self.record_type.as_str(),
                            existing,
                            record_id.as_str(),
                        );
                        let outcome = SetOutcome::new("deleted", detail, reply.into_error());
                        self.outcomes.push(outcome);
                        self.position = self.position + 1;
                        self.write = WriteState::Sending;
                        proof {
                            assert(existing.deep_view() =~= before.existing);
                            assert(self.outcomes.deep_view() =~= before.outcomes + seq![
                                outcome.deep_view(),
                            ]);
                        }
                    },
                }
            },
        }
    }

    /// The result of the run, over the outcomes that it has.
    pub fn result(&self) -> (result: Result<Value, String>)
        ensures
            result is Ok <==> failure_count(self.deep_view().outcomes) == 0,
            result matches Ok(value) ==> json_of(value) == set_success(
                self.domain@,
                self.record_type@,
                self.name@,
                self.deep_view().outcomes,
            ),
            result matches Err(message) ==> message@ == set_failure_text(
                self.domain@,
                self.record_type@,
                self.name@,
                self.deep_view().outcomes,
            ),
    {
        let outcomes = self.outcomes.as_slice();
        proof {
            assert(outcomes.deep_view() =~= self.outcomes.deep_view());
        }
        summarize_set_outcomes(
            self.domain.as_str(),
            self.record_type.as_str(),
            self.name.as_str(),
            outcomes,
        )
    }
}

} // verus!
