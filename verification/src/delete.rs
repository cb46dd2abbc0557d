//! The `dns delete` command: every record found for a type and name is deleted, one at a time.

use serde_json::Value;
use vstd::prelude::*;
use vstd::string::*;

use crate::api::{
    error_of, ids_before, lemma_ids_before_grows, lemma_ids_before_step, lemma_ids_before_zero,
    ApiCall, CallView, DnsRecord, RecordView, Reply, ReplyView,
};
use crate::json::{json_of, no_fields, number_value, object_value, set_field, text_value, Json};
use crate::text::{decimal, decimal_text, join_lines, joined};

verus! {

/// How many deletions failed.
pub open spec fn failed_deletions(outcomes: Seq<(Seq<char>, Option<Seq<char>>)>) -> nat {
    outcomes.filter(|outcome: (Seq<char>, Option<Seq<char>>)| outcome.1 is Some).len()
}

/// The line of the breakdown about one record.
pub open spec fn deletion_line(outcome: (Seq<char>, Option<Seq<char>>)) -> Seq<char> {
    match outcome.1 {
        None => "  ✓ "@ + outcome.0 + " — deleted"@,
        Some(error) => "  ✗ "@ + outcome.0 + " — "@ + error,
    }
}

/// The breakdown: a line for each record, in order.
pub open spec fn deletion_breakdown(outcomes: Seq<(Seq<char>, Option<Seq<char>>)>) -> Seq<char> {
    joined(
        outcomes.map_values(|outcome: (Seq<char>, Option<Seq<char>>)| deletion_line(outcome)),
        "\n"@,
    )
}

/// The message of a `dns delete` of which some deletion failed.
pub open spec fn delete_failure_text(
    domain: Seq<char>,
    record_type: Seq<char>,
    name: Seq<char>,
    outcomes: Seq<(Seq<char>, Option<Seq<char>>)>,
) -> Seq<char> {
    "deleted "@ + decimal((outcomes.len() - failed_deletions(outcomes)) as nat) + " of "@ + decimal(
        outcomes.len(),
    ) + " record(s) for "@ + name + " ("@ + record_type + "); "@ + decimal(
        failed_deletions(outcomes),
    ) + " failed:\n"@ + deletion_breakdown(outcomes) + "\n\nRe-run `gddy dns delete "@ + domain
        + " --type "@ + record_type + " --name "@ + name + "`, or `gddy dns list "@ + domain
        + " --type "@ + record_type + " --name "@ + name + "` to review the current state."@
}

/// The result of a `dns delete` of which every deletion succeeded.
pub open spec fn delete_success(
    domain: Seq<char>,
    record_type: Seq<char>,
    name: Seq<char>,
    deleted: nat,
) -> Json {
    Json::Object(
        map![
            "domain"@ => Json::Text(domain),
            "type"@ => Json::Text(record_type),
            "name"@ => Json::Text(name),
            "deleted"@ => Json::Number(deleted as int),
            "failed"@ => Json::Number(0),
            "action"@ => Json::Text("delete"@),
        ],
    )
}

/// Counts the deletions that failed.
fn count_failed(outcomes: &[(String, Option<String>)]) -> (count: usize)
    ensures
        count == failed_deletions(outcomes.deep_view()),
        count <= outcomes.len(),
{
    let ghost views = outcomes.deep_view();
    let ghost keep = |outcome: (Seq<char>, Option<Seq<char>>)| outcome.1 is Some;
    let mut count: usize = 0;
    for i in 0..outcomes.len()
        invariant
            views == outcomes.deep_view(),
            keep == (|outcome: (Seq<char>, Option<Seq<char>>)| outcome.1 is Some),
            count == views.take(i as int).filter(keep).len(),
            count <= i,
    {
        if outcomes[i].1.is_some() {
            count = count + 1;
        }
        proof {
            reveal(Seq::filter);
            assert(views.take(i + 1).drop_last() =~= views.take(i as int));
            assert(views.take(i + 1).last() == outcomes[i as int].deep_view());
        }
    }
    proof {
        assert(views.take(outcomes.len() as int) =~= views);
    }
    count
}

/// Writes the line of the breakdown about one record.
fn deletion_line_text(value: &str, error: &Option<String>) -> (line: String)
    ensures
        line@ == deletion_line((value@, error.deep_view())),
{
    match error {
        None => {
            let mut line = "  ✓ ".to_owned();
            line.append(value);
            line.append(" — deleted");
            line
        },
        Some(error) => {
            let mut line = "  ✗ ".to_owned();
            line.append(value);
            line.append(" — ");
            line.append(error.as_str());
            line
        },
    }
}

/// Writes the breakdown of all deletions.
fn deletion_breakdown_text(outcomes: &[(String, Option<String>)]) -> (text: String)
    ensures
        text@ == deletion_breakdown(outcomes.deep_view()),
{
    let ghost lines_view = outcomes.deep_view().map_values(
        |outcome: (Seq<char>, Option<Seq<char>>)| deletion_line(outcome),
    );
    let mut lines: Vec<String> = Vec::new();
    for i in 0..outcomes.len()
        invariant
            lines_view == outcomes.deep_view().map_values(
                |outcome: (Seq<char>, Option<Seq<char>>)| deletion_line(outcome),
            ),
            lines.len() == i,
            forall|j: int| 0 <= j < i ==> (#[trigger] lines@[j])@ == lines_view[j],
    {
        lines.push(deletion_line_text(outcomes[i].0.as_str(), &outcomes[i].1));
    }
    proof {
        assert(lines.deep_view() =~= lines_view);
    }
    join_lines(&lines)
}

/// Builds the `delete` result from per-record outcomes (each matched record's value paired with
/// the error of its deletion, if any): a JSON object with the deleted count (0 when nothing
/// matched) if all succeeded, or else a message with a per-record breakdown.
pub fn summarize_delete_outcomes(
    domain: &str,
    record_type: &str,
    name: &str,
    outcomes: &[(String, Option<String>)],
) -> (result: Result<Value, String>)
    ensures
        result is Ok <==> failed_deletions(outcomes.deep_view()) == 0,
        result matches Ok(value) ==> json_of(value) == delete_success(
            domain@,
            record_type@,
            name@,
            outcomes.deep_view().len(),
        ),
        result matches Err(message) ==> message@ == delete_failure_text(
            domain@,
            record_type@,
            name@,
            outcomes.deep_view(),
        ),
{
    let failed = count_failed(outcomes);
    let deleted: usize = outcomes.len() - failed;

    if failed > 0 {
        let mut message = "deleted ".to_owned();
        message.append(decimal_text(deleted).as_str());
        message.append(" of ");
        message.append(decimal_text(outcomes.len()).as_str());
        message.append(" record(s) for ");
        message.append(name);
        message.append(" (");
        message.append(record_type);
        message.append("); ");
        message.append(decimal_text(failed).as_str());
        message.append(" failed:\n");
        message.append(deletion_breakdown_text(outcomes).as_str());
        message.append("\n\nRe-run `gddy dns delete ");
        message.append(domain);
        message.append(" --type ");
        message.append(record_type);
        message.append(" --name ");
        message.append(name);
        message.append("`, or `gddy dns list ");
        message.append(domain);
        message.append(" --type ");
        message.append(record_type);
        message.append(" --name ");
        message.append(name);
        message.append("` to review the current state.");
        return Err(message);
    }
    let mut fields = no_fields();
    set_field(&mut fields, "domain", text_value(domain));
    set_field(&mut fields, "type", text_value(record_type));
    set_field(&mut fields, "name", text_value(name));
    set_field(&mut fields, "deleted", number_value(deleted));
    set_field(&mut fields, "failed", number_value(failed));
    set_field(&mut fields, "action", text_value("delete"));
    Ok(object_value(fields))
}

/// The error reported for a record that the API listed without an id.
pub open spec fn no_id_text(
    domain: Seq<char>,
    record_type: Seq<char>,
    name: Seq<char>,
) -> Seq<char> {
    "the API returned this record without a recordId, so it can't be deleted; re-run `gddy dns list "@
        + domain + " --type "@ + record_type + " --name "@ + name
        + "` and remove it in the control panel if it persists"@
}

/// A run of `dns delete`: the records found, and the outcomes so far, one for each record in
/// order. It asks for one call at a time and takes the reply to it.
pub struct DeleteRun {
    pub domain: String,
    pub record_type: String,
    pub name: String,
    pub records: Vec<DnsRecord>,
    pub outcomes: Vec<(String, Option<String>)>,
}

/// The model of a [`DeleteRun`].
pub struct DeleteRunView {
    pub domain: Seq<char>,
    pub record_type: Seq<char>,
    pub name: Seq<char>,
    pub records: Seq<RecordView>,
    pub outcomes: Seq<(Seq<char>, Option<Seq<char>>)>,
}

impl DeepView for DeleteRun {
    type V = DeleteRunView;

    open spec fn deep_view(&self) -> DeleteRunView {
        DeleteRunView {
            domain: self.domain@,
            record_type: self.record_type@,
            name: self.name@,
            records: self.records.deep_view(),
            outcomes: self.outcomes.deep_view(),
        }
    }
}

impl DeleteRunView {
    /// The run with one more outcome, for the next record.
    pub open spec fn with_outcome(self, error: Option<Seq<char>>) -> DeleteRunView {
        DeleteRunView {
            outcomes: self.outcomes.push((self.records[self.outcomes.len() as int].data, error)),
            ..self
        }
    }

    /// The run after every record without an id that comes next has been reported as failed.
    pub open spec fn settled(self) -> DeleteRunView
        decreases self.records.len() - self.outcomes.len(),
    {
        if self.outcomes.len() < self.records.len()
            && self.records[self.outcomes.len() as int].record_id is None {
            self.with_outcome(
                Some(no_id_text(self.domain, self.record_type, self.name)),
            ).settled()
        } else {
            self
        }
    }

    /// The call that the run asks for: the deletion of the next record, if there is one.
    pub open spec fn pending(self) -> Option<CallView> {
        if self.outcomes.len() < self.records.len() {
            match self.records[self.outcomes.len() as int].record_id {
                Some(record_id) => Some(
                    CallView::Delete { zone: self.domain, record_id, conflict: false },
                ),
                None => None,
            }
        } else {
            None
        }
    }

    /// The run after a reply: an answer to the pending call is the outcome of its record.
    pub open spec fn after(self, reply: ReplyView) -> DeleteRunView {
        if self.pending() is None || reply is Listed {
            self
        } else {
            self.with_outcome(error_of(reply)).settled()
        }
    }
}

impl DeleteRun {
    /// Starts a run over the records found for the type and name.
    pub fn begin(
        domain: String,
        record_type: String,
        name: String,
        records: Vec<DnsRecord>,
    ) -> (run: DeleteRun)
        ensures
            run.deep_view() == DeleteRunView::started(
                domain@,
                record_type@,
                name@,
                records.deep_view(),
            ),
    {
        let mut run = DeleteRun { domain, record_type, name, records, outcomes: Vec::new() };
        proof {
            assert(run.outcomes.deep_view() =~= Seq::empty());
        }
        run.settle();
        run
    }

    /// Adds an outcome for the next record.
    fn push_outcome(&mut self, error: Option<String>)
        requires
            old(self).outcomes.len() < old(self).records.len(),
        ensures
            final(self).deep_view() == old(self).deep_view().with_outcome(error.deep_view()),
            final(self).records == old(self).records,
            final(self).outcomes.len() == old(self).outcomes.len() + 1,
    {
        let data = self.records[self.outcomes.len()].data.clone();
        self.outcomes.push((data, error));
        proof {
            assert(self.outcomes.deep_view() =~= old(self).outcomes.deep_view().push(
                (data@, error.deep_view()),
            ));
        }
    }

    /// Reports every record without an id that comes next as failed.
    fn settle(&mut self)
        ensures
            final(self).deep_view() == old(self).deep_view().settled(),
    {
        while self.outcomes.len() < self.records.len()
            && self.records[self.outcomes.len()].record_id.is_none()
            invariant
                self.deep_view().settled() == old(self).deep_view().settled(),
            decreases self.records.len() - self.outcomes.len(),
        {
            let mut error =
                "the API returned this record without a recordId, so it can't be deleted; re-run `gddy dns list ".to_owned();
            error.append(self.domain.as_str());
            error.append(" --type ");
            error.append(self.record_type.as_str());
            error.append(" --name ");
            error.append(self.name.as_str());
            error.append("` and remove it in the control panel if it persists");
            self.push_outcome(Some(error));
        }
    }

    /// The call that the run asks for, or none when every record has its outcome.
    pub fn next_call(&self) -> (call: Option<ApiCall>)
        ensures
            call.deep_view() == self.deep_view().pending(),
    {
        if self.outcomes.len() < self.records.len() {
            match &self.records[self.outcomes.len()].record_id {
                Some(record_id) => Some(
                    ApiCall::Delete {
                        zone: self.domain.clone(),
                        record_id: record_id.clone(),
                        conflict: false,
                    },
                ),
                None => None,
            }
        } else {
            None
        }
    }

    /// Takes the reply to the pending call. A reply that cannot answer it changes nothing.
    pub fn take_reply(&mut self, reply: Reply)
        ensures
            final(self).deep_view() == old(self).deep_view().after(reply.deep_view()),
    {
        if self.next_call().is_none() {
            return ;
        }
        match reply {
            Reply::Listed { .. } => {},
            _ => {
                self.push_outcome(reply.into_error());
                self.settle();
            },
        }
    }

    /// The result of the run, over the outcomes that it has.
    pub fn result(&self) -> (result: Result<Value, String>)
        ensures
            result is Ok <==> failed_deletions(self.deep_view().outcomes) == 0,
            result matches Ok(value) ==> json_of(value) == delete_success(
                self.domain@,
                self.record_type@,
                self.name@,
                self.deep_view().outcomes.len(),
            ),
            result matches Err(message) ==> message@ == delete_failure_text(
                self.domain@,
                self.record_type@,
                self.name@,
                self.deep_view().outcomes,
            ),
    {
        let outcomes = self.outcomes.as_slice();
        proof {
            assert(outcomes.deep_view() =~= self.outcomes.deep_view());
        }
        summarize_delete_outcomes(
            self.domain.as_str(),
            self.record_type.as_str(),
            self.name.as_str(),
            outcomes,
        )
    }
}

/// The outcome of every record, where the records with an id are deleted in order and `replies`
/// holds the replies to these deletions.
pub open spec fn delete_outcomes(
    domain: Seq<char>,
    record_type: Seq<char>,
    name: Seq<char>,
    records: Seq<RecordView>,
    replies: Seq<ReplyView>,
) -> Seq<(Seq<char>, Option<Seq<char>>)> {
    Seq::new(
        records.len(),
        |i: int|
            (
                records[i].data,
                if records[i].record_id is Some {
                    error_of(replies[ids_before(records, i) as int])
                } else {
                    Some(no_id_text(domain, record_type, name))
                },
            ),
    )
}

impl DeleteRunView {
    /// A run that has just been started.
    pub open spec fn started(
        domain: Seq<char>,
        record_type: Seq<char>,
        name: Seq<char>,
        records: Seq<RecordView>,
    ) -> DeleteRunView {
        (DeleteRunView { domain, record_type, name, records, outcomes: Seq::empty() }).settled()
    }

    /// The run after several replies, in order.
    pub open spec fn after_all(self, replies: Seq<ReplyView>) -> DeleteRunView
        decreases replies.len(),
    {
        if replies.len() == 0 {
            self
        } else {
            self.after_all(replies.drop_last()).after(replies.last())
        }
    }

    /// Whether the run has the first `n` outcomes of `outcomes`, and stands before a record with
    /// an id or at the end.
    spec fn stands_at(self, n: int, outcomes: Seq<(Seq<char>, Option<Seq<char>>)>) -> bool {
        &&& 0 <= n <= self.records.len()
        &&& self.outcomes == outcomes.take(n)
        &&& n < self.records.len() ==> self.records[n].record_id is Some
    }

    /// Settling reports exactly the records without an id that come next.
    proof fn lemma_settled(self, n: int, replies: Seq<ReplyView>) -> (m: int)
        requires
            0 <= n <= self.records.len(),
            self.outcomes == delete_outcomes(
                self.domain,
                self.record_type,
                self.name,
                self.records,
                replies,
            ).take(n),
        ensures
            n <= m,
            self.settled().stands_at(
                m,
                delete_outcomes(self.domain, self.record_type, self.name, self.records, replies),
            ),
            ids_before(self.records, m) == ids_before(self.records, n),
            self.settled().domain == self.domain,
            self.settled().record_type == self.record_type,
            self.settled().name == self.name,
            self.settled().records == self.records,
        decreases self.records.len() - n,
    {
        let all = delete_outcomes(
            self.domain,
            self.record_type,
            self.name,
            self.records,
            replies,
        );
        assert(all.take(n).len() == n);
        if n < self.records.len() && self.records[n].record_id is None {
            let next = self.with_outcome(
                Some(no_id_text(self.domain, self.record_type, self.name)),
            );
            assert(next.outcomes =~= all.take(n + 1));
            lemma_ids_before_step(self.records, n);
            next.lemma_settled(n + 1, replies)
        } else {
            n
        }
    }

    /// After the first `k` replies the run stands before the record that the next one is about.
    proof fn lemma_after_all(
        domain: Seq<char>,
        record_type: Seq<char>,
        name: Seq<char>,
        records: Seq<RecordView>,
        replies: Seq<ReplyView>,
        k: int,
    ) -> (n: int)
        requires
            replies.len() == ids_before(records, records.len() as int),
            forall|i: int| 0 <= i < replies.len() ==> !(#[trigger] replies[i] is Listed),
            0 <= k <= replies.len(),
        ensures
            ({
                let run = DeleteRunView::started(domain, record_type, name, records).after_all(
                    replies.take(k),
                );
                &&& run.domain == domain
                &&& run.record_type == record_type
                &&& run.name == name
                &&& run.records == records
                &&& run.stands_at(
                    n,
                    delete_outcomes(domain, record_type, name, records, replies),
                )
                &&& ids_before(records, n) == k
            }),
        decreases k,
    {
        let all = delete_outcomes(domain, record_type, name, records, replies);
        if k == 0 {
            let start = DeleteRunView {
                domain,
                record_type,
                name,
                records,
                outcomes: Seq::empty(),
            };
            assert(start.outcomes =~= all.take(0));
            assert(replies.take(0) =~= Seq::empty());
            let n = start.lemma_settled(0, replies);
            lemma_ids_before_zero(records);
            n
        } else {
            let n = DeleteRunView::lemma_after_all(
                domain,
                record_type,
                name,
                records,
                replies,
                k - 1,
            );
            let run = DeleteRunView::started(domain, record_type, name, records).after_all(
                replies.take(k - 1),
            );
            assert(replies.take(k).drop_last() =~= replies.take(k - 1));
            assert(replies.take(k).last() == replies[k - 1]);
            if n == records.len() {
                assert(ids_before(records, n) == replies.len());
            }
            assert(run.outcomes.len() == n);
            let next = run.with_outcome(error_of(replies[k - 1]));
            assert(next.outcomes =~= all.take(n + 1));
            lemma_ids_before_step(records, n);
            next.lemma_settled(n + 1, replies)
        }
    }
}

/// A run of `dns delete` asks for the deletion of every record that has an id, once each and in
/// the order in which they were found, whatever the replies are, and for nothing else.
pub proof fn law_delete_run_calls(
    domain: Seq<char>,
    record_type: Seq<char>,
    name: Seq<char>,
    records: Seq<RecordView>,
    replies: Seq<ReplyView>,
    k: int,
)
    requires
        replies.len() == ids_before(records, records.len() as int),
        forall|i: int| 0 <= i < replies.len() ==> !(#[trigger] replies[i] is Listed),
        0 <= k <= replies.len(),
    ensures
        ({
            let pending = DeleteRunView::started(domain, record_type, name, records).after_all(
                replies.take(k),
            ).pending();
            if k < replies.len() {
                exists|n: int|
                    #![trigger records[n]]
                    0 <= n < records.len() && ids_before(records, n) == k && (
                    records[n].record_id matches Some(record_id) && pending == Some(
                        CallView::Delete { zone: domain, record_id, conflict: false },
                    ))
            } else {
                pending is None
            }
        }),
{
    let n = DeleteRunView::lemma_after_all(domain, record_type, name, records, replies, k);
    let run = DeleteRunView::started(domain, record_type, name, records).after_all(replies.take(k));
    assert(run.outcomes.len() == n);
    if k < replies.len() {
        if n < records.len() {
            assert(records[n].record_id is Some);
        } else {
            assert(n == records.len());
        }
    } else if n < records.len() {
        lemma_ids_before_step(records, n);
        lemma_ids_before_grows(records, n + 1, records.len() as int);
    }
}

/// No record is left behind in silence: a complete run of `dns delete` has one outcome for each
/// record found, in order: the error, if any, of its deletion, or, for a record without an id,
/// that it can't be deleted.
pub proof fn law_delete_run_outcomes(
    domain: Seq<char>,
    record_type: Seq<char>,
    name: Seq<char>,
    records: Seq<RecordView>,
    replies: Seq<ReplyView>,
)
    requires
        replies.len() == ids_before(records, records.len() as int),
        forall|i: int| 0 <= i < replies.len() ==> !(#[trigger] replies[i] is Listed),
    ensures
        DeleteRunView::started(domain, record_type, name, records).after_all(replies).outcomes
            == delete_outcomes(domain, record_type, name, records, replies),
{
    let k = replies.len() as int;
    let n = DeleteRunView::lemma_after_all(domain, record_type, name, records, replies, k);
    assert(replies.take(k) =~= replies);
    if n < records.len() {
        lemma_ids_before_step(records, n);
        lemma_ids_before_grows(records, n + 1, records.len() as int);
    }
    let all = delete_outcomes(domain, record_type, name, records, replies);
    assert(all.take(all.len() as int) =~= all);
}

/// Nothing failed exactly if no outcome holds an error.
pub proof fn lemma_none_failed(outcomes: Seq<(Seq<char>, Option<Seq<char>>)>)
    ensures
        failed_deletions(outcomes) == 0 <==> forall|i: int|
            #![trigger outcomes[i]]
            0 <= i < outcomes.len() ==> outcomes[i].1 is None,
    decreases outcomes.len(),
{
    reveal(Seq::filter);
    if outcomes.len() > 0 {
        let rest = outcomes.drop_last();
        lemma_none_failed(rest);
        assert(outcomes.last() == outcomes[outcomes.len() - 1]);
        if failed_deletions(outcomes) == 0 {
            assert forall|i: int|
                #![trigger outcomes[i]]
                0 <= i < outcomes.len() implies outcomes[i].1 is None by {
                if i < rest.len() {
                    assert(rest[i] == outcomes[i]);
                }
            }
        } else if rest.len() > 0 && failed_deletions(rest) > 0 {
            let i = choose|i: int|
                #![trigger rest[i]]
                0 <= i < rest.len() && rest[i].1 is Some;
            assert(outcomes[i] == rest[i]);
        }
    }
}

/// A complete run of `dns delete` is reported as a success exactly if every record found had an id
/// and every deletion succeeded; then as many records are reported deleted as were found, none if
/// none were.
pub proof fn law_delete_run_success(
    domain: Seq<char>,
    record_type: Seq<char>,
    name: Seq<char>,
    records: Seq<RecordView>,
    replies: Seq<ReplyView>,
)
    requires
        replies.len() == ids_before(records, records.len() as int),
        forall|i: int| 0 <= i < replies.len() ==> !(#[trigger] replies[i] is Listed),
    ensures
        ({
            let end = DeleteRunView::started(domain, record_type, name, records).after_all(replies);
            &&& end.outcomes.len() == records.len()
            &&& failed_deletions(end.outcomes) == 0 <==> {
                &&& forall|i: int|
                    #![trigger records[i]]
                    0 <= i < records.len() ==> records[i].record_id is Some
                &&& forall|k: int|
                    #![trigger replies[k]]
                    0 <= k < replies.len() ==> replies[k] is Succeeded
            }
        }),
{
    let outcomes = delete_outcomes(domain, record_type, name, records, replies);
    law_delete_run_outcomes(domain, record_type, name, records, replies);
    lemma_none_failed(outcomes);
    if failed_deletions(outcomes) == 0 {
        assert forall|i: int|
            #![trigger records[i]]
            0 <= i < records.len() implies records[i].record_id is Some by {
            assert(outcomes[i].1 is None);
        }
        assert forall|k: int|
            #![trigger replies[k]]
            0 <= k < replies.len() implies replies[k] is Succeeded by {
            law_delete_run_calls(domain, record_type, name, records, replies, k);
            let n = choose|n: int|
                #![trigger records[n]]
                0 <= n < records.len() && ids_before(records, n) == k
                    && records[n].record_id is Some;
            assert(outcomes[n].1 is None);
        }
    } else {
        let i = choose|i: int|
            #![trigger outcomes[i]]
            0 <= i < outcomes.len() && outcomes[i].1 is Some;
        assert(records[i].data == outcomes[i].0);
        if records[i].record_id is Some {
            lemma_ids_before_step(records, i);
            lemma_ids_before_grows(records, i + 1, records.len() as int);
            assert(!(replies[ids_before(records, i) as int] is Succeeded));
        }
    }
}

} // verus!
