//! What the actions of `dns set` came to, and the result reported for all of them.

use serde_json::Value;
use vstd::prelude::*;
use vstd::string::*;

use crate::json::{json_of, no_fields, number_value, object_value, set_field, text_value, Json};
use crate::text::{decimal, decimal_text, join_lines, joined, same_text};

verus! {

/// Outcome of one applied `set` reconcile action, for reporting.
#[derive(Debug)]
pub struct SetOutcome {
    /// What was attempted: `"replaced"`, `"created"`, or `"deleted"`.
    pub kind: &'static str,
    /// The value (replaced, created) or the record (deleted) that the action was about.
    pub detail: String,
    /// The message of the failure, if the action failed.
    pub error: Option<String>,
}

/// The model of a [`SetOutcome`].
pub struct OutcomeView {
    pub kind: Seq<char>,
    pub detail: Seq<char>,
    pub error: Option<Seq<char>>,
}

impl DeepView for SetOutcome {
    type V = OutcomeView;

    open spec fn deep_view(&self) -> OutcomeView {
        OutcomeView {
            kind: self.kind@,
            detail: self.detail@,
            error: self.error.deep_view(),
        }
    }
}

impl SetOutcome {
    pub fn new(kind: &'static str, detail: String, error: Option<String>) -> (outcome: Self)
        ensures
            outcome.kind == kind,
            outcome.detail == detail,
            outcome.error == error,
    {
        SetOutcome { kind, detail, error }
    }
}

/// The words for what was attempted differ.
pub proof fn lemma_kinds_differ()
    ensures
        "replaced"@ != "created"@,
        "replaced"@ != "deleted"@,
        "created"@ != "deleted"@,
{
    reveal_strlit("replaced");
    reveal_strlit("created");
    reveal_strlit("deleted");
    assert("replaced"@.len() != "created"@.len());
    assert("replaced"@.len() != "deleted"@.len());
    assert("created"@[0] != "deleted"@[0]);
}

/// Whether an action of the given kind succeeded.
pub open spec fn succeeded_as(kind: Seq<char>) -> spec_fn(OutcomeView) -> bool {
    |outcome: OutcomeView| outcome.error is None && outcome.kind == kind
}

/// How many actions of the given kind succeeded.
pub open spec fn success_count(outcomes: Seq<OutcomeView>, kind: Seq<char>) -> nat {
    outcomes.filter(succeeded_as(kind)).len()
}

/// How many actions failed.
pub open spec fn failure_count(outcomes: Seq<OutcomeView>) -> nat {
    outcomes.filter(|outcome: OutcomeView| outcome.error is Some).len()
}

/// The line of the breakdown about one action.
pub open spec fn outcome_line(outcome: OutcomeView) -> Seq<char> {
    match outcome.error {
        None => "  ✓ "@ + outcome.kind + " "@ + outcome.detail,
        Some(error) => "  ✗ "@ + outcome.kind + " "@ + outcome.detail + " — "@ + error,
    }
}

/// The breakdown: a line for each action, in order.
pub open spec fn breakdown(outcomes: Seq<OutcomeView>) -> Seq<char> {
    joined(outcomes.map_values(|outcome: OutcomeView| outcome_line(outcome)), "\n"@)
}

/// The message of a `dns set` of which some action failed.
pub open spec fn set_failure_text(
    domain: Seq<char>,
    record_type: Seq<char>,
    name: Seq<char>,
    outcomes: Seq<OutcomeView>,
) -> Seq<char> {
    "set for "@ + name + " ("@ + record_type + ") partially failed — "@ + decimal(
        failure_count(outcomes),
    ) + " of "@ + decimal(outcomes.len()) + " action(s):\n"@ + breakdown(outcomes)
        + "\n\nRe-run the original `gddy dns set` command, or `gddy dns list "@ + domain
        + " --type "@ + record_type + " --name "@ + name + "` to review the current state."@
}

/// The result of a `dns set` of which every action succeeded.
pub open spec fn set_success(
    domain: Seq<char>,
    record_type: Seq<char>,
    name: Seq<char>,
    outcomes: Seq<OutcomeView>,
) -> Json {
    Json::Object(
        map![
            "domain"@ => Json::Text(domain),
            "type"@ => Json::Text(record_type),
            "name"@ => Json::Text(name),
            "replaced"@ => Json::Number(success_count(outcomes, "replaced"@) as int),
            "created"@ => Json::Number(success_count(outcomes, "created"@) as int),
            "deleted"@ => Json::Number(success_count(outcomes, "deleted"@) as int),
            "action"@ => Json::Text("set"@),
        ],
    )
}

/// Counts the actions that failed.
fn count_failures(outcomes: &[SetOutcome]) -> (count: usize)
    ensures
        count == failure_count(outcomes.deep_view()),
{
    let ghost views = outcomes.deep_view();
    let ghost keep = |outcome: OutcomeView| outcome.error is Some;
    let mut count: usize = 0;
    for i in 0..outcomes.len()
        invariant
            views == outcomes.deep_view(),
            keep == (|outcome: OutcomeView| outcome.error is Some),
            count == views.take(i as int).filter(keep).len(),
            count <= i,
    {
        if outcomes[i].error.is_some() {
            count = count + 1;
        }
        proof {
            reveal(Seq::filter);
            assert(views.take(i + 1).drop_last() =~= views.take(i as int));
            assert(views.take(i + 1).last() == outcomes[i as int].deep_view());
        }
    }
    proof {
        assert(views.take(outcomes.len() as int) =~= views);
    }
    count
}

/// Counts the actions of one kind that succeeded.
fn count_successes(outcomes: &[SetOutcome], kind: &str) -> (count: usize)
    ensures
        count == success_count(outcomes.deep_view(), kind@),
{
    let ghost views = outcomes.deep_view();
    let mut count: usize = 0;
    for i in 0..outcomes.len()
        invariant
            views == outcomes.deep_view(),
            count == views.take(i as int).filter(succeeded_as(kind@)).len(),
            count <= i,
    {
        if outcomes[i].error.is_none() && same_text(outcomes[i].kind, kind) {
            count = count + 1;
        }
        proof {
            reveal(Seq::filter);
            assert(views.take(i + 1).drop_last() =~= views.take(i as int));
            assert(views.take(i + 1).last() == outcomes[i as int].deep_view());
        }
    }
    proof {
        assert(views.take(outcomes.len() as int) =~= views);
    }
    count
}

/// Writes the line of the breakdown about one action.
fn outcome_line_text(outcome: &SetOutcome) -> (line: String)
    ensures
        line@ == outcome_line(outcome.deep_view()),
{
    match &outcome.error {
        None => {
            let mut line = "  ✓ ".to_owned();
            line.append(outcome.kind);
            line.append(" ");
            line.append(outcome.detail.as_str());
            line
        },
        Some(error) => {
            let mut line = "  ✗ ".to_owned();
            line.append(outcome.kind);
            line.append(" ");
            line.append(outcome.detail.as_str());
            line.append(" — ");
            line.append(error.as_str());
            line
        },
    }
}

/// Writes the breakdown of all actions.
fn breakdown_text(outcomes: &[SetOutcome]) -> (text: String)
    ensures
        text@ == breakdown(outcomes.deep_view()),
{
    let ghost lines_view = outcomes.deep_view().map_values(
        |outcome: OutcomeView| outcome_line(outcome),
    );
    let mut lines: Vec<String> = Vec::new();
    for i in 0..outcomes.len()
        invariant
            lines_view == outcomes.deep_view().map_values(
                |outcome: OutcomeView| outcome_line(outcome),
            ),
            lines.len() == i,
            forall|j: int| 0 <= j < i ==> (#[trigger] lines@[j])@ == lines_view[j],
    {
        lines.push(outcome_line_text(&outcomes[i]));
    }
    proof {
        assert(lines.deep_view() =~= lines_view);
    }
    join_lines(&lines)
}

/// Builds the `set` result from the applied reconcile outcomes: a JSON object with the
/// replaced, created and deleted counts when every action succeeded, or else a message with a
/// per-action breakdown.
pub fn summarize_set_outcomes(
    domain: &str,
    record_type: &str,
    name: &str,
    outcomes: &[SetOutcome],
) -> (result: Result<Value, String>)
    ensures
        result is Ok <==> failure_count(outcomes.deep_view()) == 0,
        result matches Ok(value) ==> json_of(value) == set_success(
            domain@,
            record_type@,
            name@,
            outcomes.deep_view(),
        ),
        result matches Err(message) ==> message@ == set_failure_text(
            domain@,
            record_type@,
            name@,
            outcomes.deep_view(),
        ),
{
    let failed = count_failures(outcomes);
    let replaced = count_successes(outcomes, "replaced");
    let created = count_successes(outcomes, "created");
    let deleted = count_successes(outcomes, "deleted");

    if failed > 0 {
        let mut message = "set for ".to_owned();
        message.append(name);
        message.append(" (");
        message.append(record_type);
        message.append(") partially failed — ");
        message.append(decimal_text(failed).as_str());
        message.append(" of ");
        message.append(decimal_text(outcomes.len()).as_str());
        message.append(" action(s):\n");
        message.append(breakdown_text(outcomes).as_str());
        message.append("\n\nRe-run the original `gddy dns set` command, or `gddy dns list ");
        message.append(domain);
        message.append(" --type ");
        message.append(record_type);
        message.append(" --name ");
        message.append(name);
        message.append("` to review the current state.");
        return Err(message);
    }
    let mut fields = no_fields();
    set_field(&mut fields, "domain", text_value(domain));
    set_field(&mut fields, "type", text_value(record_type));
    set_field(&mut fields, "name", text_value(name));
    set_field(&mut fields, "replaced", number_value(replaced));
    set_field(&mut fields, "created", number_value(created));
    set_field(&mut fields, "deleted", number_value(deleted));
    set_field(&mut fields, "action", text_value("set"));
    Ok(object_value(fields))
}

} // verus!
