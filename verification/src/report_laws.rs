//! What holds of the messages and tallies that the commands report.

use serde_json::Value;
use vstd::prelude::*;
use vstd::string::*;

use crate::api::{ids_before, RecordView, ReplyView};
use crate::delete::{
    delete_failure_text, delete_success, deletion_breakdown, deletion_line, failed_deletions,
    law_delete_run_success, lemma_none_failed, no_id_text, DeleteRunView,
};
use crate::json::Json;
use crate::list::{all_rows_serialized, row_failure_text};
use crate::outcome::{
    breakdown, failure_count, lemma_kinds_differ, outcome_line, set_failure_text, set_success,
    success_count, OutcomeView,
};
use crate::set::missing_id_text;
use crate::set_laws::known_kinds;
use crate::success_laws::lemma_no_failure;
use crate::text::{
    decimal, holds_text, joined, lemma_holds_text_within, lemma_joined_holds_line,
};
use crate::text_laws::law_joined;

verus! {

/// The command that lists the records for a type and name.
pub open spec fn list_command(
    domain: Seq<char>,
    record_type: Seq<char>,
    name: Seq<char>,
) -> Seq<char> {
    "gddy dns list "@ + domain + " --type "@ + record_type + " --name "@ + name
}

/// The command that deletes the records for a type and name.
pub open spec fn delete_command(
    domain: Seq<char>,
    record_type: Seq<char>,
    name: Seq<char>,
) -> Seq<char> {
    "gddy dns delete "@ + domain + " --type "@ + record_type + " --name "@ + name
}

/// The message of a `dns set` that failed in part has a line on every action, those that succeeded
/// and those that failed.
pub proof fn law_set_failure_reports_every_action(
    domain: Seq<char>,
    record_type: Seq<char>,
    name: Seq<char>,
    outcomes: Seq<OutcomeView>,
    i: int,
)
    requires
        0 <= i < outcomes.len(),
    ensures
        holds_text(
            set_failure_text(domain, record_type, name, outcomes),
            outcome_line(outcomes[i]),
        ),
{
    let lines = outcomes.map_values(|outcome: OutcomeView| outcome_line(outcome));
    lemma_joined_holds_line(lines, "\n"@, i);
    assert(lines[i] == outcome_line(outcomes[i]));
    let before = "set for "@ + name + " ("@ + record_type + ") partially failed — "@ + decimal(
        failure_count(outcomes),
    ) + " of "@ + decimal(outcomes.len()) + " action(s):\n"@;
    let after = "\n\nRe-run the original `gddy dns set` command, or `gddy dns list "@ + domain
        + " --type "@ + record_type + " --name "@ + name + "` to review the current state."@;
    lemma_holds_text_within(before, breakdown(outcomes), after, outcome_line(outcomes[i]));
    assert(set_failure_text(domain, record_type, name, outcomes) =~= before + breakdown(outcomes)
        + after);
}

/// The message of a `dns set` that failed in part holds the complete command that lists what there
/// is now.
pub proof fn law_set_failure_says_how_to_review(
    domain: Seq<char>,
    record_type: Seq<char>,
    name: Seq<char>,
    outcomes: Seq<OutcomeView>,
)
    ensures
        holds_text(
            set_failure_text(domain, record_type, name, outcomes),
            list_command(domain, record_type, name),
        ),
{
    reveal_strlit("\n\nRe-run the original `gddy dns set` command, or `gddy dns list ");
    reveal_strlit("gddy dns list ");
    let hint = "\n\nRe-run the original `gddy dns set` command, or `gddy dns list "@;
    let lead = hint.take(hint.len() - 14);
    assert(hint =~= lead + "gddy dns list "@);
    let before = "set for "@ + name + " ("@ + record_type + ") partially failed — "@ + decimal(
        failure_count(outcomes),
    ) + " of "@ + decimal(outcomes.len()) + " action(s):\n"@ + breakdown(outcomes) + lead;
    let after = "` to review the current state."@;
    assert(set_failure_text(domain, record_type, name, outcomes) =~= before + list_command(
        domain,
        record_type,
        name,
    ) + after);
}

/// Every action is counted once: as failed, or as one that replaced, created or deleted a record.
pub proof fn law_set_counts_add_up(outcomes: Seq<OutcomeView>)
    requires
        known_kinds(outcomes),
    ensures
        failure_count(outcomes) + success_count(outcomes, "replaced"@) + success_count(
            outcomes,
            "created"@,
        ) + success_count(outcomes, "deleted"@) == outcomes.len(),
    decreases outcomes.len(),
{
    reveal(Seq::filter);
    lemma_kinds_differ();
    if outcomes.len() > 0 {
        let rest = outcomes.drop_last();
        assert(known_kinds(rest)) by {
            assert(forall|i: int| 0 <= i < rest.len() ==> rest[i] == #[trigger] outcomes[i]);
        }
        law_set_counts_add_up(rest);
        let last = outcomes[outcomes.len() - 1];
        assert(outcomes.last() == last);
    }
}

/// The message of a `dns delete` that failed in part has a line on every record, those that were
/// deleted and those that were not.
pub proof fn law_delete_failure_reports_every_record(
    domain: Seq<char>,
    record_type: Seq<char>,
    name: Seq<char>,
    outcomes: Seq<(Seq<char>, Option<Seq<char>>)>,
    i: int,
)
    requires
        0 <= i < outcomes.len(),
    ensures
        holds_text(
            delete_failure_text(domain, record_type, name, outcomes),
            deletion_line(outcomes[i]),
        ),
{
    let lines = outcomes.map_values(
        |outcome: (Seq<char>, Option<Seq<char>>)| deletion_line(outcome),
    );
    lemma_joined_holds_line(lines, "\n"@, i);
    assert(lines[i] == deletion_line(outcomes[i]));
    let before = delete_failure_start(record_type, name, outcomes);
    let after = "\n\nRe-run `gddy dns delete "@ + domain + " --type "@ + record_type
        + " --name "@ + name + "`, or `gddy dns list "@ + domain + " --type "@ + record_type
        + " --name "@ + name + "` to review the current state."@;
    lemma_holds_text_within(
        before,
        deletion_breakdown(outcomes),
        after,
        deletion_line(outcomes[i]),
    );
    assert(delete_failure_text(domain, record_type, name, outcomes) =~= before
        + deletion_breakdown(outcomes) + after);
}

/// The message of a `dns delete` that failed in part, up to the breakdown.
spec fn delete_failure_start(
    record_type: Seq<char>,
    name: Seq<char>,
    outcomes: Seq<(Seq<char>, Option<Seq<char>>)>,
) -> Seq<char> {
    "deleted "@ + decimal((outcomes.len() - failed_deletions(outcomes)) as nat) + " of "@ + decimal(
        outcomes.len(),
    ) + " record(s) for "@ + name + " ("@ + record_type + "); "@ + decimal(
        failed_deletions(outcomes),
    ) + " failed:\n"@
}

/// The message of a `dns delete` that failed in part holds the complete command that tries again,
/// and the one that lists what there is now.
pub proof fn law_delete_failure_says_how_to_go_on(
    domain: Seq<char>,
    record_type: Seq<char>,
    name: Seq<char>,
    outcomes: Seq<(Seq<char>, Option<Seq<char>>)>,
)
    ensures
        holds_text(
            delete_failure_text(domain, record_type, name, outcomes),
            delete_command(domain, record_type, name),
        ),
        holds_text(
            delete_failure_text(domain, record_type, name, outcomes),
            list_command(domain, record_type, name),
        ),
{
    reveal_strlit("\n\nRe-run `gddy dns delete ");
    reveal_strlit("gddy dns delete ");
    reveal_strlit("`, or `gddy dns list ");
    reveal_strlit("gddy dns list ");
    let text = delete_failure_text(domain, record_type, name, outcomes);
    let start = delete_failure_start(record_type, name, outcomes) + deletion_breakdown(outcomes);
    let delete_hint = "\n\nRe-run `gddy dns delete "@;
    let delete_lead = delete_hint.take(delete_hint.len() - 16);
    assert(delete_hint =~= delete_lead + "gddy dns delete "@);
    let list_hint = "`, or `gddy dns list "@;
    let list_lead = list_hint.take(list_hint.len() - 14);
    assert(list_hint =~= list_lead + "gddy dns list "@);
    let deletion = delete_command(domain, record_type, name);
    let listing = list_command(domain, record_type, name);
    let end = "` to review the current state."@;
    assert(text =~= (start + delete_lead) + deletion + (list_lead + listing + end));
    assert(text =~= (start + delete_lead + deletion + list_lead) + listing + end);
}

/// A set of actions failed exactly if one of them did, and each that did counts once.
pub proof fn law_failures_are_counted(outcomes: Seq<OutcomeView>, outcome: OutcomeView)
    ensures
        failure_count(Seq::empty()) == 0,
        outcome.error is Some ==> failure_count(outcomes.push(outcome)) == failure_count(outcomes)
            + 1,
        outcome.error is None ==> failure_count(outcomes.push(outcome)) == failure_count(outcomes),
        failure_count(outcomes) == 0 <==> forall|i: int|
            #![trigger outcomes[i]]
            0 <= i < outcomes.len() ==> outcomes[i].error is None,
{
    reveal(Seq::filter);
    let failed = |each: OutcomeView| each.error is Some;
    assert(outcomes.push(outcome).drop_last() =~= outcomes);
    if failure_count(outcomes) == 0 {
        lemma_no_failure(outcomes);
    } else {
        let kept = outcomes.filter(failed);
        outcomes.lemma_filter_pred(failed, 0);
        outcomes.lemma_filter_contains_rev(failed, kept[0]);
        let i = choose|i: int| 0 <= i < outcomes.len() && outcomes[i] == kept[0];
        assert(outcomes[i].error is Some);
    }
}

/// A deletion failed exactly if its outcome holds an error, and each that did counts once.
pub proof fn law_failed_deletions_are_counted(
    outcomes: Seq<(Seq<char>, Option<Seq<char>>)>,
    outcome: (Seq<char>, Option<Seq<char>>),
)
    ensures
        failed_deletions(Seq::empty()) == 0,
        outcome.1 is Some ==> failed_deletions(outcomes.push(outcome)) == failed_deletions(outcomes)
            + 1,
        outcome.1 is None ==> failed_deletions(outcomes.push(outcome)) == failed_deletions(
            outcomes,
        ),
        failed_deletions(outcomes) == 0 <==> forall|i: int|
            #![trigger outcomes[i]]
            0 <= i < outcomes.len() ==> outcomes[i].1 is None,
{
    reveal(Seq::filter);
    assert(outcomes.push(outcome).drop_last() =~= outcomes);
    lemma_none_failed(outcomes);
}

/// The number in a field of a JSON object.
pub open spec fn number_in(value: Json, field: Seq<char>) -> Option<int> {
    match value {
        Json::Object(fields) => if fields.contains_key(field) {
            match fields[field] {
                Json::Number(number) => Some(number),
                _ => None,
            }
        } else {
            None
        },
        _ => None,
    }
}

/// The text in a field of a JSON object.
pub open spec fn text_in(value: Json, field: Seq<char>) -> Option<Seq<char>> {
    match value {
        Json::Object(fields) => if fields.contains_key(field) {
            match fields[field] {
                Json::Text(text) => Some(text),
                _ => None,
            }
        } else {
            None
        },
        _ => None,
    }
}

/// The names of the fields of the results differ.
proof fn lemma_field_names_differ()
    ensures
        "domain"@ != "type"@,
        "domain"@ != "name"@,
        "domain"@ != "replaced"@,
        "domain"@ != "created"@,
        "domain"@ != "deleted"@,
        "domain"@ != "failed"@,
        "domain"@ != "action"@,
        "type"@ != "name"@,
        "type"@ != "replaced"@,
        "type"@ != "created"@,
        "type"@ != "deleted"@,
        "type"@ != "failed"@,
        "type"@ != "action"@,
        "name"@ != "replaced"@,
        "name"@ != "created"@,
        "name"@ != "deleted"@,
        "name"@ != "failed"@,
        "name"@ != "action"@,
        "replaced"@ != "created"@,
        "replaced"@ != "deleted"@,
        "replaced"@ != "action"@,
        "created"@ != "deleted"@,
        "created"@ != "action"@,
        "deleted"@ != "failed"@,
        "deleted"@ != "action"@,
        "failed"@ != "action"@,
{
    reveal_strlit("domain");
    reveal_strlit("type");
    reveal_strlit("name");
    reveal_strlit("replaced");
    reveal_strlit("created");
    reveal_strlit("deleted");
    reveal_strlit("failed");
    reveal_strlit("action");
    assert("domain"@.len() == 6 && "failed"@.len() == 6 && "action"@.len() == 6);
    assert("type"@.len() == 4 && "name"@.len() == 4);
    assert("replaced"@.len() == 8 && "created"@.len() == 7 && "deleted"@.len() == 7);
    assert("domain"@[0] == 'd' && "failed"@[0] == 'f' && "action"@[0] == 'a');
    assert("type"@[0] == 't' && "name"@[0] == 'n');
    assert("created"@[0] == 'c' && "deleted"@[0] == 'd');
}

/// The result of a successful `dns set` names the domain, the type and the name that it was given,
/// and counts what was done: from nothing, each further success counts once under its own kind and
/// under no other, whatever it was about.
pub proof fn law_set_result_counts_each_success(
    domain: Seq<char>,
    record_type: Seq<char>,
    name: Seq<char>,
    outcomes: Seq<OutcomeView>,
    outcome: OutcomeView,
)
    ensures
        ({
            let none = set_success(domain, record_type, name, Seq::empty());
            let before = set_success(domain, record_type, name, outcomes);
            let after = set_success(domain, record_type, name, outcomes.push(outcome));
            &&& text_in(before, "domain"@) == Some(domain)
            &&& text_in(before, "type"@) == Some(record_type)
            &&& text_in(before, "name"@) == Some(name)
            &&& text_in(before, "action"@) == Some("set"@)
            &&& before matches Json::Object(fields) && fields.dom() == set![
                "domain"@,
                "type"@,
                "name"@,
                "replaced"@,
                "created"@,
                "deleted"@,
                "action"@,
            ]
            &&& number_in(none, "replaced"@) == Some(0int)
            &&& number_in(none, "created"@) == Some(0int)
            &&& number_in(none, "deleted"@) == Some(0int)
            &&& forall|kind: Seq<char>|
                #![trigger number_in(after, kind)]
                kind == "replaced"@ || kind == "created"@ || kind == "deleted"@ ==> number_in(
                    before,
                    kind,
                ) is Some && number_in(after, kind) == Some(
                    number_in(before, kind)->0 + if outcome.error is None && outcome.kind == kind {
                        1int
                    } else {
                        0
                    },
                )
        }),
{
    reveal(Seq::filter);
    lemma_field_names_differ();
    assert(outcomes.push(outcome).drop_last() =~= outcomes);
    let before = set_success(domain, record_type, name, outcomes);
    assert(before->Object_0.dom() =~= set![
        "domain"@,
        "type"@,
        "name"@,
        "replaced"@,
        "created"@,
        "deleted"@,
        "action"@,
    ]);
}

/// The result of a successful `dns delete` over any number of records is an object of six fields:
/// the domain, the type and the name that it was given, the number of the records, that none
/// failed, and what was done.
pub proof fn law_delete_result_counts_every_record(
    domain: Seq<char>,
    record_type: Seq<char>,
    name: Seq<char>,
    outcomes: Seq<(Seq<char>, Option<Seq<char>>)>,
)
    ensures
        delete_success(domain, record_type, name, outcomes.len()) == Json::Object(
            map![
                "domain"@ => Json::Text(domain),
                "type"@ => Json::Text(record_type),
                "name"@ => Json::Text(name),
                "deleted"@ => Json::Number(outcomes.len() as int),
                "failed"@ => Json::Number(0),
                "action"@ => Json::Text("delete"@),
            ],
        ),
        ({
            let result = delete_success(domain, record_type, name, outcomes.len());
            &&& text_in(result, "domain"@) == Some(domain)
            &&& text_in(result, "type"@) == Some(record_type)
            &&& text_in(result, "name"@) == Some(name)
            &&& number_in(result, "deleted"@) == Some(outcomes.len() as int)
            &&& number_in(result, "failed"@) == Some(0int)
            &&& text_in(result, "action"@) == Some("delete"@)
        }),
{
    lemma_field_names_differ();
}

/// A complete run of `dns delete` that is reported as a success reports as many records deleted as
/// were found.
pub proof fn law_delete_run_reports_how_many(
    domain: Seq<char>,
    record_type: Seq<char>,
    name: Seq<char>,
    records: Seq<RecordView>,
    replies: Seq<ReplyView>,
)
    requires
        replies.len() == ids_before(records, records.len() as int),
        forall|i: int| 0 <= i < replies.len() ==> !(#[trigger] replies[i] is Listed),
    ensures
        ({
            let end = DeleteRunView::started(domain, record_type, name, records).after_all(replies);
            let result = delete_success(domain, record_type, name, end.outcomes.len());
            &&& number_in(result, "deleted"@) == Some(records.len() as int)
            &&& number_in(result, "failed"@) == Some(0int)
        }),
{
    let end = DeleteRunView::started(domain, record_type, name, records).after_all(replies);
    law_delete_run_success(domain, record_type, name, records, replies);
    law_delete_result_counts_every_record(domain, record_type, name, end.outcomes);
}

/// Joined lines with a first line before them and two lines after them.
proof fn lemma_joined_around(
    first: Seq<char>,
    lines: Seq<Seq<char>>,
    second_last: Seq<char>,
    last: Seq<char>,
)
    requires
        lines.len() > 0,
    ensures
        joined(seq![first] + lines + seq![second_last, last], "\n"@) == first + "\n"@ + joined(
            lines,
            "\n"@,
        ) + "\n"@ + (second_last + "\n"@ + last),
{
    let around = seq![second_last, last];
    law_joined(seq![first], lines, "\n"@);
    law_joined(seq![first] + lines, around, "\n"@);
    law_joined(seq![second_last], seq![last], "\n"@);
    law_joined(seq![last], seq![last], "\n"@);
    assert(seq![second_last] + seq![last] =~= around);
}

/// The message of a `dns set` that failed in part reads line by line: what was set and how many of
/// how many actions failed, then one line for each action in order, with its error if it failed,
/// then an empty line and how to go on.
pub proof fn law_set_failure_line_by_line(
    domain: Seq<char>,
    record_type: Seq<char>,
    name: Seq<char>,
    outcomes: Seq<OutcomeView>,
)
    requires
        outcomes.len() > 0,
    ensures
        set_failure_text(domain, record_type, name, outcomes) == joined(
            seq![
                "set for "@ + name + " ("@ + record_type + ") partially failed — "@ + decimal(
                    failure_count(outcomes),
                ) + " of "@ + decimal(outcomes.len()) + " action(s):"@,
            ] + Seq::new(
                outcomes.len(),
                |i: int|
                    if outcomes[i].error is Some {
                        "  ✗ "@ + outcomes[i].kind + " "@ + outcomes[i].detail + " — "@
                            + outcomes[i].error->0
                    } else {
                        "  ✓ "@ + outcomes[i].kind + " "@ + outcomes[i].detail
                    },
            ) + seq![
                ""@,
                "Re-run the original `gddy dns set` command, or `gddy dns list "@ + domain
                    + " --type "@ + record_type + " --name "@ + name
                    + "` to review the current state."@,
            ],
            "\n"@,
        ),
{
    let lines = Seq::new(
        outcomes.len(),
        |i: int|
            if outcomes[i].error is Some {
                "  ✗ "@ + outcomes[i].kind + " "@ + outcomes[i].detail + " — "@
                    + outcomes[i].error->0
            } else {
                "  ✓ "@ + outcomes[i].kind + " "@ + outcomes[i].detail
            },
    );
    assert(lines =~= outcomes.map_values(|outcome: OutcomeView| outcome_line(outcome)));
    let first = "set for "@ + name + " ("@ + record_type + ") partially failed — "@ + decimal(
        failure_count(outcomes),
    ) + " of "@ + decimal(outcomes.len()) + " action(s):"@;
    let last = "Re-run the original `gddy dns set` command, or `gddy dns list "@ + domain
        + " --type "@ + record_type + " --name "@ + name + "` to review the current state."@;
    lemma_joined_around(first, lines, ""@, last);
    reveal_strlit("");
    reveal_strlit("\n");
    reveal_strlit(" action(s):");
    reveal_strlit(" action(s):\n");
    reveal_strlit("Re-run the original `gddy dns set` command, or `gddy dns list ");
    reveal_strlit("\n\nRe-run the original `gddy dns set` command, or `gddy dns list ");
    assert(" action(s):\n"@ =~= " action(s):"@ + "\n"@);
    assert("\n\nRe-run the original `gddy dns set` command, or `gddy dns list "@ =~= "\n"@ + (""@
        + "\n"@ + "Re-run the original `gddy dns set` command, or `gddy dns list "@));
    assert(set_failure_text(domain, record_type, name, outcomes) =~= first + "\n"@ + joined(
        lines,
        "\n"@,
    ) + "\n"@ + (""@ + "\n"@ + last));
}

/// The message of a `dns delete` that failed in part reads line by line: how many of how many
/// records were deleted and how many were not, then one line for each record in order, with its
/// error if it was not deleted, then an empty line and how to go on.
pub proof fn law_delete_failure_line_by_line(
    domain: Seq<char>,
    record_type: Seq<char>,
    name: Seq<char>,
    outcomes: Seq<(Seq<char>, Option<Seq<char>>)>,
    deleted: nat,
)
    requires
        outcomes.len() > 0,
        deleted + failed_deletions(outcomes) == outcomes.len(),
    ensures
        delete_failure_text(domain, record_type, name, outcomes) == joined(
            seq![
                "deleted "@ + decimal(deleted) + " of "@ + decimal(outcomes.len())
                    + " record(s) for "@ + name + " ("@ + record_type + "); "@ + decimal(
                    failed_deletions(outcomes),
                ) + " failed:"@,
            ] + Seq::new(
                outcomes.len(),
                |i: int|
                    if outcomes[i].1 is Some {
                        "  ✗ "@ + outcomes[i].0 + " — "@ + outcomes[i].1->0
                    } else {
                        "  ✓ "@ + outcomes[i].0 + " — deleted"@
                    },
            ) + seq![
                ""@,
                "Re-run `gddy dns delete "@ + domain + " --type "@ + record_type + " --name "@ + name
                    + "`, or `gddy dns list "@ + domain + " --type "@ + record_type + " --name "@
                    + name + "` to review the current state."@,
            ],
            "\n"@,
        ),
{
    let lines = Seq::new(
        outcomes.len(),
        |i: int|
            if outcomes[i].1 is Some {
                "  ✗ "@ + outcomes[i].0 + " — "@ + outcomes[i].1->0
            } else {
                "  ✓ "@ + outcomes[i].0 + " — deleted"@
            },
    );
    assert(lines =~= outcomes.map_values(
        |outcome: (Seq<char>, Option<Seq<char>>)| deletion_line(outcome),
    ));
    let first = "deleted "@ + decimal(deleted) + " of "@ + decimal(outcomes.len())
        + " record(s) for "@ + name + " ("@ + record_type + "); "@ + decimal(
        failed_deletions(outcomes),
    ) + " failed:"@;
    let last = "Re-run `gddy dns delete "@ + domain + " --type "@ + record_type + " --name "@ + name
        + "`, or `gddy dns list "@ + domain + " --type "@ + record_type + " --name "@ + name
        + "` to review the current state."@;
    lemma_joined_around(first, lines, ""@, last);
    reveal_strlit("");
    reveal_strlit("\n");
    reveal_strlit(" failed:");
    reveal_strlit(" failed:\n");
    reveal_strlit("Re-run `gddy dns delete ");
    reveal_strlit("\n\nRe-run `gddy dns delete ");
    assert(" failed:\n"@ =~= " failed:"@ + "\n"@);
    assert("\n\nRe-run `gddy dns delete "@ =~= "\n"@ + (""@ + "\n"@ + "Re-run `gddy dns delete "@));
    assert(delete_failure_text(domain, record_type, name, outcomes) =~= first + "\n"@ + joined(
        lines,
        "\n"@,
    ) + "\n"@ + (""@ + "\n"@ + last));
}

/// What is said where something stands in the way of starting or of a single record names the
/// command that shows it, in full, and the cause.
pub proof fn law_other_messages(
    domain: Seq<char>,
    record_type: Seq<char>,
    name: Seq<char>,
    cause: Seq<char>,
)
    ensures
        ({
            let listing = "gddy dns list "@ + domain + " --type "@ + record_type + " --name "@
                + name;
            &&& missing_id_text(domain, record_type, name) == "some existing "@ + record_type
                + " records for "@ + name
                + " were returned without a recordId, so `set` can't safely replace the full set. Re-run `"@
                + listing + "` and adjust in the control panel if this persists."@
            &&& no_id_text(domain, record_type, name)
                == "the API returned this record without a recordId, so it can't be deleted; re-run `"@
                + listing + "` and remove it in the control panel if it persists"@
        }),
        row_failure_text(cause) == "failed to serialize DNS records: "@ + cause,
{
    reveal_strlit("gddy dns list ");
    reveal_strlit(
        " were returned without a recordId, so `set` can't safely replace the full set. Re-run `",
    );
    reveal_strlit(
        " were returned without a recordId, so `set` can't safely replace the full set. Re-run `gddy dns list ",
    );
    reveal_strlit(
        "the API returned this record without a recordId, so it can't be deleted; re-run `",
    );
    reveal_strlit(
        "the API returned this record without a recordId, so it can't be deleted; re-run `gddy dns list ",
    );
    let listing = "gddy dns list "@ + domain + " --type "@ + record_type + " --name "@ + name;
    assert(
    " were returned without a recordId, so `set` can't safely replace the full set. Re-run `gddy dns list "@
        =~= " were returned without a recordId, so `set` can't safely replace the full set. Re-run `"@
        + "gddy dns list "@);
    assert(
    "the API returned this record without a recordId, so it can't be deleted; re-run `gddy dns list "@
        =~= "the API returned this record without a recordId, so it can't be deleted; re-run `"@
        + "gddy dns list "@);
    assert(missing_id_text(domain, record_type, name) =~= "some existing "@ + record_type
        + " records for "@ + name
        + " were returned without a recordId, so `set` can't safely replace the full set. Re-run `"@
        + listing + "` and adjust in the control panel if this persists."@);
    assert(no_id_text(domain, record_type, name)
        =~= "the API returned this record without a recordId, so it can't be deleted; re-run `"@
        + listing + "` and remove it in the control panel if it persists"@);
}

/// A list of rows is whole exactly if none of them failed.
pub proof fn law_rows_are_whole(rows: Seq<Result<Value, String>>)
    ensures
        all_rows_serialized(rows) <==> !(exists|i: int|
            #![trigger rows[i]]
            0 <= i < rows.len() && rows[i] is Err),
{
}

} // verus!
