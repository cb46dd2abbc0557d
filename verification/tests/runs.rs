use domains_dns::api::{ApiCall, DnsRecord, Reply};
use domains_dns::delete::DeleteRun;
use domains_dns::set::{existing_ids, SetRun};
use domains_dns::write::{
    conflicting_records, next_write_call, send_write, write_with_conflict_handling, WriteCall,
    WriteRequest, WriteState,
};

fn record(record_id: Option<&str>, type_: &str, data: &str) -> DnsRecord {
    DnsRecord {
        record_id: record_id.map(str::to_string),
        type_: type_.to_string(),
        data: data.to_string(),
    }
}

fn failed(message: &str) -> Reply {
    Reply::Failed {
        message: message.to_string(),
    }
}

fn rejected(duplicate: bool, message: &str) -> Reply {
    Reply::Rejected {
        duplicate,
        message: message.to_string(),
    }
}

fn listed(records: Vec<DnsRecord>) -> Reply {
    Reply::Listed {
        records,
        description: "conflicts with a CNAME".to_string(),
    }
}

/// A call in short: the verb, the record id where there is one, the value where there is one, and
/// a mark for a second attempt or a conflicting record.
fn short(call: Option<ApiCall>) -> String {
    match call {
        None => "none".to_string(),
        Some(ApiCall::Create { zone, draft, retry }) => format!(
            "{zone} create {} {} {}{}",
            draft.name,
            draft.record_type,
            draft.data,
            if retry { " again" } else { "" }
        ),
        Some(ApiCall::Replace {
            zone,
            record_id,
            draft,
            retry,
        }) => format!(
            "{zone} replace {record_id} {} {} {}{}",
            draft.name,
            draft.record_type,
            draft.data,
            if retry { " again" } else { "" }
        ),
        Some(ApiCall::Delete {
            zone,
            record_id,
            conflict,
        }) => format!(
            "{zone} delete {record_id}{}",
            if conflict { " conflict" } else { "" }
        ),
        Some(ApiCall::ListName { zone, draft }) => format!(
            "{zone} list {} for {} {}",
            draft.name, draft.record_type, draft.data
        ),
    }
}

fn set_run(data: &[&str], replace_conflicting: bool, existing: Vec<DnsRecord>) -> SetRun {
    let data: Vec<String> = data.iter().map(|value| value.to_string()).collect();
    SetRun::begin(
        "example.com".to_string(),
        "A".to_string(),
        "www".to_string(),
        &data,
        replace_conflicting,
        existing,
    )
    .expect("every record has an id")
}

/// Feeds the replies to the run and gives the calls that it asked for.
fn drive(run: &mut SetRun, replies: Vec<Reply>) -> Vec<String> {
    let mut calls = Vec::new();
    for reply in replies {
        calls.push(short(run.next_call()));
        run.take_reply(reply);
    }
    calls
}

#[test]
fn clean_set_run_makes_one_call_per_action() {
    let mut run = set_run(
        &["a"],
        false,
        vec![record(Some("r1"), "A", "x"), record(Some("r2"), "A", "y")],
    );
    let calls = drive(&mut run, vec![Reply::Succeeded, Reply::Succeeded]);
    assert_eq!(
        calls,
        vec!["example.com replace r1 www A a", "example.com delete r2"]
    );
    assert_eq!(short(run.next_call()), "none");
    let v = run.result().expect("all ok");
    assert_eq!(v["replaced"], 1);
    assert_eq!(v["created"], 0);
    assert_eq!(v["deleted"], 1);
}

#[test]
fn set_run_creates_the_shortfall() {
    let mut run = set_run(&["a", "b", "c"], false, vec![record(Some("r1"), "A", "x")]);
    let calls = drive(
        &mut run,
        vec![Reply::Succeeded, Reply::Succeeded, Reply::Succeeded],
    );
    assert_eq!(
        calls,
        vec![
            "example.com replace r1 www A a",
            "example.com create www A b",
            "example.com create www A c",
        ]
    );
    let v = run.result().expect("all ok");
    assert_eq!(v["replaced"], 1);
    assert_eq!(v["created"], 2);
    assert_eq!(v["deleted"], 0);
}

#[test]
fn set_run_goes_on_after_a_failure() {
    let mut run = set_run(
        &["a"],
        false,
        vec![record(Some("r1"), "A", "x"), record(Some("r2"), "A", "y")],
    );
    drive(&mut run, vec![failed("timeout"), failed("gone")]);
    assert_eq!(short(run.next_call()), "none");
    let message = run.result().expect_err("two failures");
    assert!(message.contains("2 of 2 action(s)"), "{message}");
    assert!(message.contains("✗ replaced a — timeout"), "{message}");
    // A deleted record is reported by its type and value, not by its id.
    assert!(message.contains("✗ deleted A y — gone"), "{message}");
}

#[test]
fn set_refuses_records_without_an_id() {
    let data = vec!["a".to_string()];
    let refused = SetRun::begin(
        "example.com".to_string(),
        "A".to_string(),
        "www".to_string(),
        &data,
        true,
        vec![record(Some("r1"), "A", "x"), record(None, "A", "y")],
    );
    let message = refused.err().expect("a record has no id");
    assert_eq!(
        message,
        "some existing A records for www were returned without a recordId, so `set` can't safely \
         replace the full set. Re-run `gddy dns list example.com --type A --name www` and adjust \
         in the control panel if this persists."
    );
}

#[test]
fn existing_ids_keep_their_order() {
    let existing = vec![record(Some("r2"), "A", "x"), record(Some("r1"), "A", "y")];
    assert_eq!(
        existing_ids("example.com", "A", "www", &existing),
        Ok(vec!["r2".to_string(), "r1".to_string()])
    );
    assert!(existing_ids("example.com", "A", "www", &[record(None, "A", "x")]).is_err());
}

#[test]
fn set_run_removes_conflicts_and_tries_again() {
    let mut run = set_run(&["a"], true, vec![]);
    let calls = drive(
        &mut run,
        vec![
            rejected(true, "duplicate"),
            listed(vec![
                record(Some("c1"), "CNAME", "old.example.net"),
                record(Some("t1"), "TXT", "kept"),
                record(None, "CNAME", "other.example.net"),
            ]),
            Reply::Succeeded,
            Reply::Succeeded,
        ],
    );
    assert_eq!(
        calls,
        vec![
            "example.com create www A a",
            "example.com list www for A a",
            "example.com delete c1 conflict",
            "example.com create www A a again",
        ]
    );
    assert_eq!(short(run.next_call()), "none");
    let message = run.result().expect_err("one record has no id");
    assert!(message.contains("1 of 3 action(s)"), "{message}");
    assert!(
        message.contains("✓ deleted CNAME old.example.net\n"),
        "{message}"
    );
    assert!(
        message.contains(
            "✗ deleted CNAME other.example.net — the API returned this record without a recordId, \
             so it can't be removed automatically; remove it in the control panel"
        ),
        "{message}"
    );
    assert!(message.contains("✓ created a\n"), "{message}");
}

#[test]
fn removed_conflicts_count_as_deleted() {
    let mut run = set_run(&["a"], true, vec![record(Some("r1"), "A", "x")]);
    drive(
        &mut run,
        vec![
            rejected(true, "duplicate"),
            listed(vec![record(Some("c1"), "CNAME", "old.example.net")]),
            Reply::Succeeded,
            Reply::Succeeded,
        ],
    );
    let v = run.result().expect("all ok");
    assert_eq!(v["replaced"], 1);
    assert_eq!(v["deleted"], 1);
    assert_eq!(v["created"], 0);
}

#[test]
fn second_attempt_is_the_last() {
    let mut run = set_run(&["a", "b"], true, vec![]);
    let calls = drive(
        &mut run,
        vec![
            rejected(true, "duplicate"),
            listed(vec![record(Some("c1"), "CNAME", "old.example.net")]),
            failed("locked"),
            rejected(true, "still a duplicate"),
            Reply::Succeeded,
        ],
    );
    // The duplicate that the second attempt meets is an error like any other.
    assert_eq!(calls[3], "example.com create www A a again");
    assert_eq!(calls[4], "example.com create www A b");
    let message = run.result().expect_err("failures");
    assert!(message.contains("2 of 3 action(s)"), "{message}");
    assert!(
        message.contains("✗ deleted CNAME old.example.net — locked"),
        "{message}"
    );
    assert!(
        message.contains("✗ created a — still a duplicate"),
        "{message}"
    );
    assert!(message.contains("✓ created b"), "{message}");
}

#[test]
fn conflicts_stay_unless_the_user_opts_in() {
    let mut run = set_run(&["a"], false, vec![]);
    let calls = drive(
        &mut run,
        vec![
            rejected(true, "duplicate"),
            listed(vec![record(Some("c1"), "CNAME", "old.example.net")]),
        ],
    );
    assert_eq!(
        calls,
        vec!["example.com create www A a", "example.com list www for A a"]
    );
    assert_eq!(short(run.next_call()), "none");
    let message = run.result().expect_err("a conflict");
    assert!(
        message.contains("✗ created a — conflicts with a CNAME"),
        "{message}"
    );
}

#[test]
fn exact_duplicate_is_described() {
    let mut run = set_run(&["a"], true, vec![]);
    drive(
        &mut run,
        vec![
            rejected(true, "duplicate"),
            listed(vec![record(Some("r9"), "A", "a")]),
        ],
    );
    assert_eq!(short(run.next_call()), "none");
    let message = run.result().expect_err("a duplicate");
    assert!(message.contains("1 of 1 action(s)"), "{message}");
    assert!(
        message.contains("✗ created a — conflicts with a CNAME"),
        "{message}"
    );
}

#[test]
fn other_rejections_are_reported_at_once() {
    let mut run = set_run(&["a"], true, vec![]);
    drive(&mut run, vec![rejected(false, "422 bad")]);
    assert_eq!(short(run.next_call()), "none");
    let message = run.result().expect_err("a rejection");
    assert!(message.contains("✗ created a — 422 bad"), "{message}");
}

#[test]
fn failed_listing_ends_the_write() {
    let mut run = set_run(&["a"], true, vec![]);
    drive(
        &mut run,
        vec![rejected(true, "duplicate"), failed("listing failed")],
    );
    assert_eq!(short(run.next_call()), "none");
    let message = run.result().expect_err("a failure");
    assert!(message.contains("✗ created a — listing failed"), "{message}");
}

#[test]
fn reply_that_answers_nothing_is_ignored() {
    let mut run = set_run(&["a"], true, vec![]);
    run.take_reply(listed(vec![]));
    assert_eq!(short(run.next_call()), "example.com create www A a");
    run.take_reply(rejected(true, "duplicate"));
    run.take_reply(Reply::Succeeded);
    assert_eq!(short(run.next_call()), "example.com list www for A a");
    run.take_reply(failed("down"));
    run.take_reply(Reply::Succeeded);
    assert_eq!(run.outcomes.len(), 1);
    assert_eq!(short(run.next_call()), "none");
}

#[test]
fn cname_conflicts_with_every_other_type() {
    let at_name = || {
        vec![
            record(Some("a1"), "A", "1.2.3.4"),
            record(Some("c1"), "CNAME", "x"),
            record(Some("t1"), "TXT", "y"),
        ]
    };
    let ids = |records: Vec<DnsRecord>| -> Vec<String> {
        records
            .into_iter()
            .map(|record| record.record_id.expect("an id"))
            .collect()
    };
    assert_eq!(ids(conflicting_records("CNAME", at_name())), vec!["a1", "t1"]);
    assert_eq!(ids(conflicting_records("A", at_name())), vec!["c1"]);
    assert_eq!(ids(conflicting_records("MX", at_name())), vec!["c1"]);
    assert!(conflicting_records("TXT", vec![record(Some("a1"), "A", "x")]).is_empty());
}

#[test]
fn write_sends_the_same_record_twice() {
    let req = WriteRequest {
        domain: "example.com",
        name: "www",
        record_type: "A",
        value: "5.6.7.8",
        replace_conflicting: true,
    };
    let call = WriteCall::Replace { record_id: "rec-1" };
    assert_eq!(
        short(Some(send_write(&req, &call, false))),
        "example.com replace rec-1 www A 5.6.7.8"
    );
    assert_eq!(
        short(next_write_call(
            &req,
            &call,
            &WriteState::Resending { outcomes: vec![] }
        )),
        "example.com replace rec-1 www A 5.6.7.8 again"
    );
    let state = write_with_conflict_handling(&req, &call, WriteState::Sending, Reply::Succeeded);
    match state {
        WriteState::Done { outcomes } => {
            assert_eq!(outcomes.len(), 1);
            assert_eq!(outcomes[0].kind, "replaced");
            assert_eq!(outcomes[0].detail, "5.6.7.8");
            assert_eq!(outcomes[0].error, None);
        }
        other => panic!("the write is over, not {other:?}"),
    }
}

#[test]
fn only_first_attempts_are_looked_into() {
    let mut run = set_run(&["a"], true, vec![]);
    let mut inspected = Vec::new();
    for reply in [
        rejected(true, "duplicate"),
        listed(vec![record(Some("c1"), "CNAME", "x")]),
        Reply::Succeeded,
        Reply::Succeeded,
    ] {
        inspected.push(run.next_call().expect("a call").inspects_rejection());
        run.take_reply(reply);
    }
    assert_eq!(inspected, vec![true, false, false, false]);
    let run = set_run(&["a"], true, vec![record(Some("r1"), "A", "x")]);
    assert!(run.next_call().expect("a call").inspects_rejection());
}

#[test]
fn calls_say_what_they_do() {
    let mut run = set_run(&["a"], true, vec![]);
    assert_eq!(
        run.next_call().and_then(|call| call.label()),
        Some("creating DNS record")
    );
    run.take_reply(rejected(true, "duplicate"));
    assert_eq!(run.next_call().and_then(|call| call.label()), None);
    run.take_reply(listed(vec![record(Some("c1"), "CNAME", "x")]));
    assert_eq!(
        run.next_call().and_then(|call| call.label()),
        Some("deleting conflicting DNS record")
    );
    let run = set_run(&["a"], true, vec![record(Some("r1"), "A", "x")]);
    assert_eq!(
        run.next_call().and_then(|call| call.label()),
        Some("replacing DNS record")
    );
    let run = set_run(&[], true, vec![record(Some("r1"), "A", "x")]);
    assert_eq!(
        run.next_call().and_then(|call| call.label()),
        Some("deleting DNS record")
    );
}

/// A zone for tests: the value of each record by its id, where a new record gets the next id.
struct Zone {
    records: std::collections::BTreeMap<String, String>,
    next: usize,
}

impl Zone {
    fn carry_out(&mut self, call: ApiCall) -> Reply {
        match call {
            ApiCall::Create { draft, .. } => {
                self.records.insert(format!("new{}", self.next), draft.data);
                self.next += 1;
            }
            ApiCall::Replace {
                record_id, draft, ..
            } => {
                self.records.insert(record_id, draft.data);
            }
            ApiCall::Delete { record_id, .. } => {
                self.records.remove(&record_id);
            }
            ApiCall::ListName { .. } => unreachable!("no write met a duplicate"),
        }
        Reply::Succeeded
    }
}

#[test]
fn set_run_leaves_exactly_the_given_values() {
    for existing in 0..4usize {
        for desired in 0..4usize {
            let records: Vec<DnsRecord> = (0..existing)
                .map(|i| record(Some(&format!("r{i}")), "A", &format!("old{i}")))
                .collect();
            let mut zone = Zone {
                records: records
                    .iter()
                    .map(|r| (r.record_id.clone().expect("an id"), r.data.clone()))
                    .collect(),
                next: 0,
            };
            zone.records.insert("t1".to_string(), "other".to_string());
            let values: Vec<String> = (0..desired).map(|i| format!("v{i}")).collect();
            let data: Vec<&str> = values.iter().map(String::as_str).collect();
            let mut run = set_run(&data, false, records);
            while let Some(call) = run.next_call() {
                let reply = zone.carry_out(call);
                run.take_reply(reply);
            }
            assert!(run.result().is_ok());
            assert_eq!(zone.records.remove("t1").as_deref(), Some("other"));
            let mut left: Vec<String> = zone.records.into_values().collect();
            left.sort();
            assert_eq!(left, values);
        }
    }
}

#[test]
fn reported_success_replaces_the_set_though_conflicts_were_removed() {
    // The zone holds a CNAME at the name, so that writing an A record meets a duplicate.
    let mut zone = Zone {
        records: [("r1", "old"), ("r2", "surplus"), ("c1", "old.example.net"), ("t1", "other")]
            .into_iter()
            .map(|(id, data)| (id.to_string(), data.to_string()))
            .collect(),
        next: 0,
    };
    let mut run = set_run(
        &["new"],
        true,
        vec![record(Some("r1"), "A", "old"), record(Some("r2"), "A", "surplus")],
    );
    while let Some(call) = run.next_call() {
        let blocked = zone.records.contains_key("c1");
        let reply = match call {
            ApiCall::ListName { .. } => {
                listed(vec![record(Some("c1"), "CNAME", "old.example.net")])
            }
            ApiCall::Create { .. } | ApiCall::Replace { .. } if blocked => {
                rejected(true, "duplicate")
            }
            call => zone.carry_out(call),
        };
        run.take_reply(reply);
    }
    let v = run.result().expect("all ok");
    assert_eq!(v["replaced"], 1);
    assert_eq!(v["created"], 0);
    // The surplus record and the conflicting one.
    assert_eq!(v["deleted"], 2);
    let left: Vec<(&str, &str)> = zone
        .records
        .iter()
        .map(|(id, data)| (id.as_str(), data.as_str()))
        .collect();
    assert_eq!(left, vec![("r1", "new"), ("t1", "other")]);
}

#[test]
fn failed_action_leaves_its_record_as_it_was() {
    let mut zone = Zone {
        records: [("r1", "x"), ("r2", "y")]
            .into_iter()
            .map(|(id, data)| (id.to_string(), data.to_string()))
            .collect(),
        next: 0,
    };
    let mut run = set_run(
        &["a", "b"],
        false,
        vec![record(Some("r1"), "A", "x"), record(Some("r2"), "A", "y")],
    );
    run.take_reply(failed("timeout"));
    while let Some(call) = run.next_call() {
        let reply = zone.carry_out(call);
        run.take_reply(reply);
    }
    assert!(run.result().is_err());
    assert_eq!(zone.records["r1"], "x");
    assert_eq!(zone.records["r2"], "b");
}

fn delete_run(records: Vec<DnsRecord>) -> DeleteRun {
    DeleteRun::begin(
        "example.com".to_string(),
        "A".to_string(),
        "www".to_string(),
        records,
    )
}

#[test]
fn delete_run_deletes_every_record_in_order() {
    let mut run = delete_run(vec![
        record(Some("r1"), "A", "1.2.3.4"),
        record(Some("r2"), "A", "5.6.7.8"),
    ]);
    assert_eq!(short(run.next_call()), "example.com delete r1");
    run.take_reply(Reply::Succeeded);
    assert_eq!(short(run.next_call()), "example.com delete r2");
    run.take_reply(Reply::Succeeded);
    assert_eq!(short(run.next_call()), "none");
    assert_eq!(run.result().expect("all deleted")["deleted"], 2);
}

#[test]
fn delete_run_over_nothing_succeeds() {
    let run = delete_run(vec![]);
    assert_eq!(short(run.next_call()), "none");
    assert_eq!(run.result().expect("nothing to do")["deleted"], 0);
}

#[test]
fn delete_run_reports_records_without_an_id() {
    let mut run = delete_run(vec![
        record(None, "A", "1.1.1.1"),
        record(Some("r2"), "A", "2.2.2.2"),
        record(None, "A", "3.3.3.3"),
        record(Some("r4"), "A", "4.4.4.4"),
    ]);
    assert_eq!(short(run.next_call()), "example.com delete r2");
    run.take_reply(failed("503 busy"));
    // An answer to no deletion changes nothing.
    run.take_reply(listed(vec![]));
    assert_eq!(short(run.next_call()), "example.com delete r4");
    run.take_reply(Reply::Succeeded);
    assert_eq!(short(run.next_call()), "none");
    let no_id = "the API returned this record without a recordId, so it can't be deleted; re-run \
                 `gddy dns list example.com --type A --name www` and remove it in the control \
                 panel if it persists";
    assert_eq!(
        run.outcomes,
        vec![
            ("1.1.1.1".to_string(), Some(no_id.to_string())),
            ("2.2.2.2".to_string(), Some("503 busy".to_string())),
            ("3.3.3.3".to_string(), Some(no_id.to_string())),
            ("4.4.4.4".to_string(), None),
        ]
    );
    let message = run.result().expect_err("three failures");
    assert!(
        message.starts_with("deleted 1 of 4 record(s) for www (A); 3 failed:\n"),
        "{message}"
    );
}

#[test]
fn delete_run_removes_what_it_found_and_nothing_else() {
    let mut zone = Zone {
        records: [("r1", "a"), ("r2", "b"), ("r3", "c"), ("t1", "other")]
            .into_iter()
            .map(|(id, data)| (id.to_string(), data.to_string()))
            .collect(),
        next: 0,
    };
    let mut run = delete_run(vec![
        record(Some("r1"), "A", "a"),
        record(Some("r2"), "A", "b"),
        record(Some("r3"), "A", "c"),
    ]);
    while let Some(call) = run.next_call() {
        let reply = match &call {
            ApiCall::Delete { record_id, .. } if record_id == "r2" => failed("locked"),
            _ => zone.carry_out(call),
        };
        run.take_reply(reply);
    }
    assert!(run.result().is_err());
    let left: Vec<&str> = zone.records.keys().map(String::as_str).collect();
    assert_eq!(left, vec!["r2", "t1"]);

    let mut run = delete_run(vec![record(Some("r2"), "A", "b")]);
    while let Some(call) = run.next_call() {
        let reply = zone.carry_out(call);
        run.take_reply(reply);
    }
    assert_eq!(run.result().expect("all deleted")["deleted"], 1);
    let left: Vec<&str> = zone.records.keys().map(String::as_str).collect();
    assert_eq!(left, vec!["t1"]);
}
