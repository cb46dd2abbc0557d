use domains_dns::delete::summarize_delete_outcomes;
use domains_dns::list::list_result;
use domains_dns::outcome::{summarize_set_outcomes, SetOutcome};
use domains_dns::text::{decimal_text, join_lines, same_text};
use serde_json::Value;

#[test]
fn summarize_set_reports_counts_and_flags_partial_failure() {
    let all_ok = vec![
        SetOutcome::new("replaced", "9.9.9.9".into(), None),
        SetOutcome::new("created", "8.8.8.8".into(), None),
        SetOutcome::new("deleted", "r3".into(), None),
    ];
    let v = summarize_set_outcomes("example.com", "A", "www", &all_ok).expect("all ok");
    assert_eq!(v["replaced"], 1);
    assert_eq!(v["created"], 1);
    assert_eq!(v["deleted"], 1);

    let mixed = vec![
        SetOutcome::new("replaced", "9.9.9.9".into(), None),
        SetOutcome::new("created", "8.8.8.8".into(), Some("422 bad".into())),
    ];
    let err = summarize_set_outcomes("example.com", "A", "www", &mixed).expect_err("a failure");
    assert!(err.contains("1 of 2"), "{err}");
    assert!(err.contains("✗ created 8.8.8.8 — 422 bad"), "{err}");
}

#[test]
fn summarize_delete_reports_count_zero_and_partial_failure() {
    // Nothing matched → deleted 0, not an error.
    let none: [(String, Option<String>); 0] = [];
    let v = summarize_delete_outcomes("example.com", "A", "www", &none).expect("ok");
    assert_eq!(v["deleted"], 0);
    // All deleted.
    let ok = vec![("1.2.3.4".to_string(), None), ("5.6.7.8".to_string(), None)];
    let v = summarize_delete_outcomes("example.com", "A", "www", &ok).expect("ok");
    assert_eq!(v["deleted"], 2);
    // One failed → non-zero error naming the failed value.
    let mixed = vec![
        ("1.2.3.4".to_string(), None),
        ("5.6.7.8".to_string(), Some("nope".to_string())),
    ];
    let err = summarize_delete_outcomes("example.com", "A", "www", &mixed).expect_err("a failure");
    assert!(err.contains("deleted 1 of 2"), "{err}");
    assert!(err.contains("✗ 5.6.7.8 — nope"), "{err}");
    // The recovery hint must include the domain positional and flags or it won't parse.
    assert!(
        err.contains("dns delete example.com --type A --name www"),
        "{err}"
    );
    assert!(
        err.contains("dns list example.com --type A --name www"),
        "{err}"
    );
}

#[test]
fn set_success_is_an_object_of_seven_fields() {
    let outcomes = vec![
        SetOutcome::new("replaced", "a".into(), None),
        SetOutcome::new("replaced", "b".into(), None),
        SetOutcome::new("deleted", "A c".into(), None),
    ];
    let v = summarize_set_outcomes("example.com", "A", "www", &outcomes).expect("all ok");
    let fields = v.as_object().expect("an object");
    assert_eq!(fields.len(), 7);
    assert_eq!(v["domain"], "example.com");
    assert_eq!(v["type"], "A");
    assert_eq!(v["name"], "www");
    assert_eq!(v["replaced"], 2);
    assert_eq!(v["created"], 0);
    assert_eq!(v["deleted"], 1);
    assert_eq!(v["action"], "set");
}

#[test]
fn set_of_nothing_succeeds() {
    let v = summarize_set_outcomes("example.com", "A", "www", &[]).expect("no failure");
    assert_eq!(v["replaced"], 0);
    assert_eq!(v["created"], 0);
    assert_eq!(v["deleted"], 0);
}

#[test]
fn set_failure_message_is_exact() {
    let outcomes = vec![
        SetOutcome::new("replaced", "9.9.9.9".into(), None),
        SetOutcome::new("created", "8.8.8.8".into(), Some("422 bad".into())),
        SetOutcome::new("deleted", "A 7.7.7.7".into(), Some("gone".into())),
    ];
    let message = summarize_set_outcomes("example.com", "A", "www", &outcomes).expect_err("failed");
    assert_eq!(
        message,
        "set for www (A) partially failed — 2 of 3 action(s):\n\
         \u{20}\u{20}✓ replaced 9.9.9.9\n\
         \u{20}\u{20}✗ created 8.8.8.8 — 422 bad\n\
         \u{20}\u{20}✗ deleted A 7.7.7.7 — gone\n\
         \n\
         Re-run the original `gddy dns set` command, or `gddy dns list example.com --type A \
         --name www` to review the current state."
    );
}

#[test]
fn delete_success_is_an_object_of_six_fields() {
    let outcomes = vec![("1.2.3.4".to_string(), None)];
    let v = summarize_delete_outcomes("example.com", "A", "www", &outcomes).expect("ok");
    assert_eq!(v.as_object().expect("an object").len(), 6);
    assert_eq!(v["domain"], "example.com");
    assert_eq!(v["type"], "A");
    assert_eq!(v["name"], "www");
    assert_eq!(v["deleted"], 1);
    assert_eq!(v["failed"], 0);
    assert_eq!(v["action"], "delete");
}

#[test]
fn delete_failure_message_is_exact() {
    let outcomes = vec![
        ("1.2.3.4".to_string(), None),
        ("5.6.7.8".to_string(), Some("nope".to_string())),
    ];
    let message =
        summarize_delete_outcomes("example.com", "A", "www", &outcomes).expect_err("failed");
    assert_eq!(
        message,
        "deleted 1 of 2 record(s) for www (A); 1 failed:\n\
         \u{20}\u{20}✓ 1.2.3.4 — deleted\n\
         \u{20}\u{20}✗ 5.6.7.8 — nope\n\
         \n\
         Re-run `gddy dns delete example.com --type A --name www`, or `gddy dns list example.com \
         --type A --name www` to review the current state."
    );
}

#[test]
fn counts_of_two_digits_are_written_out() {
    let outcomes: Vec<(String, Option<String>)> = (0..12)
        .map(|i| (format!("v{i}"), Some("down".to_string())))
        .collect();
    let message =
        summarize_delete_outcomes("example.com", "A", "www", &outcomes).expect_err("failed");
    assert!(message.starts_with("deleted 0 of 12 record(s) for www (A); 12 failed:\n"));
}

#[test]
fn list_is_an_array_in_order() {
    let rows: Vec<Result<Value, String>> = vec![Ok(Value::from("first")), Ok(Value::from(2))];
    let v = list_result(rows).expect("all rows");
    assert_eq!(
        v,
        Value::Array(vec![Value::from("first"), Value::from(2)])
    );
}

#[test]
fn list_of_nothing_is_an_empty_array() {
    assert_eq!(list_result(vec![]).expect("no rows"), Value::Array(vec![]));
}

#[test]
fn list_reports_the_first_row_that_failed() {
    let rows = vec![
        Ok(Value::from("first")),
        Err("key must be a string".to_string()),
        Err("later".to_string()),
    ];
    assert_eq!(
        list_result(rows).expect_err("a row failed"),
        "failed to serialize DNS records: key must be a string"
    );
}

#[test]
fn decimals_have_no_leading_zeros() {
    assert_eq!(decimal_text(0), "0");
    assert_eq!(decimal_text(9), "9");
    assert_eq!(decimal_text(10), "10");
    assert_eq!(decimal_text(407), "407");
    assert_eq!(decimal_text(usize::MAX), usize::MAX.to_string());
}

#[test]
fn lines_are_joined_by_line_breaks() {
    assert_eq!(join_lines(&vec![]), "");
    assert_eq!(join_lines(&vec!["a".to_string()]), "a");
    assert_eq!(
        join_lines(&vec!["a".to_string(), String::new(), "b".to_string()]),
        "a\n\nb"
    );
}

#[test]
fn texts_are_compared_by_their_characters() {
    assert!(same_text("CNAME", "CNAME"));
    assert!(!same_text("CNAME", "cname"));
    assert!(!same_text("A", "AAAA"));
}
