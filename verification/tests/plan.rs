use domains_dns::plan::{plan_set, SetAction};

fn texts(items: &[&str]) -> Vec<String> {
    items.iter().map(|item| item.to_string()).collect()
}

#[test]
fn plan_set_reuses_overlap_deletes_extra_creates_shortfall() {
    // 3 existing, 2 desired → reuse 2 ids, delete the 3rd.
    let existing = vec!["r1".to_string(), "r2".to_string(), "r3".to_string()];
    let desired = vec!["9.9.9.9".to_string(), "8.8.8.8".to_string()];
    assert_eq!(
        plan_set(&existing, &desired),
        vec![
            SetAction::Replace {
                record_id: "r1".into(),
                data: "9.9.9.9".into()
            },
            SetAction::Replace {
                record_id: "r2".into(),
                data: "8.8.8.8".into()
            },
            SetAction::Delete {
                record_id: "r3".into()
            },
        ]
    );
    // 1 existing, 3 desired → reuse 1 id, create 2.
    assert_eq!(
        plan_set(
            &["r1".to_string()],
            &["a".to_string(), "b".to_string(), "c".to_string()]
        ),
        vec![
            SetAction::Replace {
                record_id: "r1".into(),
                data: "a".into()
            },
            SetAction::Create { data: "b".into() },
            SetAction::Create { data: "c".into() },
        ]
    );
    // none existing → all creates.
    assert_eq!(
        plan_set(&[], &["x".to_string()]),
        vec![SetAction::Create { data: "x".into() }]
    );
}

#[test]
fn plan_for_nothing_is_empty() {
    assert_eq!(plan_set(&[], &[]), vec![]);
}

#[test]
fn plan_without_values_deletes_everything() {
    assert_eq!(
        plan_set(&texts(&["r1", "r2"]), &[]),
        vec![
            SetAction::Delete {
                record_id: "r1".into()
            },
            SetAction::Delete {
                record_id: "r2".into()
            },
        ]
    );
}

#[test]
fn plan_with_as_many_values_only_replaces() {
    let plan = plan_set(&texts(&["r1", "r2"]), &texts(&["a", "b"]));
    assert_eq!(plan.len(), 2);
    assert!(plan
        .iter()
        .all(|action| matches!(action, SetAction::Replace { .. })));
}

#[test]
fn plan_counts_follow_the_two_sides() {
    for existing in 0..5usize {
        for desired in 0..5usize {
            let ids: Vec<String> = (0..existing).map(|i| format!("r{i}")).collect();
            let data: Vec<String> = (0..desired).map(|i| format!("v{i}")).collect();
            let plan = plan_set(&ids, &data);
            let count = |wanted: fn(&SetAction) -> bool| plan.iter().filter(|a| wanted(a)).count();
            assert_eq!(
                count(|a| matches!(a, SetAction::Replace { .. })),
                existing.min(desired)
            );
            assert_eq!(
                count(|a| matches!(a, SetAction::Delete { .. })),
                existing.saturating_sub(desired)
            );
            assert_eq!(
                count(|a| matches!(a, SetAction::Create { .. })),
                desired.saturating_sub(existing)
            );
        }
    }
}
