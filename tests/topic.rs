use flowgen::topic::{
    desired_topic, merge_subjects, plan_reconciliation, DiscardPolicy, ReconcileError,
    RemoteTopic, RetentionPolicy, Target, TopicAction, DEFAULT_MAX_AGE_SECS,
};

fn strings(v: &[&str]) -> Vec<String> {
    v.iter().map(|s| s.to_string()).collect()
}

fn target(subjects: &[&str], max_age: Option<u64>) -> Target {
    Target {
        credentials: "/etc/nats.creds".to_string(),
        stream_name: "orders".to_string(),
        stream_description: Some("order events".to_string()),
        subjects: strings(subjects),
        max_age,
    }
}

fn subjects_of(a: &TopicAction) -> Vec<String> {
    match a {
        TopicAction::Create(c) | TopicAction::Update(c) => c.subjects.clone(),
    }
}

#[test]
fn merge_is_sorted_union_without_repeats() {
    let r = merge_subjects(&strings(&["c", "a", "c"]), &strings(&["b", "a", "d"]));
    assert_eq!(r, strings(&["a", "b", "c", "d"]));
}

#[test]
fn merge_orders_by_bytes() {
    let r = merge_subjects(&strings(&["b", "B", "ab", "a"]), &strings(&["é", "z", ""]));
    let mut expected = strings(&["b", "B", "ab", "a", "é", "z", ""]);
    expected.sort();
    assert_eq!(r, expected);
}

#[test]
fn merge_of_empty_lists_is_empty() {
    assert!(merge_subjects(&Vec::new(), &Vec::new()).is_empty());
}

#[test]
fn union_not_replacement() {
    let a = plan_reconciliation(&target(&["x"], None), &RemoteTopic::Found(strings(&["y"])))
        .unwrap();
    assert!(matches!(a, TopicAction::Update(_)));
    assert_eq!(subjects_of(&a), strings(&["x", "y"]));
}

#[test]
fn absent_topic_is_created_as_desired() {
    let a = plan_reconciliation(&target(&["x", "w"], None), &RemoteTopic::Absent).unwrap();
    match a {
        TopicAction::Create(c) => {
            assert_eq!(c.name, "orders");
            assert_eq!(c.description.as_deref(), Some("order events"));
            assert_eq!(c.subjects, strings(&["x", "w"]));
            assert_eq!(c.retention, RetentionPolicy::Limits);
            assert_eq!(c.discard, DiscardPolicy::Old);
            assert_eq!(c.max_age_secs, DEFAULT_MAX_AGE_SECS);
            assert_eq!(c.max_age_secs, 86400);
            assert_eq!(c.max_messages_per_subject, 1);
        }
        TopicAction::Update(_) => panic!("expected a create"),
    }
}

#[test]
fn configured_max_age_overrides_default() {
    assert_eq!(desired_topic(&target(&["x"], Some(60))).max_age_secs, 60);
}

#[test]
fn failed_lookup_aborts() {
    let r = plan_reconciliation(&target(&["x"], None), &RemoteTopic::LookupFailed);
    assert_eq!(r.unwrap_err(), ReconcileError::Lookup);
}

#[test]
fn reconciling_twice_is_stable() {
    let t = target(&["x", "a"], None);
    let first = plan_reconciliation(&t, &RemoteTopic::Found(strings(&["m", "b"]))).unwrap();
    let second = plan_reconciliation(&t, &RemoteTopic::Found(subjects_of(&first))).unwrap();
    assert_eq!(subjects_of(&first), subjects_of(&second));
    assert_eq!(subjects_of(&first), strings(&["a", "b", "m", "x"]));
}

#[test]
fn reconciling_a_then_b_keeps_both() {
    let first =
        plan_reconciliation(&target(&["a1", "a2"], None), &RemoteTopic::Found(strings(&["r"])))
            .unwrap();
    let second = plan_reconciliation(&target(&["b1"], None), &RemoteTopic::Found(subjects_of(&first)))
        .unwrap();
    let s = subjects_of(&second);
    for x in ["a1", "a2", "b1", "r"] {
        assert!(s.contains(&x.to_string()));
    }
}

#[test]
fn failed_write_aborts_the_bind() {
    let create = plan_reconciliation(&target(&["x"], None), &RemoteTopic::Absent).unwrap();
    assert_eq!(create.finish(false), Err(ReconcileError::Create));
    assert_eq!(create.finish(true), Ok(()));
    let update =
        plan_reconciliation(&target(&["x"], None), &RemoteTopic::Found(Vec::new())).unwrap();
    assert_eq!(update.finish(false), Err(ReconcileError::Update));
}

#[test]
fn found_topic_is_updated_and_absent_created() {
    let t = target(&["x"], Some(5));
    assert!(matches!(
        plan_reconciliation(&t, &RemoteTopic::Found(strings(&["y"]))),
        Ok(TopicAction::Update(_))
    ));
    assert!(matches!(plan_reconciliation(&t, &RemoteTopic::Absent), Ok(TopicAction::Create(_))));
}
