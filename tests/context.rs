use flowgen::context::TaskContextBuilder;
use serde_json::Value;

type JsonMap = serde_json::Map<String, Value>;

#[test]
fn test_task_context_builder_new() {
    let builder = TaskContextBuilder::new();
    assert!(builder.flow_name.is_none());
    assert!(builder.flow_labels.is_none());
}

#[test]
fn test_task_context_builder_build_success() {
    let mut labels = JsonMap::new();
    labels.insert("name".to_string(), Value::String("Test Flow".to_string()));
    labels.insert("environment".to_string(), Value::String("test".to_string()));

    let context = TaskContextBuilder::new()
        .flow_name("test-flow".to_string())
        .flow_labels(Some(labels.clone()))
        .build()
        .unwrap();

    assert_eq!(context.flow.name, "test-flow");
    assert_eq!(context.flow.labels, Some(labels));
}

#[test]
fn test_task_context_builder_missing_flow_name() {
    let mut labels = JsonMap::new();
    labels.insert("name".to_string(), Value::String("Test".to_string()));

    let result = TaskContextBuilder::new().flow_labels(Some(labels)).build();

    assert!(result.is_err());
    assert!(result
        .unwrap_err()
        .message()
        .contains("Missing required attribute: flow_name"));
}

#[test]
fn test_task_context_builder_defaults() {
    let context = TaskContextBuilder::new()
        .flow_name("default-test".to_string())
        .build()
        .unwrap();

    assert_eq!(context.flow.name, "default-test");
    assert!(context.flow.labels.is_none());
}

#[test]
fn test_task_context_builder_chain() {
    let mut labels = JsonMap::new();
    labels.insert(
        "description".to_string(),
        Value::String("Chained Builder Test".to_string()),
    );
    labels.insert("type".to_string(), Value::String("test".to_string()));

    let context = TaskContextBuilder::new()
        .flow_name("chain-test".to_string())
        .flow_labels(Some(labels.clone()))
        .build()
        .unwrap();

    assert_eq!(context.flow.name, "chain-test");
    assert_eq!(context.flow.labels, Some(labels));
}

#[test]
fn test_task_context_clone() {
    let mut labels = JsonMap::new();
    labels.insert(
        "description".to_string(),
        Value::String("Clone Test".to_string()),
    );

    let context = TaskContextBuilder::new()
        .flow_name("clone-test".to_string())
        .flow_labels(Some(labels.clone()))
        .build()
        .unwrap();

    let cloned = context.clone();
    assert_eq!(context.flow.name, cloned.flow.name);
    assert_eq!(context.flow.labels, cloned.flow.labels);
}
