//! The context shared by every task of a flow: the flow's name and labels.

use vstd::prelude::*;

verus! {

/// serde_json's object map, which flow labels are kept in as given.
#[verifier::external_type_specification]
#[verifier::external_body]
#[verifier::reject_recursive_types(K)]
#[verifier::reject_recursive_types(V)]
pub struct ExJsonMap<K, V>(serde_json::Map<K, V>);

/// serde_json's value, the type of a label.
#[verifier::external_type_specification]
#[verifier::external_body]
pub struct ExJsonValue(serde_json::Value);

#[derive(Clone, Debug, PartialEq, Eq, Structural)]
pub enum ContextError {
    MissingFlowName,
}

impl ContextError {
    /// The error as a sentence.
    pub fn message(&self) -> (r: String)
        ensures
            r@ == "Missing required attribute: flow_name"@,
    {
        String::from_str("Missing required attribute: flow_name")
    }
}

/// A flow's name and its optional labels.
#[derive(Clone, Debug)]
pub struct FlowOptions {
    pub name: String,
    pub labels: Option<serde_json::Map<String, serde_json::Value>>,
}

#[derive(Clone, Debug)]
pub struct TaskContext {
    pub flow: FlowOptions,
}

#[derive(Debug)]
pub struct TaskContextBuilder {
    pub flow_name: Option<String>,
    pub flow_labels: Option<serde_json::Map<String, serde_json::Value>>,
}

impl TaskContextBuilder {
    pub fn new() -> (r: TaskContextBuilder)
        ensures
            r.flow_name is None,
            r.flow_labels is None,
    {
        TaskContextBuilder { flow_name: None, flow_labels: None }
    }

    pub fn flow_name(self, name: String) -> (r: TaskContextBuilder)
        ensures
            r.flow_name == Some(name),
            r.flow_labels == self.flow_labels,
    {
        TaskContextBuilder { flow_name: Some(name), ..self }
    }

    pub fn flow_labels(self, labels: Option<serde_json::Map<String, serde_json::Value>>) -> (r:
        TaskContextBuilder)
        ensures
            r.flow_name == self.flow_name,
            r.flow_labels == labels,
    {
        TaskContextBuilder { flow_labels: labels, ..self }
    }

    /// Fails exactly when no flow name was given; the labels are optional.
    pub fn build(self) -> (r: Result<TaskContext, ContextError>)
        ensures
            r is Err <==> self.flow_name is None,
            r matches Err(e) ==> e == ContextError::MissingFlowName,
            r matches Ok(c) ==> Some(c.flow.name) == self.flow_name && c.flow.labels
                == self.flow_labels,
    {
        match self.flow_name {
            Some(name) => Ok(TaskContext { flow: FlowOptions { name, labels: self.flow_labels } }),
            None => Err(ContextError::MissingFlowName),
        }
    }
}

} // verus!
