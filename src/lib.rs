//! A configurable data-movement pipeline: the event model, the ordering gate that
//! lets stages share one bus, durable-log topic reconciliation, the versioned
//! cache contract and the assembly of a flow from its configured tasks.

pub mod cache;
pub mod connect;
pub mod context;
pub mod event;
pub mod flow;
pub mod naming;
pub mod stage;
pub mod store;
pub mod topic;
