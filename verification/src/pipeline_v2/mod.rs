//! The pipeline's nodes: the kinds of stage, the node trait, the worker
//! protocol and a set of demonstration nodes; and an earlier draft of the
//! pipeline scheduler.

pub mod ppl_node;
pub mod ppl_scheduler;
