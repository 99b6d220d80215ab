//! The pipeline scheduler: stages of workers connected in a line by bounded
//! channels.

pub mod ppl_node;
pub mod ppl_scheduler;
