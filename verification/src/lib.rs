//! A scheduler for computation graphs whose stages run on worker threads
//! connected by crossbeam channels.
//!
//! The library holds what the schedulers decide: which stages may follow which,
//! which channel endpoint each stage reads from and writes to, how a worker
//! reacts to what it receives, and how worker threads are named. Spawning and
//! joining the threads is left to the caller.

pub mod channel;
pub mod nodes;
pub mod pipeline;
pub mod pipeline_v2;
pub mod ppl_v2;
pub mod ppl_v3;
pub mod scheduler;
pub mod text;
