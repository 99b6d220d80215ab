//! An early form of the pipeline node, whose workers are handed their channel
//! endpoints directly.

use vstd::prelude::*;
use crossbeam::channel::{Receiver, Sender};

verus! {

/// A pipeline node whose work depends on its place in the pipeline. Each kind
/// of work does nothing unless the node overrides it.
pub trait TPplNode {
    type Value;

    /// The work of a middle stage's worker number `thread_idx`.
    fn work_middle(&self, thread_idx: usize, recv: Receiver<Self::Value>, send: Sender<Self::Value>) {
    }

    /// The work of a sink's worker number `thread_idx`.
    fn work_sink(&self, thread_idx: usize, recv: Receiver<Self::Value>) {
    }

    /// The work of a source's worker number `thread_idx`.
    fn work_source(&self, thread_idx: usize, send: Sender<Self::Value>) {
    }
}

} // verus!
