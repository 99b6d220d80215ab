//! The typed pipeline: a pipeline is built stage by stage, from an initial
//! stage through middle stages to a sink, each stage on its own worker
//! threads. The markers below are the types of a pipeline before its first
//! stage and after its sink; the functions compute what each stage is given.

use vstd::prelude::*;
use std::marker::PhantomData;
use std::rc::Rc;
use crate::channel::{Channel, MAX_CHANNEL_CAPACITY};
use crate::text::{indexed_name, indexed_thread_name};

verus! {

/// The type of a pipeline that has no stage yet. It is neither `Send` nor
/// `Sync`, so that no stage can read from such a pipeline.
pub struct Source(PhantomData<Rc<()>>);

/// The type of a pipeline that ends in a sink. It is neither `Send` nor
/// `Sync`, so that no stage can be added after a sink.
pub struct Sink(PhantomData<Rc<()>>);

/// The names of the worker threads of a stage called `name` that runs on
/// `threads` threads: `name`, `_` and the thread's number, from zero.
pub fn stage_thread_names(name: &str, threads: usize) -> (r: Vec<String>)
    ensures
        r@.len() == threads,
        forall|i: int| 0 <= i < threads ==> #[trigger] r@[i]@ == indexed_name(name@, "_"@, i as nat),
{
    let mut r: Vec<String> = Vec::new();
    let mut i: usize = 0;
    while i < threads
        invariant
            i <= threads,
            r@.len() == i,
            forall|k: int| 0 <= k < i ==> #[trigger] r@[k]@ == indexed_name(name@, "_"@, k as nat),
        decreases threads - i,
    {
        r.push(indexed_thread_name(name, "_", i));
        i = i + 1;
    }
    r
}

/// Why a stage's channel cannot be created.
#[derive(Debug, Clone, Copy, PartialEq, Eq, Structural)]
pub enum StageChannelError {
    /// No capacity was given; every stage but a sink needs one.
    NoCapacity,
    /// The capacity is above [`MAX_CHANNEL_CAPACITY`].
    CapacityTooLarge,
}

/// The channel that a stage which is not a sink writes to: a new channel of
/// capacity `cap`. It cannot be made without a capacity, or with one above
/// [`MAX_CHANNEL_CAPACITY`].
pub fn stage_channel<S>(cap: Option<usize>) -> (r: Result<Channel<S>, StageChannelError>)
    ensures
        r is Ok <==> (cap matches Some(c) && c <= MAX_CHANNEL_CAPACITY),
        r matches Ok(ch) ==> cap == Some(ch.capacity()),
        r matches Err(e) ==> (e == StageChannelError::NoCapacity <==> cap is None),
{
    match cap {
        Some(c) => if c <= MAX_CHANNEL_CAPACITY {
            Ok(Channel::bounded(c))
        } else {
            Err(StageChannelError::CapacityTooLarge)
        },
        None => Err(StageChannelError::NoCapacity),
    }
}

} // verus!
