//! The crossbeam channels of the schedulers: their endpoints, and the bounded
//! channels that the schedulers create.

use vstd::prelude::*;

verus! {

/// Crossbeam's sending endpoint, carried through the schedulers as an opaque value.
#[verifier::external_type_specification]
#[verifier::external_body]
#[verifier::reject_recursive_types(T)]
pub struct ExSender<T>(crossbeam::channel::Sender<T>);

/// Crossbeam's receiving endpoint, carried through the schedulers as an opaque value.
#[verifier::external_type_specification]
#[verifier::external_body]
#[verifier::reject_recursive_types(T)]
pub struct ExReceiver<T>(crossbeam::channel::Receiver<T>);

/// The largest capacity that a channel can be created with.
///
/// `crossbeam::channel::bounded` computes `(cap + 1).next_power_of_two() * 2`
/// in its index type with checked arithmetic and panics when that overflows.
/// Where the index type is `usize`, this happens exactly above this bound;
/// where it is `u64` (targets with 64-bit atomics), not below it. The memory
/// for `cap` slots, which the channel allocates up front, is a machine limit
/// that is left aside.
pub const MAX_CHANNEL_CAPACITY: usize = usize::MAX / 4;

/// A bounded channel: the two endpoints that one call of
/// `crossbeam::channel::bounded` returned, and the capacity it was called with.
///
/// The fields are private and [`Channel::bounded`] is the only code that builds
/// a `Channel`, so the sender and the receiver of a `Channel` are always the two
/// ends of one channel, of the capacity that [`Channel::capacity`] gives.
#[verifier::reject_recursive_types(T)]
pub struct Channel<T> {
    sender: crossbeam::channel::Sender<T>,
    receiver: crossbeam::channel::Receiver<T>,
    capacity: usize,
}

impl<T> Channel<T> {
    /// The sending end of the channel.
    pub closed spec fn sender_end(&self) -> crossbeam::channel::Sender<T> {
        self.sender
    }

    /// The receiving end of the channel.
    pub closed spec fn receiver_end(&self) -> crossbeam::channel::Receiver<T> {
        self.receiver
    }

    /// How many messages the channel holds at most (none for a zero capacity:
    /// then a send waits for a receive).
    pub closed spec fn capacity(&self) -> usize {
        self.capacity
    }

    /// A new channel that holds at most `cap` messages, made by
    /// `crossbeam::channel::bounded(cap)`.
    ///
    /// The contract claims of that call that it returns when `cap` is within
    /// [`MAX_CHANNEL_CAPACITY`], where crossbeam's capacity arithmetic does not
    /// overflow, and that the sender and the receiver it returns are the two
    /// ends of one new channel of capacity `cap`; the body keeps them together
    /// with `cap`.
    #[verifier::external_body]
    pub(crate) fn bounded(cap: usize) -> (r: Self)
        requires
            cap <= MAX_CHANNEL_CAPACITY,
        ensures
            r.capacity() == cap,
    {
        let (sender, receiver) = crossbeam::channel::bounded(cap);
        Channel { sender, receiver, capacity: cap }
    }

    /// The sending end of the channel.
    pub fn sender(&self) -> (r: &crossbeam::channel::Sender<T>)
        ensures
            *r == self.sender_end(),
    {
        &self.sender
    }

    /// The receiving end of the channel.
    pub fn receiver(&self) -> (r: &crossbeam::channel::Receiver<T>)
        ensures
            *r == self.receiver_end(),
    {
        &self.receiver
    }

    /// The capacity of the channel.
    pub fn cap(&self) -> (r: usize)
        ensures
            r == self.capacity(),
    {
        self.capacity
    }

    /// The two ends of the channel, sender first.
    pub fn into_ends(self) -> (r: (crossbeam::channel::Sender<T>, crossbeam::channel::Receiver<T>))
        ensures
            r.0 == self.sender_end(),
            r.1 == self.receiver_end(),
    {
        (self.sender, self.receiver)
    }
}

/// The sender of a channel, if there is a channel.
pub open spec fn sender_of<T>(e: Option<Channel<T>>) -> Option<crossbeam::channel::Sender<T>> {
    match e {
        Some(c) => Some(c.sender_end()),
        None => None,
    }
}

/// The receiver of a channel, if there is a channel.
pub open spec fn receiver_of<T>(e: Option<Channel<T>>) -> Option<crossbeam::channel::Receiver<T>> {
    match e {
        Some(c) => Some(c.receiver_end()),
        None => None,
    }
}

/// `Clone::clone` of a crossbeam sender: it increments the channel's sender count
/// and returns a sender that holds the same channel pointer, so the clone is the
/// same value as the sender it was cloned from.
pub assume_specification<T>[ <crossbeam::channel::Sender<T> as Clone>::clone ](
    s: &crossbeam::channel::Sender<T>,
) -> (r: crossbeam::channel::Sender<T>)
    ensures
        r == *s,
;

/// `Clone::clone` of a crossbeam receiver: it increments the channel's receiver
/// count and returns a receiver that holds the same channel pointer, so the clone
/// is the same value as the receiver it was cloned from.
pub assume_specification<T>[ <crossbeam::channel::Receiver<T> as Clone>::clone ](
    r: &crossbeam::channel::Receiver<T>,
) -> (c: crossbeam::channel::Receiver<T>)
    ensures
        c == *r,
;

/// A copy of an optional receiver: `None` stays `None`, a receiver is cloned.
pub fn clone_receiver_opt<T>(r: &Option<crossbeam::channel::Receiver<T>>) -> (c: Option<
    crossbeam::channel::Receiver<T>,
>)
    ensures
        c == *r,
{
    match r {
        Some(x) => Some(x.clone()),
        None => None,
    }
}

/// A copy of the sender of a channel, if there is a channel.
pub fn clone_sender_of<T>(e: &Option<Channel<T>>) -> (r: Option<crossbeam::channel::Sender<T>>)
    ensures
        r == sender_of(*e),
{
    match e {
        Some(c) => Some(c.sender().clone()),
        None => None,
    }
}

/// A copy of the receiver of a channel, if there is a channel.
pub fn clone_receiver_of<T>(e: &Option<Channel<T>>) -> (r: Option<crossbeam::channel::Receiver<T>>)
    ensures
        r == receiver_of(*e),
{
    match e {
        Some(c) => Some(c.receiver().clone()),
        None => None,
    }
}

} // verus!
