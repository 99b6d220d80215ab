//! The pipeline scheduler: stages are added one after the other, each with its
//! workers and the channel it writes to, and are then started together.

use vstd::prelude::*;
use crossbeam::channel::{Receiver, Sender};
use crate::channel::{
    clone_receiver_of, clone_receiver_opt, clone_sender_of, receiver_of, sender_of, Channel,
    MAX_CHANNEL_CAPACITY,
};
use crate::pipeline_v2::ppl_node::{NodeType, TPplNode};

verus! {

/// The capacity of the channel that a stage of kind `t` writes to, if it
/// writes to one.
pub open spec fn output_capacity(t: NodeType) -> Option<usize> {
    match t {
        NodeType::Source(cap) => Some(cap),
        NodeType::Middle(cap) => Some(cap),
        NodeType::Sink => None,
    }
}

/// The kind of the last stage of `types`, if there is one.
pub open spec fn last_type(types: Seq<NodeType>) -> Option<NodeType> {
    if types.len() == 0 {
        None
    } else {
        Some(types.last())
    }
}

/// Whether a stage of kind `next` may come after a last stage `prev` (`None`:
/// there is none yet). A source may only come first, and nothing may come after
/// a sink.
pub open spec fn can_follow(prev: Option<NodeType>, next: NodeType) -> bool {
    match next {
        NodeType::Source(_) => prev is None,
        _ => prev != Some(NodeType::Sink),
    }
}

/// The shape of a pipeline: a source only as the first stage, a sink only as
/// the last.
pub open spec fn well_shaped(types: Seq<NodeType>) -> bool {
    forall|i: int|
        0 <= i < types.len() ==> (#[trigger] types[i] is Source ==> i == 0) && (types[i] is Sink
            ==> i == types.len() - 1)
}

/// Each stage of `types` may come after the stages before it.
pub open spec fn built_in_order(types: Seq<NodeType>) -> bool {
    forall|i: int|
        0 <= i < types.len() ==> can_follow(last_type(types.take(i)), #[trigger] types[i])
}

/// The channel entry of a stage of kind `t`: a channel of the capacity that the
/// kind carries for a source or a middle stage, none for a sink.
pub open spec fn entry_fits<M>(t: NodeType, e: Option<Channel<M>>) -> bool {
    match e {
        Some(c) => output_capacity(t) == Some(c.capacity()),
        None => t is Sink,
    }
}

/// One channel entry per stage, each fitting the stage's kind.
pub open spec fn channels_match<M>(types: Seq<NodeType>, channels: Seq<Option<Channel<M>>>) -> bool {
    &&& channels.len() == types.len()
    &&& forall|i: int| 0 <= i < types.len() ==> entry_fits(types[i], #[trigger] channels[i])
}

/// The receiver that the workers of stage `i` read from: none for a source, the
/// caller's `first_recv` for a first stage that is not a source, and otherwise
/// the channel of the stage before.
pub open spec fn stage_input<M>(
    types: Seq<NodeType>,
    channels: Seq<Option<Channel<M>>>,
    first_recv: Option<Receiver<M>>,
    i: int,
) -> Option<Receiver<M>> {
    if types[i] is Source {
        None
    } else if i == 0 {
        first_recv
    } else {
        receiver_of(channels[i - 1])
    }
}

/// The sender that the workers of stage `i` write to: none for a sink, the
/// stage's own channel otherwise.
pub open spec fn stage_output<M>(
    types: Seq<NodeType>,
    channels: Seq<Option<Channel<M>>>,
    i: int,
) -> Option<Sender<M>> {
    if types[i] is Sink {
        None
    } else {
        sender_of(channels[i])
    }
}

/// What comes out of the pipeline: nothing when it ends in a sink, otherwise
/// the receiver of the last stage's channel.
pub open spec fn pipeline_output<M>(types: Seq<NodeType>, channels: Seq<Option<Channel<M>>>) -> Option<
    Receiver<M>,
> {
    if types.last() is Sink {
        None
    } else {
        receiver_of(channels.last())
    }
}

/// Adding a stage that may follow the last one keeps the pipeline's shape.
proof fn lemma_push_keeps_shape(types: Seq<NodeType>, t: NodeType)
    requires
        well_shaped(types),
        can_follow(last_type(types), t),
    ensures
        well_shaped(types.push(t)),
{
    let u = types.push(t);
    assert forall|i: int| 0 <= i < u.len() implies (#[trigger] u[i] is Source ==> i == 0) && (
    u[i] is Sink ==> i == u.len() - 1) by {
        if i < types.len() {
            assert(u[i] == types[i]);
            if u[i] is Sink {
                assert(types.last() is Sink);
            }
        }
    }
}

/// The pipelines that can be built by adding stages one at a time are exactly
/// the well-shaped ones: a source only first, a sink only last.
pub proof fn lemma_built_in_order_iff_well_shaped(types: Seq<NodeType>)
    ensures
        built_in_order(types) <==> well_shaped(types),
{
    if built_in_order(types) {
        assert forall|i: int| 0 <= i < types.len() implies (#[trigger] types[i] is Source ==> i
            == 0) && (types[i] is Sink ==> i == types.len() - 1) by {
            assert(can_follow(last_type(types.take(i)), types[i]));
            if types[i] is Source && i > 0 {
                assert(last_type(types.take(i)) is Some);
            }
            if types[i] is Sink && i < types.len() - 1 {
                assert(can_follow(last_type(types.take(i + 1)), types[i + 1]));
                assert(types.take(i + 1).last() == types[i]);
            }
        }
    }
    if well_shaped(types) {
        assert forall|i: int| 0 <= i < types.len() implies can_follow(
            last_type(types.take(i)),
            #[trigger] types[i],
        ) by {
            if i > 0 {
                assert(types.take(i).last() == types[i - 1]);
                if types[i - 1] is Sink {
                    assert(i - 1 == types.len() - 1);
                }
            } else {
                assert(types.take(i).len() == 0);
            }
        }
    }
}

/// In a pipeline of the right shape, each stage after the first reads from the
/// channel that the stage before it writes to: stage `i - 1` has a channel, of
/// the capacity that its kind carries, the workers of stage `i - 1` get its
/// sender and those of stage `i` its receiver.
/// ([`PplScheduler::lemma_wf_shape`] gives the requirements for a scheduler's
/// stages and channels.)
pub proof fn lemma_consecutive_stages_connected<M>(
    types: Seq<NodeType>,
    channels: Seq<Option<Channel<M>>>,
    first_recv: Option<Receiver<M>>,
    i: int,
)
    requires
        well_shaped(types),
        channels_match(types, channels),
        0 < i < types.len(),
    ensures
        channels[i - 1] matches Some(c) && {
            &&& output_capacity(types[i - 1]) == Some(c.capacity())
            &&& stage_output(types, channels, i - 1) == Some(c.sender_end())
            &&& stage_input(types, channels, first_recv, i) == Some(c.receiver_end())
        },
{
    assert(entry_fits(types[i - 1], channels[i - 1]));
    assert(!(types[i - 1] is Sink));
    assert(!(types[i] is Source));
}

/// What comes out of a pipeline that does not end in a sink is what its last
/// stage writes: the receiver of the last stage's channel.
pub proof fn lemma_output_is_last_stage_channel<M>(
    types: Seq<NodeType>,
    channels: Seq<Option<Channel<M>>>,
)
    requires
        channels_match(types, channels),
        types.len() > 0,
        !(types[types.len() - 1] is Sink),
    ensures
        channels[types.len() - 1] matches Some(c) && pipeline_output(types, channels) == Some(
            c.receiver_end(),
        ) && stage_output(types, channels, types.len() - 1) == Some(c.sender_end()),
{
    let k = types.len() - 1;
    assert(entry_fits(types[k], channels[k]));
    assert(channels.last() == channels[k]);
}

/// Each source or middle stage has a channel of exactly the capacity that its
/// kind was given; a sink has none.
pub proof fn lemma_channel_capacity<M>(types: Seq<NodeType>, channels: Seq<Option<Channel<M>>>, i: int)
    requires
        channels_match(types, channels),
        0 <= i < types.len(),
    ensures
        types[i] matches NodeType::Source(cap) ==> (channels[i] matches Some(c) && c.capacity()
            == cap),
        types[i] matches NodeType::Middle(cap) ==> (channels[i] matches Some(c) && c.capacity()
            == cap),
        types[i] is Sink ==> channels[i] is None,
{
    assert(entry_fits(types[i], channels[i]));
}

/// The first stage reads from nothing if it is a source and from the caller's
/// receiver otherwise; a sink writes nowhere, and any other stage writes to its
/// own channel.
pub proof fn lemma_stage_ends<M>(
    types: Seq<NodeType>,
    channels: Seq<Option<Channel<M>>>,
    first_recv: Option<Receiver<M>>,
    i: int,
)
    requires
        channels_match(types, channels),
        0 <= i < types.len(),
    ensures
        types[0] is Source ==> stage_input(types, channels, first_recv, 0) is None,
        !(types[0] is Source) ==> stage_input(types, channels, first_recv, 0) == first_recv,
        types[i] is Sink ==> stage_output(types, channels, i) is None,
        !(types[i] is Sink) ==> (channels[i] matches Some(c) && stage_output(types, channels, i)
            == Some(c.sender_end())),
{
    assert(entry_fits(types[i], channels[i]));
}

/// A pipeline hands out a receiver at its end exactly when its last stage is not
/// a sink.
pub proof fn lemma_output_iff_no_sink<M>(types: Seq<NodeType>, channels: Seq<Option<Channel<M>>>)
    requires
        channels_match(types, channels),
        types.len() > 0,
    ensures
        pipeline_output(types, channels) is Some <==> !(types.last() is Sink),
{
    let k = types.len() - 1;
    assert(channels.last() == channels[k]);
    assert(types.last() == types[k]);
    assert(entry_fits(types[k], channels[k]));
}

/// Why a stage cannot be added to a pipeline.
#[derive(Debug, Clone, Copy, PartialEq, Eq, Structural)]
pub enum AddStageError {
    /// The pipeline has been started already.
    Started,
    /// A source can only be the first stage.
    SourceNotFirst,
    /// Nothing can come after a sink.
    AfterSink,
    /// The capacity is above [`MAX_CHANNEL_CAPACITY`].
    CapacityTooLarge,
}

/// Why a pipeline cannot be started.
#[derive(Debug, Clone, Copy, PartialEq, Eq, Structural)]
pub enum StartError {
    /// The pipeline has been started already.
    Started,
    /// The pipeline has no stage.
    Empty,
    /// The first stage is not a source and no receiver was given for it.
    MissingFirstReceiver,
}

/// The stages of one kind and their place, handed to whoever starts their
/// workers: each node of `nodes` is one worker, reading from `receiver` and
/// writing to `sender`.
pub struct StageLaunch<N: TPplNode> {
    pub nodes: Vec<N>,
    pub receiver: Option<Receiver<N::MsgType>>,
    pub sender: Option<Sender<N::MsgType>>,
}

/// A pipeline of stages of workers of type `N`.
#[verifier::reject_recursive_types(N)]
pub struct PplScheduler<N: TPplNode> {
    // `None` once the pipeline has started: the nodes have been handed out.
    nodes: Option<Vec<Vec<N>>>,
    send_recvs: Vec<Option<Channel<N::MsgType>>>,
    node_types: Vec<NodeType>,
    prev_node_type: Option<NodeType>,
}

impl<N: TPplNode> PplScheduler<N> {
    /// The kinds of the stages added so far, in order.
    pub closed spec fn stage_types(&self) -> Seq<NodeType> {
        self.node_types@
    }

    /// The workers of the stages added so far, in order; none once started.
    pub closed spec fn stages(&self) -> Seq<Vec<N>> {
        match self.nodes {
            Some(v) => v@,
            None => Seq::empty(),
        }
    }

    /// The channel of each stage; none once started.
    pub closed spec fn channels(&self) -> Seq<Option<Channel<N::MsgType>>> {
        self.send_recvs@
    }

    /// Whether the pipeline has been started.
    pub closed spec fn is_started(&self) -> bool {
        self.nodes is None
    }

    /// The scheduler's own invariant: the stages form a pipeline of the right
    /// shape, and before the start each stage has its workers and its channel.
    pub closed spec fn wf(&self) -> bool {
        &&& self.prev_node_type == last_type(self.node_types@)
        &&& well_shaped(self.node_types@)
        &&& match self.nodes {
            Some(v) => v@.len() == self.node_types@.len() && channels_match(
                self.node_types@,
                self.send_recvs@,
            ),
            None => self.send_recvs@.len() == 0,
        }
    }

    /// What the scheduler's invariant says of its public view: the stages form a
    /// pipeline of the right shape, and before the start there is one set of
    /// workers per stage and one channel per stage but a sink, of the capacity
    /// that the stage's kind carries.
    pub proof fn lemma_wf_shape(&self)
        requires
            self.wf(),
        ensures
            well_shaped(self.stage_types()),
            !self.is_started() ==> self.stages().len() == self.stage_types().len(),
            !self.is_started() ==> channels_match(self.stage_types(), self.channels()),
    {
    }

    /// A pipeline without stages, not started.
    pub fn new() -> (s: Self)
        ensures
            s.wf(),
            !s.is_started(),
            s.stage_types() == Seq::<NodeType>::empty(),
            s.stages() == Seq::<Vec<N>>::empty(),
    {
        PplScheduler {
            nodes: Some(Vec::new()),
            send_recvs: Vec::new(),
            node_types: Vec::new(),
            prev_node_type: None,
        }
    }

    /// Whether the pipeline has been started.
    pub fn started(&self) -> (r: bool)
        ensures
            r == self.is_started(),
    {
        self.nodes.is_none()
    }

    /// The kinds of the stages added so far, in order.
    pub fn node_types(&self) -> (r: &Vec<NodeType>)
        ensures
            r@ == self.stage_types(),
    {
        &self.node_types
    }

    /// Whether a stage of kind `node_type` can be added now, and if not, why.
    pub fn check_add(&self, node_type: NodeType) -> (r: Result<(), AddStageError>)
        requires
            self.wf(),
        ensures
            r is Ok <==> (!self.is_started() && can_follow(last_type(self.stage_types()), node_type)
                && (output_capacity(node_type) matches Some(cap) ==> cap <= MAX_CHANNEL_CAPACITY)),
            r == Err::<(), AddStageError>(AddStageError::Started) <==> self.is_started(),
            r == Err::<(), AddStageError>(AddStageError::SourceNotFirst) <==> (!self.is_started()
                && node_type is Source && self.stage_types().len() > 0),
            r == Err::<(), AddStageError>(AddStageError::AfterSink) <==> (!self.is_started()
                && !(node_type is Source) && last_type(self.stage_types()) == Some(NodeType::Sink)),
            r == Err::<(), AddStageError>(AddStageError::CapacityTooLarge) <==> (!self.is_started()
                && can_follow(last_type(self.stage_types()), node_type) && (output_capacity(
                node_type,
            ) matches Some(cap) && cap > MAX_CHANNEL_CAPACITY)),
    {
        if self.nodes.is_none() {
            return Err(AddStageError::Started);
        }
        match node_type {
            NodeType::Source(cap) => {
                if self.prev_node_type.is_some() {
                    Err(AddStageError::SourceNotFirst)
                } else if cap > MAX_CHANNEL_CAPACITY {
                    Err(AddStageError::CapacityTooLarge)
                } else {
                    Ok(())
                }
            },
            NodeType::Middle(cap) => {
                if self.prev_node_type == Some(NodeType::Sink) {
                    Err(AddStageError::AfterSink)
                } else if cap > MAX_CHANNEL_CAPACITY {
                    Err(AddStageError::CapacityTooLarge)
                } else {
                    Ok(())
                }
            },
            NodeType::Sink => {
                if self.prev_node_type == Some(NodeType::Sink) {
                    Err(AddStageError::AfterSink)
                } else {
                    Ok(())
                }
            },
        }
    }

    /// Whether the pipeline can be started now, with a receiver for its first
    /// stage given or not (`has_first_recv`), and if not, why.
    pub fn check_start(&self, has_first_recv: bool) -> (r: Result<(), StartError>)
        requires
            self.wf(),
        ensures
            r is Ok <==> (!self.is_started() && self.stage_types().len() > 0 && (!(
            self.stage_types()[0] is Source) ==> has_first_recv)),
            r == Err::<(), StartError>(StartError::Started) <==> self.is_started(),
            r == Err::<(), StartError>(StartError::Empty) <==> (!self.is_started()
                && self.stage_types().len() == 0),
            r == Err::<(), StartError>(StartError::MissingFirstReceiver) <==> (!self.is_started()
                && self.stage_types().len() > 0 && !(self.stage_types()[0] is Source)
                && !has_first_recv),
    {
        if self.nodes.is_none() {
            Err(StartError::Started)
        } else if self.node_types.len() == 0 {
            Err(StartError::Empty)
        } else {
            match self.node_types[0] {
                NodeType::Source(_) => Ok(()),
                _ => if has_first_recv {
                    Ok(())
                } else {
                    Err(StartError::MissingFirstReceiver)
                },
            }
        }
    }

    /// Adds a stage of kind `node_type` whose workers are `nodes`, after the
    /// stages added so far. A source or middle stage gets a new channel of the
    /// capacity that its kind carries, to write to; a sink gets none.
    ///
    /// Only the first stage may be a source, and nothing may be added after a
    /// sink.
    pub fn add_single_worker_nodes(&mut self, node_type: NodeType, nodes: Vec<N>)
        requires
            old(self).wf(),
            !old(self).is_started(),
            can_follow(last_type(old(self).stage_types()), node_type),
            output_capacity(node_type) matches Some(cap) ==> cap <= MAX_CHANNEL_CAPACITY,
        ensures
            final(self).wf(),
            !final(self).is_started(),
            final(self).stage_types() == old(self).stage_types().push(node_type),
            final(self).stages() == old(self).stages().push(nodes),
            final(self).channels().len() == old(self).channels().len() + 1,
            forall|i: int|
                0 <= i < old(self).channels().len() ==> #[trigger] final(self).channels()[i]
                    == old(self).channels()[i],
            entry_fits(node_type, final(self).channels().last()),
    {
        let ghost old_types = self.node_types@;
        let mut all = self.nodes.take().unwrap();
        all.push(nodes);
        self.nodes = Some(all);
        match node_type {
            NodeType::Source(cap) => {
                self.send_recvs.push(Some(Channel::bounded(cap)));
            },
            NodeType::Middle(cap) => {
                self.send_recvs.push(Some(Channel::bounded(cap)));
            },
            NodeType::Sink => {
                self.send_recvs.push(None);
            },
        }
        self.prev_node_type = Some(node_type);
        self.node_types.push(node_type);
        proof {
            lemma_push_keeps_shape(old_types, node_type);
            let types = self.node_types@;
            let chans = self.send_recvs@;
            assert forall|i: int| 0 <= i < types.len() implies entry_fits(
                types[i],
                #[trigger] chans[i],
            ) by {
                if i < old_types.len() {
                    assert(types[i] == old_types[i]);
                }
            }
        }
    }

    /// Starts the pipeline: hands out each stage's workers together with the
    /// receiver they read from and the sender they write to, and returns them in
    /// the order of the stages, with the receiver at the end of the pipeline
    /// unless it ends in a sink. A first stage that is not a source reads from
    /// `first_recv`.
    pub fn start(&mut self, first_recv: Option<Receiver<N::MsgType>>) -> (r: (
        Vec<StageLaunch<N>>,
        Option<Receiver<N::MsgType>>,
    ))
        requires
            old(self).wf(),
            !old(self).is_started(),
            old(self).stage_types().len() > 0,
            !(old(self).stage_types()[0] is Source) ==> first_recv is Some,
        ensures
            final(self).wf(),
            final(self).is_started(),
            final(self).stage_types() == old(self).stage_types(),
            final(self).channels().len() == 0,
            r.0@.len() == old(self).stage_types().len(),
            forall|i: int|
                0 <= i < r.0@.len() ==> {
                    &&& (#[trigger] r.0@[i]).nodes == old(self).stages()[i]
                    &&& r.0@[i].receiver == stage_input(
                        old(self).stage_types(),
                        old(self).channels(),
                        first_recv,
                        i,
                    )
                    &&& r.0@[i].sender == stage_output(
                        old(self).stage_types(),
                        old(self).channels(),
                        i,
                    )
                },
            r.1 == pipeline_output(old(self).stage_types(), old(self).channels()),
            !(old(self).stage_types().last() is Sink) ==> r.1 == receiver_of(
                old(self).channels()[old(self).stage_types().len() - 1],
            ),
            r.1 is Some <==> !(old(self).stage_types().last() is Sink),
            forall|i: int|
                0 <= i < r.0@.len() ==> {
                    &&& (#[trigger] r.0@[i]).receiver is Some == !(
                    old(self).stage_types()[i] is Source)
                    &&& r.0@[i].sender is Some == !(old(self).stage_types()[i] is Sink)
                },
    {
        let ghost old_stages = self.stages();
        let ghost types = self.node_types@;
        let ghost chans = self.send_recvs@;
        let mut stages = self.nodes.take().unwrap();
        let n = self.node_types.len();
        let mut launches: Vec<StageLaunch<N>> = Vec::new();
        let mut idx: usize = 0;
        while idx < n
            invariant
                n == types.len(),
                self.node_types@ == types,
                self.send_recvs@ == chans,
                channels_match(types, chans),
                old_stages.len() == n,
                idx <= n,
                stages@ == old_stages.subrange(idx as int, n as int),
                launches@.len() == idx,
                !(types[0] is Source) ==> first_recv is Some,
                forall|i: int|
                    0 <= i < idx ==> {
                        &&& (#[trigger] launches@[i]).nodes == old_stages[i]
                        &&& launches@[i].receiver == stage_input(types, chans, first_recv, i)
                        &&& launches@[i].sender == stage_output(types, chans, i)
                    },
            decreases n - idx,
        {
            let single = stages.remove(0);
            let receiver = match self.node_types[idx] {
                NodeType::Source(_) => None,
                _ => if idx > 0 {
                    clone_receiver_of(&self.send_recvs[idx - 1])
                } else {
                    clone_receiver_opt(&first_recv)
                },
            };
            let sender = match self.node_types[idx] {
                NodeType::Sink => None,
                _ => clone_sender_of(&self.send_recvs[idx]),
            };
            launches.push(StageLaunch { nodes: single, receiver, sender });
            idx = idx + 1;
        }
        let last_recv = match self.node_types[n - 1] {
            NodeType::Sink => None,
            _ => clone_receiver_of(&self.send_recvs[n - 1]),
        };
        proof {
            lemma_output_iff_no_sink(types, chans);
            assert forall|i: int| 0 <= i < launches@.len() implies {
                &&& (#[trigger] launches@[i]).receiver is Some == !(types[i] is Source)
                &&& launches@[i].sender is Some == !(types[i] is Sink)
            } by {
                assert(entry_fits(types[i], chans[i]));
                if i > 0 {
                    assert(entry_fits(types[i - 1], chans[i - 1]));
                    if types[i - 1] is Sink {
                        assert(i - 1 == types.len() - 1);
                    }
                }
            }
        }
        self.send_recvs = Vec::new();
        (launches, last_recv)
    }
}

} // verus!
