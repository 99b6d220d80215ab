//! An earlier draft of the pipeline scheduler, in which the source is fed by
//! the caller and every later stage, the sink included, writes to a channel of
//! its own.

use vstd::prelude::*;
use crate::channel::{Channel, MAX_CHANNEL_CAPACITY};
use crate::pipeline_v2::ppl_node::TPplNode;

verus! {

/// The kind of a stage in the draft scheduler. `Middle` and `Sink` carry the
/// capacity of the channel that the stage writes to; the source writes to no
/// channel of its own.
#[derive(Debug, Clone, Copy, PartialEq, Eq, Structural)]
pub enum NodeType {
    Source,
    Middle(usize),
    Sink(usize),
}

/// Whether a stage of kind `next` may be added after `count` stages, the last
/// of kind `prev`: the source only as the first stage, a middle stage not
/// right after a sink, a sink not as the first stage.
pub open spec fn draft_can_follow(count: nat, prev: Option<NodeType>, next: NodeType) -> bool {
    match next {
        NodeType::Source => count == 0,
        NodeType::Middle(_) => !(prev matches Some(NodeType::Sink(_))),
        NodeType::Sink(_) => count > 0,
    }
}

/// The capacity of the channel that a stage of kind `t` writes to, if any.
pub open spec fn draft_output_capacity(t: NodeType) -> Option<usize> {
    match t {
        NodeType::Source => None,
        NodeType::Middle(cap) => Some(cap),
        NodeType::Sink(cap) => Some(cap),
    }
}

/// The channel entry of a stage of kind `t` in the draft: a channel of the
/// capacity that the kind carries for a middle stage or a sink, none for the
/// source.
pub open spec fn draft_entry_fits<M>(t: NodeType, e: Option<Channel<M>>) -> bool {
    match e {
        Some(c) => draft_output_capacity(t) == Some(c.capacity()),
        None => t is Source,
    }
}

/// In the draft, a middle stage or a sink gets a channel of exactly the
/// capacity its kind was given, and the source gets none.
pub proof fn lemma_draft_entry_capacity<M>(t: NodeType, e: Option<Channel<M>>)
    requires
        draft_entry_fits(t, e),
    ensures
        t matches NodeType::Middle(cap) ==> (e matches Some(c) && c.capacity() == cap),
        t matches NodeType::Sink(cap) ==> (e matches Some(c) && c.capacity() == cap),
        t is Source ==> e is None,
{
}

/// A pipeline of stages of workers of type `N`, in the draft form.
#[verifier::reject_recursive_types(N)]
pub struct PplScheduler<N: TPplNode> {
    nodes: Vec<Vec<N>>,
    send_recvs: Vec<Option<Channel<N::MsgType>>>,
    node_types: Vec<NodeType>,
    prev_node_type: Option<NodeType>,
}

impl<N: TPplNode> PplScheduler<N> {
    /// The kinds of the stages added so far, in order.
    pub closed spec fn stage_types(&self) -> Seq<NodeType> {
        self.node_types@
    }

    /// The workers of the stages added so far, in order.
    pub closed spec fn stages(&self) -> Seq<Vec<N>> {
        self.nodes@
    }

    /// The channel of each stage.
    pub closed spec fn channels(&self) -> Seq<Option<Channel<N::MsgType>>> {
        self.send_recvs@
    }

    /// The scheduler's own invariant: one entry per stage in each list, the last
    /// kind remembered, and a channel of the capacity that its kind carries for
    /// each stage but the source.
    pub closed spec fn wf(&self) -> bool {
        &&& self.nodes@.len() == self.node_types@.len()
        &&& self.send_recvs@.len() == self.node_types@.len()
        &&& self.prev_node_type == (if self.node_types@.len() == 0 {
            None
        } else {
            Some(self.node_types@.last())
        })
        &&& forall|i: int|
            0 <= i < self.node_types@.len() ==> draft_entry_fits(
                self.node_types@[i],
                #[trigger] self.send_recvs@[i],
            )
    }

    /// A pipeline without stages.
    pub fn new() -> (s: Self)
        ensures
            s.wf(),
            s.stage_types() == Seq::<NodeType>::empty(),
            s.stages() == Seq::<Vec<N>>::empty(),
    {
        PplScheduler {
            nodes: Vec::new(),
            send_recvs: Vec::new(),
            node_types: Vec::new(),
            prev_node_type: None,
        }
    }

    /// Adds a stage of kind `node_type` whose workers are `nodes`. A middle stage
    /// or a sink gets a new channel of the capacity its kind carries; the source
    /// gets none.
    pub fn add_single_worker_nodes(&mut self, node_type: NodeType, nodes: Vec<N>)
        requires
            old(self).wf(),
            draft_can_follow(
                old(self).stage_types().len(),
                if old(self).stage_types().len() == 0 {
                    None
                } else {
                    Some(old(self).stage_types().last())
                },
                node_type,
            ),
            draft_output_capacity(node_type) matches Some(cap) ==> cap <= MAX_CHANNEL_CAPACITY,
        ensures
            final(self).wf(),
            final(self).stage_types() == old(self).stage_types().push(node_type),
            final(self).stages() == old(self).stages().push(nodes),
            final(self).channels().len() == old(self).channels().len() + 1,
            forall|i: int|
                0 <= i < old(self).channels().len() ==> #[trigger] final(self).channels()[i]
                    == old(self).channels()[i],
            draft_entry_fits(node_type, final(self).channels().last()),
    {
        let ghost old_types = self.node_types@;
        match node_type {
            NodeType::Source => {
                self.nodes.push(nodes);
                self.send_recvs.push(None);
            },
            NodeType::Middle(cap) => {
                self.nodes.push(nodes);
                self.send_recvs.push(Some(Channel::bounded(cap)));
            },
            NodeType::Sink(cap) => {
                self.nodes.push(nodes);
                self.send_recvs.push(Some(Channel::bounded(cap)));
            },
        }
        self.prev_node_type = Some(node_type);
        self.node_types.push(node_type);
        proof {
            let types = self.node_types@;
            assert forall|i: int| 0 <= i < types.len() implies draft_entry_fits(
                types[i],
                #[trigger] self.send_recvs@[i],
            ) by {
                if i < old_types.len() {
                    assert(types[i] == old_types[i]);
                }
            }
        }
    }

    /// Checks that the pipeline is complete, from a source at the front to a
    /// sink at the back; in this draft, starting does nothing more.
    pub fn start(&mut self)
        requires
            old(self).wf(),
            old(self).stage_types().len() > 0,
            old(self).stage_types()[0] is Source,
            old(self).stage_types().last() is Sink,
        ensures
            *final(self) == *old(self),
    {
    }
}

} // verus!
