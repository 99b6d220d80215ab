//! Nodes of a computation graph: each reads from the outputs of the nodes it
//! depends on and runs a number of workers.

use vstd::prelude::*;
use crossbeam::channel::{Receiver, Sender};
use crate::channel::{Channel, MAX_CHANNEL_CAPACITY};

verus! {

/// A node of the graph that [`crate::scheduler::Scheduler`] wires up.
///
/// Users implement it, or take [`CommonNode`]. The spec functions describe what
/// the scheduler relies on:
/// the node's name, the receivers it offers to later nodes (`outputs`), the
/// receivers it reads from (`inputs`) and its senders. Starting the workers of a
/// node spawns threads and is left to the caller.
pub trait TNode {
    /// The type of the messages that the node's channels carry.
    type Comm;

    /// The name under which the scheduler registers the node.
    spec fn spec_name(&self) -> Seq<char>;

    /// The receivers that later nodes may read from.
    spec fn spec_outputs(&self) -> Seq<Receiver<Self::Comm>>;

    /// The receivers that this node's workers read from.
    spec fn spec_inputs(&self) -> Seq<Receiver<Self::Comm>>;

    /// The senders that this node's workers write to.
    spec fn spec_senders(&self) -> Seq<Sender<Self::Comm>>;

    /// How many workers the node runs.
    spec fn spec_num_workers(&self) -> usize;

    fn name(&self) -> (r: &str)
        ensures
            r@ == self.spec_name(),
    ;

    fn outputs(&self) -> (r: &Vec<Receiver<Self::Comm>>)
        ensures
            r@ == self.spec_outputs(),
    ;

    fn outputs_mut(&mut self) -> (r: &mut Vec<Receiver<Self::Comm>>)
        ensures
            r@ == old(self).spec_outputs(),
            final(self).spec_outputs() == final(r)@,
            final(self).spec_name() == old(self).spec_name(),
            final(self).spec_num_workers() == old(self).spec_num_workers(),
            final(self).spec_inputs() == old(self).spec_inputs(),
            final(self).spec_senders() == old(self).spec_senders(),
    ;

    /// Makes `recv` one more input of the node.
    fn add_input(&mut self, recv: &Receiver<Self::Comm>)
        ensures
            final(self).spec_inputs() == old(self).spec_inputs().push(*recv),
            final(self).spec_name() == old(self).spec_name(),
            final(self).spec_num_workers() == old(self).spec_num_workers(),
            final(self).spec_outputs() == old(self).spec_outputs(),
            final(self).spec_senders() == old(self).spec_senders(),
    ;

    fn inputs(&self) -> (r: &Vec<Receiver<Self::Comm>>)
        ensures
            r@ == self.spec_inputs(),
    ;

    fn inputs_mut(&mut self) -> (r: &Vec<Receiver<Self::Comm>>)
        ensures
            r@ == old(self).spec_inputs(),
            final(self).spec_inputs() == old(self).spec_inputs(),
            final(self).spec_name() == old(self).spec_name(),
            final(self).spec_num_workers() == old(self).spec_num_workers(),
            final(self).spec_outputs() == old(self).spec_outputs(),
            final(self).spec_senders() == old(self).spec_senders(),
    ;

    fn senders(&self) -> (r: &Vec<Sender<Self::Comm>>)
        ensures
            r@ == self.spec_senders(),
    ;

    fn senders_mut(&mut self) -> (r: &mut Vec<Sender<Self::Comm>>)
        ensures
            r@ == old(self).spec_senders(),
            final(self).spec_senders() == final(r)@,
            final(self).spec_name() == old(self).spec_name(),
            final(self).spec_num_workers() == old(self).spec_num_workers(),
            final(self).spec_inputs() == old(self).spec_inputs(),
            final(self).spec_outputs() == old(self).spec_outputs(),
    ;

    /// The work of one worker of the node, on its own copies of the node's
    /// inputs and senders.
    fn work(&self, receivers: Vec<Receiver<Self::Comm>>, senders: Vec<Sender<Self::Comm>>);

    /// How many workers the node runs.
    fn num_workers(&self) -> (r: usize)
        ensures
            r == self.spec_num_workers(),
    ;
}

/// A node given by its name, its number of workers, the capacities of its
/// output channels and the work of each worker.
///
/// Each output channel is created with the node: the node keeps its sender,
/// which the workers write to, and offers its receiver to later nodes.
#[verifier::reject_recursive_types(Comm)]
pub struct CommonNode<Comm, F: Fn(Vec<Receiver<Comm>>, Vec<Sender<Comm>>)> {
    name: String,
    num_workers: usize,
    outputs: Vec<Receiver<Comm>>,
    inputs: Vec<Receiver<Comm>>,
    senders: Vec<Sender<Comm>>,
    work_fn: WorkFn<Comm, F>,
    made: Ghost<Seq<Channel<Comm>>>,
}

/// The work of a node's workers, which may be called on any endpoints.
#[verifier::reject_recursive_types(Comm)]
struct WorkFn<Comm, F: Fn(Vec<Receiver<Comm>>, Vec<Sender<Comm>>)> {
    f: F,
    marker: std::marker::PhantomData<Comm>,
}

impl<Comm, F: Fn(Vec<Receiver<Comm>>, Vec<Sender<Comm>>)> WorkFn<Comm, F> {
    #[verifier::type_invariant]
    spec fn callable(&self) -> bool {
        forall|r: Vec<Receiver<Comm>>, s: Vec<Sender<Comm>>| call_requires(self.f, (r, s))
    }

    fn call(&self, receivers: Vec<Receiver<Comm>>, senders: Vec<Sender<Comm>>)
        ensures
            call_ensures(self.f, (receivers, senders), ()),
    {
        proof {
            use_type_invariant(self);
        }
        (self.f)(receivers, senders);
    }
}

impl<Comm, F: Fn(Vec<Receiver<Comm>>, Vec<Sender<Comm>>)> CommonNode<Comm, F> {
    /// The function that the node's workers run.
    pub closed spec fn work_function(&self) -> F {
        self.work_fn.f
    }

    /// The output channels that the node was made with, in order.
    pub closed spec fn made_channels(&self) -> Seq<Channel<Comm>> {
        self.made@
    }

    /// A node called `name` with `num_workers` workers that run `work`, and one
    /// output channel for each capacity of `output_caps`, in order: sender `i`
    /// and output `i` are the two ends of one new channel of capacity
    /// `output_caps[i]`.
    pub fn new(name: &str, num_workers: usize, output_caps: &[usize], work: F) -> (n: Self)
        requires
            forall|r: Vec<Receiver<Comm>>, s: Vec<Sender<Comm>>| call_requires(work, (r, s)),
            forall|i: int| 0 <= i < output_caps@.len() ==> #[trigger] output_caps@[i] <= MAX_CHANNEL_CAPACITY,
        ensures
            n.spec_name() == name@,
            n.spec_num_workers() == num_workers,
            n.work_function() == work,
            n.spec_inputs() == Seq::<Receiver<Comm>>::empty(),
            n.spec_outputs().len() == output_caps@.len(),
            n.spec_senders().len() == output_caps@.len(),
            n.made_channels().len() == output_caps@.len(),
            forall|i: int|
                0 <= i < output_caps@.len() ==> {
                    &&& (#[trigger] n.made_channels()[i]).capacity() == output_caps@[i]
                    &&& n.spec_senders()[i] == n.made_channels()[i].sender_end()
                    &&& n.spec_outputs()[i] == n.made_channels()[i].receiver_end()
                },
    {
        let mut outputs: Vec<Receiver<Comm>> = Vec::new();
        let mut senders: Vec<Sender<Comm>> = Vec::new();
        let ghost mut made: Seq<Channel<Comm>> = Seq::empty();
        let mut i: usize = 0;
        while i < output_caps.len()
            invariant
                i <= output_caps@.len(),
                outputs@.len() == i,
                senders@.len() == i,
                made.len() == i,
                forall|k: int| 0 <= k < output_caps@.len() ==> #[trigger] output_caps@[k] <= MAX_CHANNEL_CAPACITY,
                forall|k: int|
                    0 <= k < i ==> {
                        &&& (#[trigger] made[k]).capacity() == output_caps@[k]
                        &&& senders@[k] == made[k].sender_end()
                        &&& outputs@[k] == made[k].receiver_end()
                    },
            decreases output_caps@.len() - i,
        {
            let c = Channel::bounded(output_caps[i]);
            let ghost gc = c;
            let (s, r) = c.into_ends();
            outputs.push(r);
            senders.push(s);
            proof {
                made = made.push(gc);
            }
            i = i + 1;
        }
        CommonNode {
            name: String::from_str(name),
            num_workers,
            outputs,
            inputs: Vec::new(),
            senders,
            work_fn: WorkFn { f: work, marker: std::marker::PhantomData },
            made: Ghost(made),
        }
    }
}

impl<Comm, F: Fn(Vec<Receiver<Comm>>, Vec<Sender<Comm>>)> TNode for CommonNode<Comm, F> {
    type Comm = Comm;

    closed spec fn spec_name(&self) -> Seq<char> {
        self.name@
    }

    closed spec fn spec_outputs(&self) -> Seq<Receiver<Comm>> {
        self.outputs@
    }

    closed spec fn spec_inputs(&self) -> Seq<Receiver<Comm>> {
        self.inputs@
    }

    closed spec fn spec_senders(&self) -> Seq<Sender<Comm>> {
        self.senders@
    }

    closed spec fn spec_num_workers(&self) -> usize {
        self.num_workers
    }

    fn name(&self) -> (r: &str) {
        self.name.as_str()
    }

    fn outputs(&self) -> (r: &Vec<Receiver<Comm>>) {
        &self.outputs
    }

    fn outputs_mut(&mut self) -> (r: &mut Vec<Receiver<Comm>>) {
        &mut self.outputs
    }

    fn add_input(&mut self, recv: &Receiver<Comm>) {
        self.inputs.push(recv.clone());
    }

    fn inputs(&self) -> (r: &Vec<Receiver<Comm>>) {
        &self.inputs
    }

    fn inputs_mut(&mut self) -> (r: &Vec<Receiver<Comm>>) {
        &self.inputs
    }

    fn senders(&self) -> (r: &Vec<Sender<Comm>>) {
        &self.senders
    }

    fn senders_mut(&mut self) -> (r: &mut Vec<Sender<Comm>>) {
        &mut self.senders
    }

    /// Runs the node's work function on the given endpoints.
    fn work(&self, receivers: Vec<Receiver<Comm>>, senders: Vec<Sender<Comm>>)
        ensures
            call_ensures(self.work_function(), (receivers, senders), ()),
    {
        self.work_fn.call(receivers, senders);
    }

    fn num_workers(&self) -> (r: usize) {
        self.num_workers
    }
}

/// The channel endpoints of each of the node's workers: one pair of copies of
/// the node's inputs and senders per worker.
pub fn worker_endpoint_sets<N: TNode>(node: &N) -> (r: Vec<(Vec<Receiver<N::Comm>>, Vec<Sender<N::Comm>>)>)
    ensures
        r@.len() == node.spec_num_workers(),
        forall|k: int|
            0 <= k < r@.len() ==> (#[trigger] r@[k]).0@ == node.spec_inputs() && r@[k].1@
                == node.spec_senders(),
{
    let n = node.num_workers();
    let mut r: Vec<(Vec<Receiver<N::Comm>>, Vec<Sender<N::Comm>>)> = Vec::new();
    let mut w: usize = 0;
    while w < n
        invariant
            n == node.spec_num_workers(),
            w <= n,
            r@.len() == w,
            forall|k: int|
                0 <= k < w ==> (#[trigger] r@[k]).0@ == node.spec_inputs() && r@[k].1@
                    == node.spec_senders(),
        decreases n - w,
    {
        r.push(worker_endpoints(node));
        w = w + 1;
    }
    r
}

/// Copies of the receivers `v`, in the same order.
pub fn copy_receivers<Comm>(v: &Vec<Receiver<Comm>>) -> (r: Vec<Receiver<Comm>>)
    ensures
        r@ == v@,
{
    let mut r: Vec<Receiver<Comm>> = Vec::new();
    let mut i: usize = 0;
    while i < v.len()
        invariant
            i <= v@.len(),
            r@ == v@.take(i as int),
        decreases v@.len() - i,
    {
        r.push(v[i].clone());
        proof {
            assert(v@.take(i + 1) =~= v@.take(i as int).push(v@[i as int]));
        }
        i = i + 1;
    }
    proof {
        assert(v@.take(v@.len() as int) =~= v@);
    }
    r
}

/// The channel endpoints that one worker of `node` works on: its own copies
/// of the node's inputs and of its senders, in the same order.
pub fn worker_endpoints<N: TNode>(node: &N) -> (r: (Vec<Receiver<N::Comm>>, Vec<Sender<N::Comm>>))
    ensures
        r.0@ == node.spec_inputs(),
        r.1@ == node.spec_senders(),
{
    let inputs = node.inputs();
    let mut receivers: Vec<Receiver<N::Comm>> = Vec::new();
    let mut i: usize = 0;
    while i < inputs.len()
        invariant
            inputs@ == node.spec_inputs(),
            i <= inputs@.len(),
            receivers@ == inputs@.take(i as int),
        decreases inputs@.len() - i,
    {
        receivers.push(inputs[i].clone());
        proof {
            assert(inputs@.take(i + 1) =~= inputs@.take(i as int).push(inputs@[i as int]));
        }
        i = i + 1;
    }
    let senders = node.senders();
    let mut copies: Vec<Sender<N::Comm>> = Vec::new();
    let mut j: usize = 0;
    while j < senders.len()
        invariant
            senders@ == node.spec_senders(),
            j <= senders@.len(),
            copies@ == senders@.take(j as int),
        decreases senders@.len() - j,
    {
        copies.push(senders[j].clone());
        proof {
            assert(senders@.take(j + 1) =~= senders@.take(j as int).push(senders@[j as int]));
        }
        j = j + 1;
    }
    proof {
        assert(inputs@.take(inputs@.len() as int) =~= inputs@);
        assert(senders@.take(senders@.len() as int) =~= senders@);
    }
    (receivers, copies)
}

} // verus!
