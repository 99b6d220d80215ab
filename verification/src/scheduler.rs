//! A scheduler for a directed acyclic graph of nodes: each node is registered
//! under its name and reads from chosen outputs of nodes registered before it.

use vstd::prelude::*;
use crate::nodes::{copy_receivers, worker_endpoint_sets, TNode};
use crossbeam::channel::{Receiver, Sender};
use crate::text::str_equal;

verus! {

/// No two nodes of `s` have the same name.
pub open spec fn names_unique<N: TNode>(s: Seq<N>) -> bool {
    forall|i: int, j: int|
        0 <= i < s.len() && 0 <= j < s.len() && i != j ==> #[trigger] s[i].spec_name()
            != #[trigger] s[j].spec_name()
}

/// Some node of `s` has the name `name`.
pub open spec fn has_name<N: TNode>(s: Seq<N>, name: Seq<char>) -> bool {
    exists|i: int| 0 <= i < s.len() && #[trigger] s[i].spec_name() == name
}

/// The nodes of `s` keyed by their names.
pub open spec fn node_map<N: TNode>(s: Seq<N>) -> Map<
    Seq<char>,
    N,
> {
    Map::new(
        |name: Seq<char>| has_name(s, name),
        |name: Seq<char>| s[choose|i: int| 0 <= i < s.len() && #[trigger] s[i].spec_name() == name],
    )
}

/// The receivers that `deps` picks from the nodes of `graph`: for each pair of a
/// node's name and an index, that node's output at that index, in the order of
/// `deps`.
pub open spec fn picked_outputs<N: TNode>(
    graph: Map<Seq<char>, N>,
    deps: Seq<(&str, usize)>,
) -> Seq<crossbeam::channel::Receiver<N::Comm>> {
    deps.map_values(|d: (&str, usize)| graph[d.0@].spec_outputs()[d.1 as int])
}

/// Each pair of `deps` picks exactly one receiver, in the order of `deps`: the
/// output at the pair's index of the node the pair names.
pub proof fn lemma_picked_outputs_at<N: TNode>(graph: Map<Seq<char>, N>, deps: Seq<(&str, usize)>)
    ensures
        picked_outputs(graph, deps).len() == deps.len(),
        forall|k: int|
            0 <= k < deps.len() ==> #[trigger] picked_outputs(graph, deps)[k]
                == graph[deps[k].0@].spec_outputs()[deps[k].1 as int],
{
}

/// Every pair of `deps` names a node of `graph` and one of that node's outputs.
pub open spec fn deps_resolvable<N: TNode>(
    graph: Map<Seq<char>, N>,
    deps: Seq<(&str, usize)>,
) -> bool {
    forall|k: int|
        0 <= k < deps.len() ==> graph.contains_key(#[trigger] deps[k].0@) && deps[k].1
            < graph[deps[k].0@].spec_outputs().len()
}

/// In a sequence of nodes with distinct names, the node of index `i` is the one
/// that the map of names gives for its name.
proof fn lemma_node_map_at<N: TNode>(s: Seq<N>, i: int)
    requires
        names_unique(s),
        0 <= i < s.len(),
    ensures
        node_map(s).contains_key(s[i].spec_name()),
        node_map(s)[s[i].spec_name()] == s[i],
{
    let name = s[i].spec_name();
    assert(has_name(s, name));
    let j = choose|j: int| 0 <= j < s.len() && #[trigger] s[j].spec_name() == name;
    assert(s[j].spec_name() == name);
}

/// Appending a node under a name not yet taken adds that one entry to the map.
proof fn lemma_node_map_push<N: TNode>(s: Seq<N>, n: N)
    requires
        names_unique(s),
        !has_name(s, n.spec_name()),
    ensures
        names_unique(s.push(n)),
        node_map(s.push(n)) =~= node_map(s).insert(n.spec_name(), n),
{
    let t = s.push(n);
    assert(t[s.len() as int] == n);
    assert forall|i: int, j: int|
        0 <= i < t.len() && 0 <= j < t.len() && i != j implies #[trigger] t[i].spec_name()
        != #[trigger] t[j].spec_name() by {
        if i < s.len() && j < s.len() {
            assert(t[i] == s[i] && t[j] == s[j]);
        } else if i < s.len() {
            assert(t[i] == s[i]);
        } else {
            assert(t[j] == s[j]);
        }
    }
    assert forall|name: Seq<char>| #[trigger] has_name(t, name) == (has_name(s, name) || name
        == n.spec_name()) by {
        if has_name(s, name) {
            let i = choose|i: int| 0 <= i < s.len() && #[trigger] s[i].spec_name() == name;
            assert(t[i] == s[i]);
        }
        if has_name(t, name) && name != n.spec_name() {
            let i = choose|i: int| 0 <= i < t.len() && #[trigger] t[i].spec_name() == name;
            assert(t[i] == s[i]);
        }
    }
    assert forall|name: Seq<char>| #[trigger] node_map(t).contains_key(name) implies node_map(
        t,
    )[name] == node_map(s).insert(n.spec_name(), n)[name] by {
        let i = choose|i: int| 0 <= i < t.len() && #[trigger] t[i].spec_name() == name;
        lemma_node_map_at(t, i);
        if i < s.len() {
            assert(t[i] == s[i]);
            lemma_node_map_at(s, i);
        }
    }
}

/// Replacing the node of index `j` by a node of the same name replaces that one
/// entry of the map.
proof fn lemma_node_map_update<N: TNode>(
    s: Seq<N>,
    j: int,
    n: N,
)
    requires
        names_unique(s),
        0 <= j < s.len(),
        s[j].spec_name() == n.spec_name(),
    ensures
        names_unique(s.update(j, n)),
        node_map(s.update(j, n)) =~= node_map(s).insert(n.spec_name(), n),
{
    let t = s.update(j, n);
    assert forall|a: int, b: int|
        0 <= a < t.len() && 0 <= b < t.len() && a != b implies #[trigger] t[a].spec_name()
        != #[trigger] t[b].spec_name() by {
        assert(t[a].spec_name() == s[a].spec_name());
        assert(t[b].spec_name() == s[b].spec_name());
    }
    assert forall|name: Seq<char>| #[trigger] has_name(t, name) == has_name(s, name) by {
        if has_name(s, name) {
            let i = choose|i: int| 0 <= i < s.len() && #[trigger] s[i].spec_name() == name;
            assert(t[i].spec_name() == s[i].spec_name());
        }
        if has_name(t, name) {
            let i = choose|i: int| 0 <= i < t.len() && #[trigger] t[i].spec_name() == name;
            assert(t[i].spec_name() == s[i].spec_name());
        }
    }
    assert(has_name(s, n.spec_name())) by {
        assert(s[j].spec_name() == n.spec_name());
    }
    assert forall|name: Seq<char>| #[trigger] node_map(t).contains_key(name) implies node_map(
        t,
    )[name] == node_map(s).insert(n.spec_name(), n)[name] by {
        let i = choose|i: int| 0 <= i < t.len() && #[trigger] t[i].spec_name() == name;
        lemma_node_map_at(t, i);
        if i != j {
            assert(t[i] == s[i]);
            lemma_node_map_at(s, i);
        }
    }
}

/// Changing nodes without changing their names keeps the names distinct and
/// the set of names, and the map of names gives the changed nodes.
proof fn lemma_node_map_same_names<N: TNode>(before: Seq<N>, after: Seq<N>)
    requires
        names_unique(before),
        after.len() == before.len(),
        forall|k: int| 0 <= k < before.len() ==> #[trigger] after[k].spec_name() == before[k].spec_name(),
    ensures
        names_unique(after),
        node_map(after).dom() =~= node_map(before).dom(),
        forall|k: int| 0 <= k < after.len() ==> node_map(after)[#[trigger] after[k].spec_name()] == after[k],
{
    assert forall|a: int, b: int|
        0 <= a < after.len() && 0 <= b < after.len() && a != b implies #[trigger] after[a].spec_name()
        != #[trigger] after[b].spec_name() by {
        assert(after[a].spec_name() == before[a].spec_name());
        assert(after[b].spec_name() == before[b].spec_name());
    }
    assert forall|name: Seq<char>| #[trigger] has_name(after, name) == has_name(before, name) by {
        if has_name(before, name) {
            let i = choose|i: int| 0 <= i < before.len() && #[trigger] before[i].spec_name() == name;
            assert(after[i].spec_name() == before[i].spec_name());
        }
        if has_name(after, name) {
            let i = choose|i: int| 0 <= i < after.len() && #[trigger] after[i].spec_name() == name;
            assert(after[i].spec_name() == before[i].spec_name());
        }
    }
    assert forall|k: int| 0 <= k < after.len() implies node_map(after)[#[trigger] after[k].spec_name()] == after[k] by {
        lemma_node_map_at(after, k);
    }
}

/// What a started node's workers are given: the node's name, and for each of
/// its workers, that worker's copies of the node's inputs and senders.
#[verifier::reject_recursive_types(Comm)]
pub struct NodeLaunch<Comm> {
    pub name: String,
    pub workers: Vec<(Vec<Receiver<Comm>>, Vec<Sender<Comm>>)>,
}

/// Schedules a graph of nodes of type `N`.
#[verifier::reject_recursive_types(N)]
pub struct Scheduler<N: TNode> {
    nodes: Vec<N>,
    ready_to_start: bool,
}

impl<N: TNode> Scheduler<N> {
    /// The scheduler's own invariant: no two registered nodes share a name.
    pub closed spec fn wf(&self) -> bool {
        names_unique(self.nodes@)
    }

    /// The registered nodes, keyed by their names.
    pub closed spec fn graph(&self) -> Map<Seq<char>, N> {
        node_map(self.nodes@)
    }

    /// Whether [`Scheduler::seal`] has been called.
    pub closed spec fn is_sealed(&self) -> bool {
        self.ready_to_start
    }

    /// An empty scheduler, not sealed.
    pub fn new() -> (s: Self)
        ensures
            s.wf(),
            s.graph() =~= Map::<Seq<char>, N>::empty(),
            !s.is_sealed(),
    {
        Scheduler { nodes: Vec::new(), ready_to_start: false }
    }

    /// The index of the node named `name`, if one is registered.
    fn find(&self, name: &str) -> (r: Option<usize>)
        requires
            self.wf(),
        ensures
            match r {
                Some(i) => i < self.nodes@.len() && self.nodes@[i as int].spec_name() == name@,
                None => !has_name(self.nodes@, name@),
            },
    {
        let mut i: usize = 0;
        while i < self.nodes.len()
            invariant
                i <= self.nodes@.len(),
                forall|k: int| 0 <= k < i ==> #[trigger] self.nodes@[k].spec_name() != name@,
            decreases self.nodes@.len() - i,
        {
            if str_equal(self.nodes[i].name(), name) {
                return Some(i);
            }
            i = i + 1;
        }
        None
    }

    /// Whether every pair of `pre_name_idxs` names a registered node and one of
    /// that node's outputs, as [`Scheduler::add_node`] requires.
    pub fn check_deps(&self, pre_name_idxs: &Vec<(&str, usize)>) -> (r: bool)
        requires
            self.wf(),
        ensures
            r == deps_resolvable(self.graph(), pre_name_idxs@),
    {
        let ghost graph = self.graph();
        let ghost deps = pre_name_idxs@;
        let mut k: usize = 0;
        while k < pre_name_idxs.len()
            invariant
                self.wf(),
                graph == self.graph(),
                deps == pre_name_idxs@,
                k <= deps.len(),
                forall|i: int|
                    0 <= i < k ==> graph.contains_key(#[trigger] deps[i].0@) && deps[i].1
                        < graph[deps[i].0@].spec_outputs().len(),
            decreases deps.len() - k,
        {
            let pair = &pre_name_idxs[k];
            match self.find(pair.0) {
                Some(j) => {
                    proof {
                        lemma_node_map_at(self.nodes@, j as int);
                    }
                    if pair.1 >= self.nodes[j].outputs().len() {
                        assert(!(deps[k as int].1 < graph[deps[k as int].0@].spec_outputs().len()));
                        return false;
                    }
                },
                None => {
                    assert(!graph.contains_key(deps[k as int].0@));
                    return false;
                },
            }
            k = k + 1;
        }
        true
    }

    /// Registers `node` under its name, after making it read from the outputs
    /// that `pre_name_idxs` picks.
    fn register(&mut self, pre_name_idxs: &Vec<(&str, usize)>, node: N)
        requires
            old(self).wf(),
            deps_resolvable(old(self).graph(), pre_name_idxs@),
        ensures
            final(self).wf(),
            final(self).is_sealed() == old(self).is_sealed(),
            final(self).graph().dom() == old(self).graph().dom().insert(node.spec_name()),
            forall|name: Seq<char>|
                #[trigger] old(self).graph().contains_key(name) && name != node.spec_name()
                    ==> final(self).graph()[name] == old(self).graph()[name],
            final(self).graph()[node.spec_name()].spec_name() == node.spec_name(),
            final(self).graph()[node.spec_name()].spec_outputs() == node.spec_outputs(),
            final(self).graph()[node.spec_name()].spec_senders() == node.spec_senders(),
            final(self).graph()[node.spec_name()].spec_num_workers() == node.spec_num_workers(),
            final(self).graph()[node.spec_name()].spec_inputs() == node.spec_inputs()
                + picked_outputs(old(self).graph(), pre_name_idxs@),
    {
        let ghost graph = self.graph();
        let ghost deps = pre_name_idxs@;
        let ghost first = node;
        let mut node = node;
        let mut k: usize = 0;
        while k < pre_name_idxs.len()
            invariant
                self.wf(),
                self.graph() == graph,
                deps == pre_name_idxs@,
                deps_resolvable(graph, deps),
                k <= deps.len(),
                node.spec_name() == first.spec_name(),
                node.spec_outputs() == first.spec_outputs(),
                node.spec_senders() == first.spec_senders(),
                node.spec_num_workers() == first.spec_num_workers(),
                node.spec_inputs() == first.spec_inputs() + picked_outputs(
                    graph,
                    deps.take(k as int),
                ),
            decreases deps.len() - k,
        {
            let pair = &pre_name_idxs[k];
            let pre_name: &str = pair.0;
            let pre_idx: usize = pair.1;
            assert(graph.contains_key(deps[k as int].0@) && deps[k as int].1
                < graph[deps[k as int].0@].spec_outputs().len());
            let found = self.find(pre_name);
            let j = match found {
                Some(j) => j,
                None => {
                    assert(false);
                    0
                },
            };
            proof {
                lemma_node_map_at(self.nodes@, j as int);
            }
            let pre_dep = &self.nodes[j].outputs()[pre_idx];
            node.add_input(pre_dep);
            proof {
                assert(deps.take(k + 1) =~= deps.take(k as int).push(deps[k as int]));
                assert(picked_outputs(graph, deps.take(k + 1)) =~= picked_outputs(
                    graph,
                    deps.take(k as int),
                ).push(*pre_dep));
            }
            k = k + 1;
        }
        proof {
            assert(deps.take(deps.len() as int) =~= deps);
        }
        let found = self.find(node.name());
        match found {
            Some(j) => {
                proof {
                    lemma_node_map_update(self.nodes@, j as int, node);
                }
                self.nodes.set(j, node);
            },
            None => {
                proof {
                    lemma_node_map_push(self.nodes@, node);
                }
                self.nodes.push(node);
            },
        }
    }

    /// Registers `node` under its name, after making it read from the outputs
    /// that `pre_name_idxs` picks: each pair names a registered node and the
    /// index of one of its outputs, and that output becomes one more input of
    /// `node`, in the order of the pairs. A node registered under the same name
    /// before is replaced.
    ///
    /// With `is_last`, the node is the last one of the graph: the scheduler
    /// hands back the receivers of the node's outputs, from which the graph's
    /// results are read, and is then sealed (see [`Scheduler::seal`]).
    pub fn add_node(
        &mut self,
        is_last: bool,
        pre_name_idxs: &Vec<(&str, usize)>,
        node: N,
    ) -> (r: Option<Vec<Receiver<N::Comm>>>)
        requires
            old(self).wf(),
            deps_resolvable(old(self).graph(), pre_name_idxs@),
        ensures
            final(self).wf(),
            final(self).is_sealed() == (old(self).is_sealed() || is_last),
            r is Some <==> is_last,
            r matches Some(outs) ==> outs@ == node.spec_outputs(),
            final(self).graph().dom() == old(self).graph().dom().insert(node.spec_name()),
            !is_last ==> forall|name: Seq<char>|
                #[trigger] old(self).graph().contains_key(name) && name != node.spec_name()
                    ==> final(self).graph()[name] == old(self).graph()[name],
            forall|name: Seq<char>|
                #[trigger] old(self).graph().contains_key(name) && name != node.spec_name() ==> {
                    &&& final(self).graph()[name].spec_name() == name
                    &&& final(self).graph()[name].spec_inputs() == old(self).graph()[name].spec_inputs()
                    &&& final(self).graph()[name].spec_senders() == old(self).graph()[name].spec_senders()
                    &&& final(self).graph()[name].spec_num_workers() == old(self).graph()[name].spec_num_workers()
                    &&& final(self).graph()[name].spec_outputs() == if is_last {
                        Seq::empty()
                    } else {
                        old(self).graph()[name].spec_outputs()
                    }
                },
            final(self).graph()[node.spec_name()].spec_name() == node.spec_name(),
            final(self).graph()[node.spec_name()].spec_senders() == node.spec_senders(),
            final(self).graph()[node.spec_name()].spec_num_workers() == node.spec_num_workers(),
            final(self).graph()[node.spec_name()].spec_inputs() == node.spec_inputs()
                + picked_outputs(old(self).graph(), pre_name_idxs@),
            final(self).graph()[node.spec_name()].spec_inputs().len() == node.spec_inputs().len()
                + pre_name_idxs@.len(),
            forall|k: int|
                0 <= k < pre_name_idxs@.len() ==> #[trigger] final(self).graph()[node.spec_name()].spec_inputs()[node.spec_inputs().len()
                    + k] == old(self).graph()[pre_name_idxs@[k].0@].spec_outputs()[pre_name_idxs@[k].1 as int],
            final(self).graph()[node.spec_name()].spec_outputs() == if is_last {
                Seq::empty()
            } else {
                node.spec_outputs()
            },
    {
        let outputs = if is_last {
            Some(copy_receivers(node.outputs()))
        } else {
            None
        };
        let ghost old_graph = self.graph();
        let ghost name = node.spec_name();
        self.register(pre_name_idxs, node);
        let ghost mid = self.graph();
        if is_last {
            self.seal();
        }
        proof {
            assert(mid.contains_key(name));
            assert(self.graph().contains_key(name));
            assert forall|other: Seq<char>|
                #[trigger] old_graph.contains_key(other) && other != name implies {
                    &&& self.graph()[other].spec_name() == other
                    &&& self.graph()[other].spec_inputs() == old_graph[other].spec_inputs()
                    &&& self.graph()[other].spec_senders() == old_graph[other].spec_senders()
                    &&& self.graph()[other].spec_num_workers() == old_graph[other].spec_num_workers()
                    &&& self.graph()[other].spec_outputs() == if is_last {
                        Seq::empty()
                    } else {
                        old_graph[other].spec_outputs()
                    }
                } by {
                assert(mid.contains_key(other));
                assert(self.graph().contains_key(other));
                assert(mid[other] == old_graph[other]);
                if is_last {
                    assert(self.graph()[other].spec_outputs() =~= Seq::empty());
                }
            }
            if is_last {
                assert(self.graph()[name].spec_outputs() =~= Seq::empty());
            }
        }
        outputs
    }

    /// Marks the scheduler ready to start and takes away every node's outputs:
    /// nothing reads from them after this point.
    pub fn seal(&mut self)
        requires
            old(self).wf(),
        ensures
            final(self).wf(),
            final(self).is_sealed(),
            final(self).graph().dom() == old(self).graph().dom(),
            forall|name: Seq<char>| #[trigger]
                final(self).graph().contains_key(name) ==> {
                    &&& final(self).graph()[name].spec_outputs().len() == 0
                    &&& final(self).graph()[name].spec_name() == name
                    &&& final(self).graph()[name].spec_inputs() == old(self).graph()[name].spec_inputs()
                    &&& final(self).graph()[name].spec_senders() == old(self).graph()[name].spec_senders()
                    &&& final(self).graph()[name].spec_num_workers() == old(self).graph()[name].spec_num_workers()
                },
    {
        self.ready_to_start = true;
        let ghost before = self.nodes@;
        let mut i: usize = 0;
        while i < self.nodes.len()
            invariant
                self.nodes@.len() == before.len(),
                i <= before.len(),
                names_unique(before),
                forall|k: int|
                    0 <= k < before.len() ==> {
                        &&& #[trigger] self.nodes@[k].spec_name() == before[k].spec_name()
                        &&& self.nodes@[k].spec_inputs() == before[k].spec_inputs()
                        &&& self.nodes@[k].spec_senders() == before[k].spec_senders()
                        &&& self.nodes@[k].spec_num_workers() == before[k].spec_num_workers()
                    },
                forall|k: int| 0 <= k < i ==> #[trigger] self.nodes@[k].spec_outputs().len() == 0,
                forall|k: int| i <= k < before.len() ==> #[trigger] self.nodes@[k] == before[k],
                self.ready_to_start,
            decreases before.len() - i,
        {
            let node = &mut self.nodes[i];
            node.outputs_mut().clear();
            i = i + 1;
        }
        proof {
            let after = self.nodes@;
            lemma_node_map_same_names(before, after);
            assert forall|name: Seq<char>| #[trigger] node_map(after).contains_key(name) implies {
                &&& node_map(after)[name].spec_outputs().len() == 0
                &&& node_map(after)[name].spec_name() == name
                &&& node_map(after)[name].spec_inputs() == node_map(before)[name].spec_inputs()
                &&& node_map(after)[name].spec_senders() == node_map(before)[name].spec_senders()
                &&& node_map(after)[name].spec_num_workers() == node_map(before)[name].spec_num_workers()
            } by {
                let k = choose|k: int| 0 <= k < after.len() && #[trigger] after[k].spec_name() == name;
                assert(node_map(after)[after[k].spec_name()] == after[k]);
                lemma_node_map_at(before, k);
            }
        }
    }

    /// The node registered under `name`, if there is one.
    pub fn get_node(&self, name: &str) -> (r: Option<&N>)
        requires
            self.wf(),
        ensures
            r is Some <==> self.graph().contains_key(name@),
            r matches Some(n) ==> *n == self.graph()[name@],
    {
        match self.find(name) {
            Some(j) => {
                proof {
                    lemma_node_map_at(self.nodes@, j as int);
                }
                Some(&self.nodes[j])
            },
            None => None,
        }
    }

    /// Whether [`Scheduler::seal`] has been called.
    pub fn ready_to_start(&self) -> (r: bool)
        ensures
            r == self.is_sealed(),
    {
        self.ready_to_start
    }

    /// Starts the graph: hands out, for every registered node, one set of
    /// channel endpoints per worker (copies of the node's inputs and senders),
    /// for the caller to run the node's work on. The nodes give up their own
    /// senders, so that a channel is closed once the workers writing to it are
    /// done. The scheduler must have been sealed first.
    pub fn start(&mut self) -> (r: Vec<NodeLaunch<N::Comm>>)
        requires
            old(self).wf(),
            old(self).is_sealed(),
        ensures
            final(self).wf(),
            final(self).is_sealed(),
            final(self).graph().dom() == old(self).graph().dom(),
            forall|name: Seq<char>| #[trigger]
                final(self).graph().contains_key(name) ==> {
                    &&& final(self).graph()[name].spec_name() == name
                    &&& final(self).graph()[name].spec_senders().len() == 0
                    &&& final(self).graph()[name].spec_inputs() == old(self).graph()[name].spec_inputs()
                    &&& final(self).graph()[name].spec_outputs() == old(self).graph()[name].spec_outputs()
                    &&& final(self).graph()[name].spec_num_workers() == old(self).graph()[name].spec_num_workers()
                },
            forall|i: int|
                0 <= i < r@.len() ==> {
                    let node = old(self).graph()[(#[trigger] r@[i]).name@];
                    &&& old(self).graph().contains_key(r@[i].name@)
                    &&& r@[i].workers@.len() == node.spec_num_workers()
                    &&& forall|w: int|
                        0 <= w < r@[i].workers@.len() ==> (#[trigger] r@[i].workers@[w]).0@
                            == node.spec_inputs() && r@[i].workers@[w].1@ == node.spec_senders()
                },
            forall|i: int, j: int|
                0 <= i < r@.len() && 0 <= j < r@.len() && i != j ==> (#[trigger] r@[i]).name@
                    != (#[trigger] r@[j]).name@,
            forall|name: Seq<char>|
                #[trigger] old(self).graph().contains_key(name) ==> exists|i: int|
                    0 <= i < r@.len() && (#[trigger] r@[i]).name@ == name,
    {
        let ghost before = self.nodes@;
        let mut launches: Vec<NodeLaunch<N::Comm>> = Vec::new();
        let mut i: usize = 0;
        while i < self.nodes.len()
            invariant
                self.nodes@.len() == before.len(),
                i <= before.len(),
                names_unique(before),
                self.ready_to_start,
                forall|k: int|
                    0 <= k < before.len() ==> {
                        &&& #[trigger] self.nodes@[k].spec_name() == before[k].spec_name()
                        &&& self.nodes@[k].spec_inputs() == before[k].spec_inputs()
                        &&& self.nodes@[k].spec_outputs() == before[k].spec_outputs()
                        &&& self.nodes@[k].spec_num_workers() == before[k].spec_num_workers()
                    },
                forall|k: int| 0 <= k < i ==> #[trigger] self.nodes@[k].spec_senders().len() == 0,
                forall|k: int| i <= k < before.len() ==> #[trigger] self.nodes@[k] == before[k],
                launches@.len() == i,
                forall|k: int|
                    0 <= k < i ==> {
                        &&& (#[trigger] launches@[k]).name@ == before[k].spec_name()
                        &&& launches@[k].workers@.len() == before[k].spec_num_workers()
                        &&& forall|w: int|
                            0 <= w < launches@[k].workers@.len() ==> (
                            #[trigger] launches@[k].workers@[w]).0@ == before[k].spec_inputs()
                                && launches@[k].workers@[w].1@ == before[k].spec_senders()
                    },
            decreases before.len() - i,
        {
            let name = String::from_str(self.nodes[i].name());
            let workers = worker_endpoint_sets(&self.nodes[i]);
            let node = &mut self.nodes[i];
            node.senders_mut().clear();
            launches.push(NodeLaunch { name, workers });
            i = i + 1;
        }
        proof {
            let after = self.nodes@;
            lemma_node_map_same_names(before, after);
            assert forall|name: Seq<char>| #[trigger] node_map(after).contains_key(name) implies {
                &&& node_map(after)[name].spec_name() == name
                &&& node_map(after)[name].spec_senders().len() == 0
                &&& node_map(after)[name].spec_inputs() == node_map(before)[name].spec_inputs()
                &&& node_map(after)[name].spec_outputs() == node_map(before)[name].spec_outputs()
                &&& node_map(after)[name].spec_num_workers() == node_map(before)[name].spec_num_workers()
            } by {
                let k = choose|k: int| 0 <= k < after.len() && #[trigger] after[k].spec_name() == name;
                assert(node_map(after)[after[k].spec_name()] == after[k]);
                lemma_node_map_at(before, k);
            }
            assert forall|k: int| 0 <= k < launches@.len() implies node_map(before)[(
            #[trigger] launches@[k]).name@] == before[k] && node_map(before).contains_key(launches@[k].name@) by {
                lemma_node_map_at(before, k);
            }
            assert forall|a: int, b: int|
                0 <= a < launches@.len() && 0 <= b < launches@.len() && a != b implies (
            #[trigger] launches@[a]).name@ != (#[trigger] launches@[b]).name@ by {
                assert(before[a].spec_name() != before[b].spec_name());
            }
            assert forall|name: Seq<char>| #[trigger] node_map(before).contains_key(name) implies exists|i: int|
                0 <= i < launches@.len() && (#[trigger] launches@[i]).name@ == name by {
                let k = choose|k: int| 0 <= k < before.len() && #[trigger] before[k].spec_name() == name;
                assert(launches@[k].name@ == name);
            }
        }
        launches
    }
}

} // verus!
