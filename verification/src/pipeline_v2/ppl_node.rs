//! Pipeline nodes: a node is a single worker of one stage of the pipeline.

use vstd::prelude::*;
use std::io::Write;
use crate::text::{indexed_name, indexed_thread_name, str_equal};

verus! {

/// The kind of a pipeline stage. `Source` and `Middle` carry the capacity of
/// the channel that the stage writes to; a sink writes to no channel.
#[derive(Debug, Clone, Copy, PartialEq, Eq, Structural)]
pub enum NodeType {
    Source(usize),
    Middle(usize),
    Sink,
}

/// A single worker of a pipeline stage. To run a stage on several threads,
/// build several nodes of the same kind.
pub trait TPplNode: Send + 'static {
    type MsgType: Send + 'static;

    /// One step of the worker's job.
    ///
    /// The argument: for a source, always `None`; for a middle node or a sink,
    /// `Some` message received from the previous stage, or `None` once the
    /// previous stage is done.
    ///
    /// The result: for a source, `None` when the job is done and `Some` with the
    /// messages that the job produced; for a middle node, `Some` with the
    /// messages to send on (`None` sends nothing); a sink always returns `None`.
    /// One to one, many to one (with a buffer inside the node), one to many and
    /// many to many stages can all be built on this.
    fn work_fn(&mut self, inp_v: Option<Self::MsgType>) -> Option<Vec<Self::MsgType>>;

    /// The worker's name, which its thread names start with.
    fn name(&self) -> &str;
}

/// The message that the demonstration nodes exchange.
#[derive(Debug)]
pub struct DummyMsg {
    pub val: usize,
}

/// A demonstration source: it produces the messages 2 and then 1, one per call.
pub struct SourceNode {
    counter: usize,
}

impl SourceNode {
    /// How many messages the node has still to produce.
    pub closed spec fn remaining(&self) -> usize {
        self.counter
    }

    /// `num` sources, each with two messages to produce.
    pub fn new(num: usize) -> (r: Vec<SourceNode>)
        ensures
            r@.len() == num,
            forall|i: int| 0 <= i < num ==> #[trigger] r@[i].remaining() == 2,
    {
        let mut r: Vec<SourceNode> = Vec::new();
        let mut i: usize = 0;
        while i < num
            invariant
                i <= num,
                r@.len() == i,
                forall|k: int| 0 <= k < i ==> #[trigger] r@[k].remaining() == 2,
            decreases num - i,
        {
            r.push(SourceNode { counter: 2 });
            i = i + 1;
        }
        r
    }
}

impl TPplNode for SourceNode {
    type MsgType = DummyMsg;

    /// Produces the remaining count as a message and counts down; `None` once
    /// the count has reached zero.
    fn work_fn(&mut self, inp_v: Option<DummyMsg>) -> (r: Option<Vec<DummyMsg>>)
        ensures
            source_call(old(self).remaining(), final(self).remaining(), r),
    {
        if self.counter == 0 {
            None
        } else {
            let old_count = self.counter;
            self.counter = self.counter - 1;
            let v = vec![DummyMsg { val: old_count }];
            assert(v@ == seq![DummyMsg { val: old_count }]);
            Some(v)
        }
    }

    fn name(&self) -> (r: &str)
        ensures
            r@ == "SourceNode"@,
    {
        "SourceNode"
    }
}

/// One call of a source's `work_fn`, with `before` messages left before it and
/// `after` after it, returning `r`: with none left it returns `None`; else it
/// returns the count left as a message and counts down.
pub open spec fn source_call(before: usize, after: usize, r: Option<Vec<DummyMsg>>) -> bool {
    if before == 0 {
        r is None && after == 0
    } else {
        &&& r matches Some(v) && v@ == seq![DummyMsg { val: before }]
        &&& after == before - 1
    }
}

/// The count that a source made by [`SourceNode::new`] has left after `k` calls.
proof fn lemma_source_counts(counts: Seq<usize>, results: Seq<Option<Vec<DummyMsg>>>, k: int)
    requires
        counts.len() == results.len() + 1,
        counts[0] == 2,
        forall|i: int|
            0 <= i < results.len() ==> source_call(counts[i], counts[i + 1], #[trigger] results[i]),
        0 <= k < counts.len(),
    ensures
        counts[k] == (if k <= 2 {
            2 - k
        } else {
            0
        }),
    decreases k,
{
    if k > 0 {
        lemma_source_counts(counts, results, k - 1);
        assert(source_call(counts[k - 1], counts[k], results[k - 1]));
    }
}

/// Over its life, a source made by [`SourceNode::new`] yields the message 2,
/// then the message 1, and from then on `None`, whatever it is handed: once it
/// has returned `None` it returns `None` for good.
pub proof fn lemma_source_node_life(counts: Seq<usize>, results: Seq<Option<Vec<DummyMsg>>>)
    requires
        counts.len() == results.len() + 1,
        counts[0] == 2,
        forall|i: int|
            0 <= i < results.len() ==> source_call(counts[i], counts[i + 1], #[trigger] results[i]),
    ensures
        results.len() > 0 ==> (results[0] matches Some(v) && v@ == seq![DummyMsg { val: 2 }]),
        results.len() > 1 ==> (results[1] matches Some(v) && v@ == seq![DummyMsg { val: 1 }]),
        forall|i: int| 2 <= i < results.len() ==> #[trigger] results[i] is None,
        forall|i: int, j: int|
            0 <= i <= j < results.len() && #[trigger] results[i] is None ==> #[trigger] results[j]
                is None,
{
    assert forall|i: int| 0 <= i < results.len() implies #[trigger] results[i] is None <==> i
        >= 2 by {
        lemma_source_counts(counts, results, i);
        assert(source_call(counts[i], counts[i + 1], results[i]));
    }
}

/// A demonstration middle stage: it multiplies each message by ten.
pub struct MiddleNode {}

impl MiddleNode {
    /// `num` middle nodes.
    pub fn new(num: usize) -> (r: Vec<MiddleNode>)
        ensures
            r@.len() == num,
    {
        let mut r: Vec<MiddleNode> = Vec::new();
        let mut i: usize = 0;
        while i < num
            invariant
                i <= num,
                r@.len() == i,
            decreases num - i,
        {
            r.push(MiddleNode {});
            i = i + 1;
        }
        r
    }
}

impl TPplNode for MiddleNode {
    type MsgType = DummyMsg;

    /// A received message comes out multiplied by ten (modulo the word size,
    /// as the product wraps in release builds); nothing comes out of `None`.
    fn work_fn(&mut self, inp_v: Option<DummyMsg>) -> (r: Option<Vec<DummyMsg>>)
        ensures
            inp_v is None ==> r is None,
            inp_v matches Some(m) ==> r matches Some(v) && v@ == seq![
                DummyMsg { val: ((m.val as nat * 10) % (usize::MAX as nat + 1)) as usize },
            ],
    {
        match inp_v {
            Some(m) => {
                let val = m.val.wrapping_mul(10);
                Some(vec![DummyMsg { val }])
            },
            None => None,
        }
    }

    fn name(&self) -> (r: &str)
        ensures
            r@ == "MiddleNode"@,
    {
        "MiddleNode"
    }
}

/// `println!("v:{:?}", msg)`: writes `v:` and the message's debug form, and a
/// line break, to standard output. A failed write is ignored here, where
/// `println!` would panic.
#[verifier::external_body]
fn print_received(msg: &DummyMsg) {
    let _ = writeln!(std::io::stdout(), "v:{:?}", msg);
}

/// A demonstration sink: it prints each message it receives.
pub struct SinkNode {}

impl SinkNode {
    /// `num` sinks.
    pub fn new(num: usize) -> (r: Vec<SinkNode>)
        ensures
            r@.len() == num,
    {
        let mut r: Vec<SinkNode> = Vec::new();
        let mut i: usize = 0;
        while i < num
            invariant
                i <= num,
                r@.len() == i,
            decreases num - i,
        {
            r.push(SinkNode {});
            i = i + 1;
        }
        r
    }
}

impl TPplNode for SinkNode {
    type MsgType = DummyMsg;

    /// Prints a received message; the final call, with `None`, prints nothing.
    /// A sink sends nothing on.
    fn work_fn(&mut self, inp_v: Option<DummyMsg>) -> (r: Option<Vec<DummyMsg>>)
        ensures
            r is None,
    {
        if let Some(m) = inp_v {
            print_received(&m);
        }
        None
    }

    fn name(&self) -> (r: &str)
        ensures
            r@ == "SinkNode"@,
    {
        "SinkNode"
    }
}

/// No two entries of `s` have the same name.
pub open spec fn entry_names_unique(s: Seq<(String, usize)>) -> bool {
    forall|i: int, j: int|
        0 <= i < s.len() && 0 <= j < s.len() && i != j ==> #[trigger] s[i].0@ != #[trigger] s[j].0@
}

/// Some entry of `s` has the name `name`.
pub open spec fn has_entry(s: Seq<(String, usize)>, name: Seq<char>) -> bool {
    exists|i: int| 0 <= i < s.len() && #[trigger] s[i].0@ == name
}

/// The counts of `s` keyed by their names.
pub open spec fn entry_map(s: Seq<(String, usize)>) -> Map<Seq<char>, usize> {
    Map::new(
        |name: Seq<char>| has_entry(s, name),
        |name: Seq<char>| s[choose|i: int| 0 <= i < s.len() && #[trigger] s[i].0@ == name].1,
    )
}

proof fn lemma_entry_map_at(s: Seq<(String, usize)>, i: int)
    requires
        entry_names_unique(s),
        0 <= i < s.len(),
    ensures
        entry_map(s).contains_key(s[i].0@),
        entry_map(s)[s[i].0@] == s[i].1,
{
    let name = s[i].0@;
    assert(has_entry(s, name));
    let j = choose|j: int| 0 <= j < s.len() && #[trigger] s[j].0@ == name;
    assert(s[j].0@ == name);
}

/// Setting the count of the entry of index `j` sets that one count of the map.
proof fn lemma_entry_map_update(s: Seq<(String, usize)>, j: int, e: (String, usize))
    requires
        entry_names_unique(s),
        0 <= j < s.len(),
        s[j].0@ == e.0@,
    ensures
        entry_names_unique(s.update(j, e)),
        entry_map(s.update(j, e)) =~= entry_map(s).insert(e.0@, e.1),
{
    let t = s.update(j, e);
    assert forall|a: int, b: int|
        0 <= a < t.len() && 0 <= b < t.len() && a != b implies #[trigger] t[a].0@ != #[trigger] t[b].0@ by {
        assert(t[a].0@ == s[a].0@);
        assert(t[b].0@ == s[b].0@);
    }
    assert forall|name: Seq<char>| #[trigger] has_entry(t, name) == has_entry(s, name) by {
        if has_entry(s, name) {
            let i = choose|i: int| 0 <= i < s.len() && #[trigger] s[i].0@ == name;
            assert(t[i].0@ == s[i].0@);
        }
        if has_entry(t, name) {
            let i = choose|i: int| 0 <= i < t.len() && #[trigger] t[i].0@ == name;
            assert(t[i].0@ == s[i].0@);
        }
    }
    assert(has_entry(s, e.0@)) by {
        assert(s[j].0@ == e.0@);
    }
    assert forall|name: Seq<char>| #[trigger] entry_map(t).contains_key(name) implies entry_map(
        t,
    )[name] == entry_map(s).insert(e.0@, e.1)[name] by {
        let i = choose|i: int| 0 <= i < t.len() && #[trigger] t[i].0@ == name;
        lemma_entry_map_at(t, i);
        if i != j {
            assert(t[i] == s[i]);
            lemma_entry_map_at(s, i);
        }
    }
}

/// Appending an entry under a name not yet taken adds that one count to the map.
proof fn lemma_entry_map_push(s: Seq<(String, usize)>, e: (String, usize))
    requires
        entry_names_unique(s),
        !has_entry(s, e.0@),
    ensures
        entry_names_unique(s.push(e)),
        entry_map(s.push(e)) =~= entry_map(s).insert(e.0@, e.1),
{
    let t = s.push(e);
    assert(t[s.len() as int] == e);
    assert forall|i: int, j: int|
        0 <= i < t.len() && 0 <= j < t.len() && i != j implies #[trigger] t[i].0@ != #[trigger] t[j].0@ by {
        if i < s.len() && j < s.len() {
            assert(t[i] == s[i] && t[j] == s[j]);
        } else if i < s.len() {
            assert(t[i] == s[i]);
        } else {
            assert(t[j] == s[j]);
        }
    }
    assert forall|name: Seq<char>| #[trigger] has_entry(t, name) == (has_entry(s, name) || name
        == e.0@) by {
        if has_entry(s, name) {
            let i = choose|i: int| 0 <= i < s.len() && #[trigger] s[i].0@ == name;
            assert(t[i] == s[i]);
        }
        if has_entry(t, name) && name != e.0@ {
            let i = choose|i: int| 0 <= i < t.len() && #[trigger] t[i].0@ == name;
            assert(t[i] == s[i]);
        }
    }
    assert forall|name: Seq<char>| #[trigger] entry_map(t).contains_key(name) implies entry_map(
        t,
    )[name] == entry_map(s).insert(e.0@, e.1)[name] by {
        let i = choose|i: int| 0 <= i < t.len() && #[trigger] t[i].0@ == name;
        lemma_entry_map_at(t, i);
        if i < s.len() {
            assert(t[i] == s[i]);
            lemma_entry_map_at(s, i);
        }
    }
}

/// The count of `name` in the counts `m`: zero for a name that is not there.
pub open spec fn count_in(m: Map<Seq<char>, usize>, name: Seq<char>) -> nat {
    if m.contains_key(name) {
        m[name] as nat
    } else {
        0
    }
}

/// The counts `m` after one more worker has started under `name`.
pub open spec fn counted_once_more(m: Map<Seq<char>, usize>, name: Seq<char>) -> Map<
    Seq<char>,
    usize,
> {
    m.insert(name, (count_in(m, name) + 1) as usize)
}

/// How often `name` occurs in `names`.
pub open spec fn occurrences(names: Seq<Seq<char>>, name: Seq<char>) -> nat
    decreases names.len(),
{
    if names.len() == 0 {
        0
    } else {
        occurrences(names.drop_last(), name) + if names.last() == name {
            1nat
        } else {
            0nat
        }
    }
}

/// The counts of a fresh registry after workers of the names `names` have
/// started, in that order, and the numbers that the workers got.
pub open spec fn registry_run(names: Seq<Seq<char>>) -> (Map<Seq<char>, usize>, Seq<nat>)
    decreases names.len(),
{
    if names.len() == 0 {
        (Map::empty(), Seq::empty())
    } else {
        let (m, numbers) = registry_run(names.drop_last());
        (counted_once_more(m, names.last()), numbers.push(count_in(m, names.last())))
    }
}

proof fn lemma_occurrences_bounded(names: Seq<Seq<char>>, name: Seq<char>)
    ensures
        occurrences(names, name) <= names.len(),
    decreases names.len(),
{
    if names.len() > 0 {
        lemma_occurrences_bounded(names.drop_last(), name);
    }
}

/// Workers started one after the other are numbered, per name, from zero up:
/// a worker's number is how many workers of its name started before it, and
/// the registry's count of a name is how many workers of that name started.
/// So no two workers of one name get the same number.
pub proof fn lemma_registry_numbers_per_name(names: Seq<Seq<char>>)
    requires
        names.len() < usize::MAX,
    ensures
        forall|name: Seq<char>| #[trigger]
            count_in(registry_run(names).0, name) == occurrences(names, name),
        registry_run(names).1.len() == names.len(),
        forall|i: int|
            0 <= i < names.len() ==> #[trigger] registry_run(names).1[i] == occurrences(
                names.take(i),
                names[i],
            ),
    decreases names.len(),
{
    if names.len() > 0 {
        let prev = names.drop_last();
        let x = names.last();
        lemma_registry_numbers_per_name(prev);
        let (m, numbers) = registry_run(prev);
        lemma_occurrences_bounded(prev, x);
        assert forall|name: Seq<char>| #[trigger]
            count_in(registry_run(names).0, name) == occurrences(names, name) by {
            assert(registry_run(names).0 == counted_once_more(m, x));
            assert(occurrences(names, name) == occurrences(prev, name) + if x == name {
                1nat
            } else {
                0nat
            });
            assert(count_in(m, name) == occurrences(prev, name));
            if name == x {
                assert(count_in(m, x) + 1 < usize::MAX + 1);
                assert(counted_once_more(m, x)[x] == (count_in(m, x) + 1) as usize);
            } else {
                assert(counted_once_more(m, x).contains_key(name) == m.contains_key(name));
            }
        }
        assert forall|i: int| 0 <= i < names.len() implies #[trigger] registry_run(names).1[i]
            == occurrences(names.take(i), names[i]) by {
            if i < names.len() - 1 {
                assert(prev.take(i) =~= names.take(i));
                assert(prev[i] == names[i]);
            } else {
                assert(names.take(i) =~= prev);
            }
        }
    }
}

/// How many workers have been started under each name: the number that the
/// next worker of a name gets is the count of that name so far.
pub struct WorkerRegistry {
    counts: Vec<(String, usize)>,
}

impl WorkerRegistry {
    /// The registry's own invariant: each name has one entry.
    pub closed spec fn wf(&self) -> bool {
        entry_names_unique(self.counts@)
    }

    /// The number of workers started so far, for each name that has started one.
    pub closed spec fn counts(&self) -> Map<Seq<char>, usize> {
        entry_map(self.counts@)
    }

    /// The number of workers started so far under `name`.
    pub open spec fn count_of(&self, name: Seq<char>) -> nat {
        count_in(self.counts(), name)
    }

    /// A registry in which no worker has been started.
    pub fn new() -> (r: Self)
        ensures
            r.wf(),
            r.counts() =~= Map::<Seq<char>, usize>::empty(),
    {
        WorkerRegistry { counts: Vec::new() }
    }

    /// The number of workers started so far under `name`.
    pub fn workers_started(&self, name: &str) -> (r: usize)
        requires
            self.wf(),
        ensures
            r == self.count_of(name@),
    {
        let mut i: usize = 0;
        while i < self.counts.len()
            invariant
                i <= self.counts@.len(),
                entry_names_unique(self.counts@),
                forall|k: int| 0 <= k < i ==> #[trigger] self.counts@[k].0@ != name@,
            decreases self.counts@.len() - i,
        {
            if str_equal(self.counts[i].0.as_str(), name) {
                proof {
                    lemma_entry_map_at(self.counts@, i as int);
                }
                return self.counts[i].1;
            }
            i = i + 1;
        }
        proof {
            assert(!has_entry(self.counts@, name@));
        }
        0
    }

    /// Counts one more worker under `name` and returns its number: the count of
    /// that name before the call, so workers of one name are numbered from zero.
    pub fn next_worker_index(&mut self, name: &str) -> (idx: usize)
        requires
            old(self).wf(),
            old(self).count_of(name@) < usize::MAX,
        ensures
            final(self).wf(),
            idx == old(self).count_of(name@),
            final(self).counts() == counted_once_more(old(self).counts(), name@),
    {
        let mut i: usize = 0;
        while i < self.counts.len()
            invariant
                i <= self.counts@.len(),
                self.counts@ == old(self).counts@,
                entry_names_unique(self.counts@),
                old(self).count_of(name@) < usize::MAX,
                forall|k: int| 0 <= k < i ==> #[trigger] self.counts@[k].0@ != name@,
            decreases self.counts@.len() - i,
        {
            if str_equal(self.counts[i].0.as_str(), name) {
                proof {
                    lemma_entry_map_at(self.counts@, i as int);
                }
                let idx = self.counts[i].1;
                let key = self.counts[i].0.clone();
                proof {
                    lemma_entry_map_update(self.counts@, i as int, (key, (idx + 1) as usize));
                }
                self.counts.set(i, (key, idx + 1));
                return idx;
            }
            i = i + 1;
        }
        let key = String::from_str(name);
        proof {
            assert(!has_entry(self.counts@, name@));
            lemma_entry_map_push(self.counts@, (key, 1usize));
        }
        self.counts.push((key, 1));
        0
    }
}

/// The name of a node's worker thread: the node's name, `-` and the worker's
/// number.
pub fn worker_thread_name(name: &str, idx: usize) -> (r: String)
    ensures
        r@ == indexed_name(name@, "-"@, idx as nat),
{
    indexed_thread_name(name, "-", idx)
}

/// The part a worker plays in the pipeline, from the channel endpoints it is
/// given.
#[derive(Debug, Clone, Copy, PartialEq, Eq, Structural)]
pub enum WorkerRole {
    /// No receiver, a sender: the worker produces messages.
    Source,
    /// A receiver and a sender: the worker turns messages into messages.
    Middle,
    /// A receiver, no sender: the worker consumes messages.
    Sink,
}

/// The role of a worker given a receiver (`has_receiver`) and a sender
/// (`has_sender`); a worker with neither has no role.
pub open spec fn spec_worker_role(has_receiver: bool, has_sender: bool) -> Option<WorkerRole> {
    if has_receiver {
        if has_sender {
            Some(WorkerRole::Middle)
        } else {
            Some(WorkerRole::Sink)
        }
    } else if has_sender {
        Some(WorkerRole::Source)
    } else {
        None
    }
}

/// A worker with a role receives exactly when it has a receiver and sends
/// exactly when it has a sender; a worker with neither has no role.
pub proof fn lemma_worker_role_endpoints(has_receiver: bool, has_sender: bool)
    ensures
        spec_worker_role(has_receiver, has_sender) is None <==> (!has_receiver && !has_sender),
        spec_worker_role(has_receiver, has_sender) matches Some(role) ==> {
            &&& (role != WorkerRole::Source) == has_receiver
            &&& (role != WorkerRole::Sink) == has_sender
        },
{
}

/// The role of a worker given whether it has a receiver and a sender.
pub fn worker_role(has_receiver: bool, has_sender: bool) -> (r: Option<WorkerRole>)
    ensures
        r == spec_worker_role(has_receiver, has_sender),
{
    if has_receiver {
        if has_sender {
            Some(WorkerRole::Middle)
        } else {
            Some(WorkerRole::Sink)
        }
    } else if has_sender {
        Some(WorkerRole::Source)
    } else {
        None
    }
}

/// Where a worker stands: each phase but `Idle` and `Done` waits for the
/// outcome of one action.
#[derive(Debug, Clone, Copy, PartialEq, Eq, Structural)]
pub enum WorkerPhase {
    /// Not started yet.
    Idle,
    /// Waiting for a message from the previous stage.
    Receiving,
    /// Waiting for the node's work on a received message.
    Handling,
    /// Waiting for the results of that work to be sent.
    Forwarding,
    /// Waiting for the source's work.
    Producing,
    /// Waiting for the source's results to be sent.
    Emitting,
    /// Waiting for the node's final work, after its input has ended.
    Flushing,
    /// Waiting for the results of the final work to be sent.
    FinalSending,
    /// Finished.
    Done,
}

/// What the driver of a worker reports: the worker was started, or the outcome
/// of the action it was last asked for.
pub enum WorkerEvent<T> {
    /// The worker was started.
    Started,
    /// A message arrived from the previous stage.
    Received(T),
    /// The previous stage is done: the receiver has no more messages.
    InputClosed,
    /// The node's `work_fn` returned this.
    Worked(Option<Vec<T>>),
    /// The messages to send have all been sent.
    Sent,
}

/// What a worker asks its driver to do next.
pub enum WorkerAction<T> {
    /// Receive the next message from the previous stage.
    Receive,
    /// Call the node's `work_fn` with this argument.
    Work(Option<T>),
    /// Send these messages, in order, to the next stage.
    Send(Vec<T>),
    /// Stop: the worker is finished.
    Stop,
}

/// The phases that a worker of a role can be in.
pub open spec fn phase_fits(role: WorkerRole, phase: WorkerPhase) -> bool {
    match phase {
        WorkerPhase::Idle | WorkerPhase::Done => true,
        WorkerPhase::Receiving | WorkerPhase::Handling | WorkerPhase::Flushing => role
            != WorkerRole::Source,
        WorkerPhase::Forwarding | WorkerPhase::FinalSending => role == WorkerRole::Middle,
        WorkerPhase::Producing | WorkerPhase::Emitting => role == WorkerRole::Source,
    }
}

/// How a worker of `role` in `phase` reacts to `event`: its next phase and the
/// action it asks for.
///
/// A source calls `work_fn(None)` and sends what it returns until it returns
/// `None`, which means that its job is done: it then stops. A middle node or a
/// sink receives messages and calls `work_fn` on each until its input ends; a
/// middle node sends what `work_fn` returns, a sink ignores it. Once the input
/// has ended, a middle node or a sink calls `work_fn(None)` once more, sends
/// what it returns unless it is a sink, and stops. An event that does not
/// answer the action the worker asked for stops it.
pub open spec fn worker_step<T>(role: WorkerRole, phase: WorkerPhase, event: WorkerEvent<T>) -> (
    WorkerPhase,
    WorkerAction<T>,
) {
    match (phase, event) {
        (WorkerPhase::Idle, WorkerEvent::Started) => if role == WorkerRole::Source {
            (WorkerPhase::Producing, WorkerAction::Work(None))
        } else {
            (WorkerPhase::Receiving, WorkerAction::Receive)
        },
        (WorkerPhase::Receiving, WorkerEvent::Received(v)) => (
            WorkerPhase::Handling,
            WorkerAction::Work(Some(v)),
        ),
        (WorkerPhase::Receiving, WorkerEvent::InputClosed) => (
            WorkerPhase::Flushing,
            WorkerAction::Work(None),
        ),
        (WorkerPhase::Handling, WorkerEvent::Worked(Some(vs))) => if role == WorkerRole::Middle {
            (WorkerPhase::Forwarding, WorkerAction::Send(vs))
        } else {
            (WorkerPhase::Receiving, WorkerAction::Receive)
        },
        (WorkerPhase::Handling, WorkerEvent::Worked(None)) => (
            WorkerPhase::Receiving,
            WorkerAction::Receive,
        ),
        (WorkerPhase::Forwarding, WorkerEvent::Sent) => (
            WorkerPhase::Receiving,
            WorkerAction::Receive,
        ),
        (WorkerPhase::Producing, WorkerEvent::Worked(Some(vs))) => (
            WorkerPhase::Emitting,
            WorkerAction::Send(vs),
        ),
        (WorkerPhase::Producing, WorkerEvent::Worked(None)) => (
            WorkerPhase::Done,
            WorkerAction::Stop,
        ),
        (WorkerPhase::Emitting, WorkerEvent::Sent) => (
            WorkerPhase::Producing,
            WorkerAction::Work(None),
        ),
        (WorkerPhase::Flushing, WorkerEvent::Worked(Some(vs))) => if role == WorkerRole::Sink {
            (WorkerPhase::Done, WorkerAction::Stop)
        } else {
            (WorkerPhase::FinalSending, WorkerAction::Send(vs))
        },
        _ => (WorkerPhase::Done, WorkerAction::Stop),
    }
}

/// The state of one worker: its role and its phase.
pub struct WorkerState {
    role: WorkerRole,
    phase: WorkerPhase,
}

impl WorkerState {
    pub closed spec fn role(&self) -> WorkerRole {
        self.role
    }

    pub closed spec fn phase(&self) -> WorkerPhase {
        self.phase
    }

    /// A worker of `role` that has not started.
    pub fn new(role: WorkerRole) -> (r: Self)
        ensures
            r.role() == role,
            r.phase() == WorkerPhase::Idle,
    {
        WorkerState { role, phase: WorkerPhase::Idle }
    }

    /// Whether the worker has finished.
    pub fn is_done(&self) -> (r: bool)
        ensures
            r == (self.phase() == WorkerPhase::Done),
    {
        self.phase == WorkerPhase::Done
    }

    /// Takes in `event` and returns the next action, as [`worker_step`] says.
    pub fn step<T>(&mut self, event: WorkerEvent<T>) -> (action: WorkerAction<T>)
        ensures
            final(self).role() == old(self).role(),
            (final(self).phase(), action) == worker_step(old(self).role(), old(self).phase(), event),
    {
        let role = self.role;
        let (phase, action) = match (self.phase, event) {
            (WorkerPhase::Idle, WorkerEvent::Started) => if role == WorkerRole::Source {
                (WorkerPhase::Producing, WorkerAction::Work(None))
            } else {
                (WorkerPhase::Receiving, WorkerAction::Receive)
            },
            (WorkerPhase::Receiving, WorkerEvent::Received(v)) => (
                WorkerPhase::Handling,
                WorkerAction::Work(Some(v)),
            ),
            (WorkerPhase::Receiving, WorkerEvent::InputClosed) => (
                WorkerPhase::Flushing,
                WorkerAction::Work(None),
            ),
            (WorkerPhase::Handling, WorkerEvent::Worked(Some(vs))) => if role
                == WorkerRole::Middle {
                (WorkerPhase::Forwarding, WorkerAction::Send(vs))
            } else {
                (WorkerPhase::Receiving, WorkerAction::Receive)
            },
            (WorkerPhase::Handling, WorkerEvent::Worked(None)) => (
                WorkerPhase::Receiving,
                WorkerAction::Receive,
            ),
            (WorkerPhase::Forwarding, WorkerEvent::Sent) => (
                WorkerPhase::Receiving,
                WorkerAction::Receive,
            ),
            (WorkerPhase::Producing, WorkerEvent::Worked(Some(vs))) => (
                WorkerPhase::Emitting,
                WorkerAction::Send(vs),
            ),
            (WorkerPhase::Producing, WorkerEvent::Worked(None)) => (
                WorkerPhase::Done,
                WorkerAction::Stop,
            ),
            (WorkerPhase::Emitting, WorkerEvent::Sent) => (
                WorkerPhase::Producing,
                WorkerAction::Work(None),
            ),
            (WorkerPhase::Flushing, WorkerEvent::Worked(Some(vs))) => if role
                == WorkerRole::Sink {
                (WorkerPhase::Done, WorkerAction::Stop)
            } else {
                (WorkerPhase::FinalSending, WorkerAction::Send(vs))
            },
            _ => (WorkerPhase::Done, WorkerAction::Stop),
        };
        self.phase = phase;
        action
    }
}

/// The phases a worker is in once its input has ended and its final work has
/// been asked for.
pub open spec fn is_final_phase(phase: WorkerPhase) -> bool {
    phase == WorkerPhase::Flushing || phase == WorkerPhase::FinalSending || phase
        == WorkerPhase::Done
}

/// The phase that a worker of `role` reaches from `phase` through `events`, and
/// the actions it asks for on the way, in order.
pub open spec fn worker_run<T>(role: WorkerRole, phase: WorkerPhase, events: Seq<WorkerEvent<T>>) -> (
    WorkerPhase,
    Seq<WorkerAction<T>>,
)
    decreases events.len(),
{
    if events.len() == 0 {
        (phase, Seq::empty())
    } else {
        let (next, action) = worker_step(role, phase, events[0]);
        let (last, actions) = worker_run(role, next, events.drop_first());
        (last, seq![action].add(actions))
    }
}

/// A worker stays within the phases of its role.
pub proof fn lemma_step_keeps_phase_fit<T>(
    role: WorkerRole,
    phase: WorkerPhase,
    event: WorkerEvent<T>,
)
    requires
        phase_fits(role, phase),
    ensures
        phase_fits(role, worker_step(role, phase, event).0),
{
}

/// A sink never sends.
pub proof fn lemma_sink_never_sends<T>(phase: WorkerPhase, event: WorkerEvent<T>)
    requires
        phase_fits(WorkerRole::Sink, phase),
    ensures
        !(worker_step(WorkerRole::Sink, phase, event).1 is Send),
{
}

/// A source never receives.
pub proof fn lemma_source_never_receives<T>(phase: WorkerPhase, event: WorkerEvent<T>)
    requires
        phase_fits(WorkerRole::Source, phase),
    ensures
        !(worker_step(WorkerRole::Source, phase, event).1 is Receive),
{
}

/// A message received by a middle node or a sink is handed to its `work_fn`
/// as it is.
pub proof fn lemma_received_message_handed_on<T>(role: WorkerRole, msg: T)
    ensures
        worker_step(role, WorkerPhase::Receiving, WorkerEvent::Received(msg)) == (
            WorkerPhase::Handling,
            WorkerAction::Work(Some(msg)),
        ),
{
}

/// What a middle node's `work_fn` returns for a message is sent on as it is; a
/// sink's is dropped and the sink receives again.
pub proof fn lemma_results_sent_on<T>(role: WorkerRole, msgs: Vec<T>)
    ensures
        role == WorkerRole::Middle ==> worker_step(
            role,
            WorkerPhase::Handling,
            WorkerEvent::Worked(Some(msgs)),
        ) == (WorkerPhase::Forwarding, WorkerAction::Send(msgs)),
        role == WorkerRole::Sink ==> worker_step(
            role,
            WorkerPhase::Handling,
            WorkerEvent::Worked(Some(msgs)),
        ) == (WorkerPhase::Receiving, WorkerAction::<T>::Receive),
{
}

/// A worker starts by asking for work if it is a source, and for a message
/// otherwise.
pub proof fn lemma_worker_starts<T>(role: WorkerRole)
    ensures
        role == WorkerRole::Source ==> worker_step(
            role,
            WorkerPhase::Idle,
            WorkerEvent::<T>::Started,
        ) == (WorkerPhase::Producing, WorkerAction::<T>::Work(None)),
        role != WorkerRole::Source ==> worker_step(
            role,
            WorkerPhase::Idle,
            WorkerEvent::<T>::Started,
        ) == (WorkerPhase::Receiving, WorkerAction::<T>::Receive),
{
}

/// What a source's `work_fn` produces is sent as it is, and once it has been
/// sent the source asks for work again.
pub proof fn lemma_source_sends_what_work_fn_made<T>(vs: Vec<T>)
    ensures
        worker_step(
            WorkerRole::Source,
            WorkerPhase::Producing,
            WorkerEvent::Worked(Some(vs)),
        ) == (WorkerPhase::Emitting, WorkerAction::Send(vs)),
        worker_step(WorkerRole::Source, WorkerPhase::Emitting, WorkerEvent::<T>::Sent) == (
            WorkerPhase::Producing,
            WorkerAction::<T>::Work(None),
        ),
{
}

/// A middle node or a sink goes back to receiving once a message has been
/// dealt with: when `work_fn` returned nothing for it, or when what it
/// returned has been sent.
pub proof fn lemma_worker_receives_again<T>(role: WorkerRole)
    ensures
        role != WorkerRole::Source ==> worker_step(
            role,
            WorkerPhase::Handling,
            WorkerEvent::<T>::Worked(None),
        ) == (WorkerPhase::Receiving, WorkerAction::<T>::Receive),
        role == WorkerRole::Middle ==> worker_step(
            role,
            WorkerPhase::Forwarding,
            WorkerEvent::<T>::Sent,
        ) == (WorkerPhase::Receiving, WorkerAction::<T>::Receive),
{
}

/// What the final `work_fn(None)` of a middle node returns is sent on as it
/// is, and the worker stops once it has been sent; a sink drops it and stops,
/// and a worker whose final work returns nothing stops at once.
pub proof fn lemma_final_results_sent_on<T>(role: WorkerRole, vs: Vec<T>)
    ensures
        role == WorkerRole::Middle ==> worker_step(
            role,
            WorkerPhase::Flushing,
            WorkerEvent::Worked(Some(vs)),
        ) == (WorkerPhase::FinalSending, WorkerAction::Send(vs)),
        role == WorkerRole::Middle ==> worker_step(
            role,
            WorkerPhase::FinalSending,
            WorkerEvent::<T>::Sent,
        ) == (WorkerPhase::Done, WorkerAction::<T>::Stop),
        role == WorkerRole::Sink ==> worker_step(
            role,
            WorkerPhase::Flushing,
            WorkerEvent::Worked(Some(vs)),
        ) == (WorkerPhase::Done, WorkerAction::<T>::Stop),
        role != WorkerRole::Source ==> worker_step(
            role,
            WorkerPhase::Flushing,
            WorkerEvent::<T>::Worked(None),
        ) == (WorkerPhase::Done, WorkerAction::<T>::Stop),
{
}

/// Whether `event` answers the action that a worker in `phase` is waiting on.
pub open spec fn answers<T>(phase: WorkerPhase, event: WorkerEvent<T>) -> bool {
    match phase {
        WorkerPhase::Idle => event is Started,
        WorkerPhase::Receiving => event is Received || event is InputClosed,
        WorkerPhase::Handling | WorkerPhase::Producing | WorkerPhase::Flushing => event is Worked,
        WorkerPhase::Forwarding | WorkerPhase::Emitting | WorkerPhase::FinalSending => event is Sent,
        WorkerPhase::Done => false,
    }
}

/// An event that does not answer what the worker is waiting on stops it.
pub proof fn lemma_out_of_turn_stops<T>(role: WorkerRole, phase: WorkerPhase, event: WorkerEvent<T>)
    requires
        !answers(phase, event),
    ensures
        worker_step(role, phase, event) == (WorkerPhase::Done, WorkerAction::<T>::Stop),
{
}

/// When the previous stage is done, a middle node or a sink calls
/// `work_fn(None)` for a last time; when a source's `work_fn` returns `None`,
/// its job is done and it stops.
pub proof fn lemma_end_of_input_flushes<T>(role: WorkerRole)
    ensures
        role != WorkerRole::Source ==> worker_step(
            role,
            WorkerPhase::Receiving,
            WorkerEvent::<T>::InputClosed,
        ) == (WorkerPhase::Flushing, WorkerAction::<T>::Work(None)),
        role == WorkerRole::Source ==> worker_step(
            role,
            WorkerPhase::Producing,
            WorkerEvent::<T>::Worked(None),
        ) == (WorkerPhase::Done, WorkerAction::<T>::Stop),
{
}

/// Once the final work has been asked for, a worker asks for nothing but
/// sending its results and stopping, whatever happens.
pub proof fn lemma_final_phases_closed<T>(
    role: WorkerRole,
    phase: WorkerPhase,
    events: Seq<WorkerEvent<T>>,
)
    requires
        is_final_phase(phase),
    ensures
        is_final_phase(worker_run(role, phase, events).0),
        worker_run(role, phase, events).1.len() == events.len(),
        forall|i: int|
            0 <= i < events.len() ==> {
                let a = #[trigger] worker_run(role, phase, events).1[i];
                a is Send || a is Stop
            },
    decreases events.len(),
{
    if events.len() > 0 {
        let (next, action) = worker_step(role, phase, events[0]);
        lemma_final_phases_closed(role, next, events.drop_first());
        let rest = worker_run(role, next, events.drop_first()).1;
        assert(worker_run(role, phase, events).1 == seq![action].add(rest));
        assert forall|i: int| 0 <= i < events.len() implies {
            let a = #[trigger] worker_run(role, phase, events).1[i];
            a is Send || a is Stop
        } by {
            if i > 0 {
                assert(worker_run(role, phase, events).1[i] == rest[i - 1]);
            }
        }
    }
}

/// Whether `a` asks for a call of `work_fn(None)`.
pub open spec fn is_work_without_input<T>(a: WorkerAction<T>) -> bool {
    a matches WorkerAction::Work(None)
}

/// A run asks for one action per event.
proof fn lemma_run_len<T>(role: WorkerRole, phase: WorkerPhase, events: Seq<WorkerEvent<T>>)
    ensures
        worker_run(role, phase, events).1.len() == events.len(),
    decreases events.len(),
{
    if events.len() > 0 {
        let (next, action) = worker_step(role, phase, events[0]);
        lemma_run_len(role, next, events.drop_first());
    }
}

/// A middle node or a sink calls `work_fn(None)` at most once, and as its last
/// call: once it has asked for it, it neither receives nor works again,
/// whatever happens.
pub proof fn lemma_final_work_is_last<T>(
    role: WorkerRole,
    phase: WorkerPhase,
    events: Seq<WorkerEvent<T>>,
)
    requires
        role != WorkerRole::Source,
        phase_fits(role, phase),
    ensures
        forall|i: int, j: int|
            0 <= i < j < events.len() && is_work_without_input(
                #[trigger] worker_run(role, phase, events).1[i],
            ) ==> {
                let a = #[trigger] worker_run(role, phase, events).1[j];
                !(a is Work) && !(a is Receive)
            },
    decreases events.len(),
{
    if events.len() > 0 {
        let (next, action) = worker_step(role, phase, events[0]);
        let rest_events = events.drop_first();
        let actions = worker_run(role, phase, events).1;
        let rest = worker_run(role, next, rest_events).1;
        assert(actions == seq![action].add(rest));
        lemma_run_len(role, next, rest_events);
        lemma_step_keeps_phase_fit(role, phase, events[0]);
        lemma_final_work_is_last(role, next, rest_events);
        if action matches WorkerAction::Work(None) {
            assert(next == WorkerPhase::Flushing);
            lemma_final_phases_closed(role, next, rest_events);
        }
        assert forall|i: int, j: int|
            0 <= i < j < events.len() && is_work_without_input(#[trigger] actions[i]) implies {
                let a = #[trigger] actions[j];
                !(a is Work) && !(a is Receive)
            } by {
            assert(actions[j] == rest[j - 1]);
            if i > 0 {
                assert(actions[i] == rest[i - 1]);
            } else {
                assert(actions[0] == action);
            }
        }
    }
}

/// A finished worker stays finished and asks only to stop.
pub proof fn lemma_done_is_final<T>(role: WorkerRole, event: WorkerEvent<T>)
    ensures
        worker_step(role, WorkerPhase::Done, event) == (WorkerPhase::Done, WorkerAction::<T>::Stop),
{
}

/// A finished worker stays finished and asks only to stop, whatever happens.
proof fn lemma_done_run_stops<T>(role: WorkerRole, events: Seq<WorkerEvent<T>>)
    ensures
        worker_run(role, WorkerPhase::Done, events).1.len() == events.len(),
        forall|j: int|
            0 <= j < events.len() ==> (#[trigger] worker_run(
                role,
                WorkerPhase::Done,
                events,
            ).1[j]) is Stop,
    decreases events.len(),
{
    if events.len() > 0 {
        let rest = worker_run(role, WorkerPhase::Done, events.drop_first()).1;
        lemma_done_run_stops(role, events.drop_first());
        assert(worker_run(role, WorkerPhase::Done, events).1 == seq![
            WorkerAction::<T>::Stop,
        ].add(rest));
        assert forall|j: int| 0 <= j < events.len() implies (#[trigger] worker_run(
            role,
            WorkerPhase::Done,
            events,
        ).1[j]) is Stop by {
            if j > 0 {
                assert(worker_run(role, WorkerPhase::Done, events).1[j] == rest[j - 1]);
            }
        }
    }
}

/// A source's `work_fn` returning `None` ends its job: from that answer on,
/// the source asks for no more work and sends nothing; every action it asks
/// for is to stop.
pub proof fn lemma_source_stops_at_none<T>(phase: WorkerPhase, events: Seq<WorkerEvent<T>>)
    requires
        phase_fits(WorkerRole::Source, phase),
    ensures
        forall|i: int, j: int|
            0 <= i <= j < events.len() && (#[trigger] events[i] matches WorkerEvent::Worked(
                None,
            )) ==> (#[trigger] worker_run(WorkerRole::Source, phase, events).1[j]) is Stop,
    decreases events.len(),
{
    if events.len() > 0 {
        let role = WorkerRole::Source;
        let (next, action) = worker_step(role, phase, events[0]);
        let rest_events = events.drop_first();
        let actions = worker_run(role, phase, events).1;
        let rest = worker_run(role, next, rest_events).1;
        assert(actions == seq![action].add(rest));
        lemma_run_len(role, next, rest_events);
        lemma_step_keeps_phase_fit(role, phase, events[0]);
        lemma_source_stops_at_none(next, rest_events);
        if events[0] matches WorkerEvent::Worked(None) {
            assert(next == WorkerPhase::Done);
            lemma_done_run_stops(role, rest_events);
        }
        assert forall|i: int, j: int|
            0 <= i <= j < events.len() && (#[trigger] events[i] matches WorkerEvent::Worked(
                None,
            )) implies (#[trigger] actions[j]) is Stop by {
            if j > 0 {
                assert(actions[j] == rest[j - 1]);
            }
            if i > 0 {
                assert(events[i] == rest_events[i - 1]);
            }
        }
    }
}

} // verus!
