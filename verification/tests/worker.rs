use crossbeam::channel::{Receiver, Sender};
use dag_scheduler::pipeline::ppl_scheduler::PplScheduler;
use dag_scheduler::pipeline_v2::ppl_node::{
    worker_role, worker_thread_name, DummyMsg, MiddleNode, NodeType, SinkNode, SourceNode,
    TPplNode, WorkerAction, WorkerEvent, WorkerPhase, WorkerRegistry, WorkerRole, WorkerState,
};
use dag_scheduler::channel::MAX_CHANNEL_CAPACITY;
use dag_scheduler::ppl_v2::{stage_channel, stage_thread_names, StageChannelError};

fn is_receive<T>(a: &WorkerAction<T>) -> bool {
    matches!(a, WorkerAction::Receive)
}

fn is_stop<T>(a: &WorkerAction<T>) -> bool {
    matches!(a, WorkerAction::Stop)
}

fn work_arg<T: Copy>(a: &WorkerAction<T>) -> Option<Option<T>> {
    match a {
        WorkerAction::Work(x) => Some(*x),
        _ => None,
    }
}

fn sent<T: Clone>(a: &WorkerAction<T>) -> Option<Vec<T>> {
    match a {
        WorkerAction::Send(v) => Some(v.clone()),
        _ => None,
    }
}

#[test]
fn roles_follow_the_endpoints() {
    assert_eq!(worker_role(true, true), Some(WorkerRole::Middle));
    assert_eq!(worker_role(true, false), Some(WorkerRole::Sink));
    assert_eq!(worker_role(false, true), Some(WorkerRole::Source));
    assert_eq!(worker_role(false, false), None);
}

#[test]
fn middle_worker_forwards_and_flushes_once() {
    let mut w = WorkerState::new(WorkerRole::Middle);
    assert!(!w.is_done());
    assert!(is_receive(&w.step::<i32>(WorkerEvent::Started)));
    assert_eq!(work_arg(&w.step(WorkerEvent::Received(5))), Some(Some(5)));
    assert_eq!(sent(&w.step(WorkerEvent::Worked(Some(vec![50, 51])))), Some(vec![50, 51]));
    assert!(is_receive(&w.step::<i32>(WorkerEvent::Sent)));
    assert_eq!(work_arg(&w.step(WorkerEvent::Received(6))), Some(Some(6)));
    // Nothing to send: receive again.
    assert!(is_receive(&w.step::<i32>(WorkerEvent::Worked(None))));
    // Input ends: one last call with `None`.
    assert_eq!(work_arg(&w.step::<i32>(WorkerEvent::InputClosed)), Some(None));
    assert_eq!(sent(&w.step(WorkerEvent::Worked(Some(vec![9])))), Some(vec![9]));
    assert!(is_stop(&w.step::<i32>(WorkerEvent::Sent)));
    assert!(w.is_done());
    assert!(is_stop(&w.step::<i32>(WorkerEvent::Started)));
}

#[test]
fn sink_worker_ignores_results_and_never_sends() {
    let mut w = WorkerState::new(WorkerRole::Sink);
    assert!(is_receive(&w.step::<i32>(WorkerEvent::Started)));
    assert_eq!(work_arg(&w.step(WorkerEvent::Received(1))), Some(Some(1)));
    assert!(is_receive(&w.step(WorkerEvent::Worked(Some(vec![1])))));
    assert_eq!(work_arg(&w.step::<i32>(WorkerEvent::InputClosed)), Some(None));
    assert!(is_stop(&w.step(WorkerEvent::Worked(Some(vec![2])))));
    assert!(w.is_done());
}

#[test]
fn source_worker_produces_until_none_then_stops() {
    let mut w = WorkerState::new(WorkerRole::Source);
    assert_eq!(work_arg(&w.step::<i32>(WorkerEvent::Started)), Some(None));
    assert_eq!(sent(&w.step(WorkerEvent::Worked(Some(vec![2])))), Some(vec![2]));
    assert_eq!(work_arg(&w.step::<i32>(WorkerEvent::Sent)), Some(None));
    // `None` from a source means that its job is done: no further call.
    assert!(is_stop(&w.step::<i32>(WorkerEvent::Worked(None))));
    assert!(w.is_done());
    assert!(is_stop(&w.step::<i32>(WorkerEvent::Sent)));
    assert!(w.is_done());
}

#[test]
fn out_of_turn_event_stops_the_worker() {
    let mut w = WorkerState::new(WorkerRole::Middle);
    assert!(is_stop(&w.step::<i32>(WorkerEvent::Sent)));
    assert!(w.is_done());
    let mut s = WorkerState::new(WorkerRole::Source);
    let _ = s.step::<i32>(WorkerEvent::Started);
    assert!(is_stop(&s.step(WorkerEvent::Received(3))));
}

#[test]
fn registry_numbers_workers_of_a_name_from_zero() {
    let mut reg = WorkerRegistry::new();
    assert_eq!(reg.workers_started("SourceNode"), 0);
    assert_eq!(reg.next_worker_index("SourceNode"), 0);
    assert_eq!(reg.next_worker_index("SourceNode"), 1);
    assert_eq!(reg.next_worker_index("SinkNode"), 0);
    assert_eq!(reg.next_worker_index("SourceNode"), 2);
    assert_eq!(reg.workers_started("SourceNode"), 3);
    assert_eq!(reg.workers_started("SinkNode"), 1);
    assert_eq!(reg.workers_started("MiddleNode"), 0);
}

#[test]
fn worker_and_stage_thread_names() {
    assert_eq!(worker_thread_name("SourceNode", 0), "SourceNode-0");
    assert_eq!(worker_thread_name("SinkNode", 12), "SinkNode-12");
    assert_eq!(
        stage_thread_names("source", 3),
        vec!["source_0".to_string(), "source_1".to_string(), "source_2".to_string()]
    );
    assert!(stage_thread_names("sink", 0).is_empty());
    let names = stage_thread_names("Multiply", 11);
    assert_eq!(names[10], "Multiply_10");
}

#[test]
fn thread_names_tell_workers_apart() {
    let mut reg = WorkerRegistry::new();
    let mut names = vec![];
    for node in ["SourceNode", "SourceNode-1", "SourceNode", "SinkNode"] {
        let idx = reg.next_worker_index(node);
        names.push(worker_thread_name(node, idx));
    }
    assert_eq!(names, vec!["SourceNode-0", "SourceNode-1-0", "SourceNode-1", "SinkNode-0"]);
    for i in 0..names.len() {
        for j in 0..i {
            assert_ne!(names[i], names[j]);
        }
    }
    assert_ne!(worker_thread_name("a", 1), worker_thread_name("a", 10));
}

#[test]
fn stage_channel_needs_a_capacity() {
    assert_eq!(stage_channel::<i32>(None).err(), Some(StageChannelError::NoCapacity));
    assert_eq!(
        stage_channel::<i32>(Some(MAX_CHANNEL_CAPACITY + 1)).err(),
        Some(StageChannelError::CapacityTooLarge)
    );
    let ch = stage_channel::<i32>(Some(10)).unwrap();
    assert_eq!(ch.cap(), 10);
    let (s, r) = ch.into_ends();
    s.send(3).unwrap();
    assert_eq!(r.recv().unwrap(), 3);
    // The channel holds ten messages, and no more.
    for k in 0..10 {
        s.try_send(k).unwrap();
    }
    assert!(s.try_send(10).is_err());
    assert_eq!(r.recv().unwrap(), 0);
    // A zero capacity is a channel too: a send waits for a receive.
    let ch0 = stage_channel::<i32>(Some(0)).unwrap();
    assert_eq!(ch0.cap(), 0);
    let (s0, _r0) = ch0.into_ends();
    assert!(s0.try_send(1).is_err());
}

enum DemoNode {
    Source(SourceNode),
    Middle(MiddleNode),
    Sink(SinkNode),
}

impl TPplNode for DemoNode {
    type MsgType = DummyMsg;

    fn work_fn(&mut self, inp_v: Option<DummyMsg>) -> Option<Vec<DummyMsg>> {
        match self {
            DemoNode::Source(n) => n.work_fn(inp_v),
            DemoNode::Middle(n) => n.work_fn(inp_v),
            DemoNode::Sink(n) => n.work_fn(inp_v),
        }
    }

    fn name(&self) -> &str {
        match self {
            DemoNode::Source(n) => n.name(),
            DemoNode::Middle(n) => n.name(),
            DemoNode::Sink(n) => n.name(),
        }
    }
}

/// One worker, driven a step at a time on the test's thread.
struct SimWorker<N: TPplNode> {
    node: N,
    state: WorkerState,
    pending: Option<WorkerAction<N::MsgType>>,
    outbox: std::collections::VecDeque<N::MsgType>,
    receiver: Option<Receiver<N::MsgType>>,
    sender: Option<Sender<N::MsgType>>,
    sent: usize,
    done: bool,
}

impl<N: TPplNode> SimWorker<N> {
    fn new(node: N, receiver: Option<Receiver<N::MsgType>>, sender: Option<Sender<N::MsgType>>) -> Self {
        let role = worker_role(receiver.is_some(), sender.is_some()).expect("a worker needs an endpoint");
        let mut state = WorkerState::new(role);
        let first = state.step(WorkerEvent::Started);
        SimWorker {
            node,
            state,
            pending: Some(first),
            outbox: std::collections::VecDeque::new(),
            receiver,
            sender,
            sent: 0,
            done: false,
        }
    }

    /// Advances the worker as far as it can go without waiting; tells whether
    /// it moved.
    fn advance(&mut self) -> bool {
        if self.done {
            return false;
        }
        match self.pending.take().unwrap() {
            WorkerAction::Receive => match self.receiver.as_ref().unwrap().try_recv() {
                Ok(v) => self.pending = Some(self.state.step(WorkerEvent::Received(v))),
                Err(crossbeam::channel::TryRecvError::Empty) => {
                    self.pending = Some(WorkerAction::Receive);
                    return false;
                }
                Err(crossbeam::channel::TryRecvError::Disconnected) => {
                    self.pending = Some(self.state.step(WorkerEvent::InputClosed))
                }
            },
            WorkerAction::Work(inp) => {
                let out = self.node.work_fn(inp);
                self.pending = Some(self.state.step(WorkerEvent::Worked(out)));
            }
            WorkerAction::Send(vals) => {
                self.outbox.extend(vals);
                self.pending = Some(WorkerAction::Send(vec![]));
                while let Some(v) = self.outbox.pop_front() {
                    match self.sender.as_ref().unwrap().try_send(v) {
                        Ok(()) => self.sent += 1,
                        Err(crossbeam::channel::TrySendError::Full(v)) => {
                            self.outbox.push_front(v);
                            return false;
                        }
                        Err(crossbeam::channel::TrySendError::Disconnected(_)) => {
                            panic!("the next stage is gone")
                        }
                    }
                }
                self.pending = Some(self.state.step(WorkerEvent::Sent));
            }
            WorkerAction::Stop => {
                assert!(self.state.is_done());
                self.done = true;
                self.receiver = None;
                self.sender = None;
            }
        }
        true
    }
}

#[test]
fn test_pipeline_v2() {
    let source_nodes: Vec<DemoNode> = SourceNode::new(5).into_iter().map(DemoNode::Source).collect();
    let middle_nodes: Vec<DemoNode> = MiddleNode::new(3).into_iter().map(DemoNode::Middle).collect();
    let sink_nodes: Vec<DemoNode> = SinkNode::new(4).into_iter().map(DemoNode::Sink).collect();
    let mut pipeline = PplScheduler::new();
    pipeline.add_single_worker_nodes(NodeType::Source(2), source_nodes);
    pipeline.add_single_worker_nodes(NodeType::Middle(2), middle_nodes);
    pipeline.add_single_worker_nodes(NodeType::Sink, sink_nodes);
    let (launches, last) = pipeline.start(None);
    assert!(last.is_none());
    let mut workers = vec![];
    let mut stage_of = vec![];
    for (stage, launch) in launches.into_iter().enumerate() {
        for node in launch.nodes {
            workers.push(SimWorker::new(node, launch.receiver.clone(), launch.sender.clone()));
            stage_of.push(stage);
        }
    }
    let mut rounds = 0;
    while workers.iter().any(|w| !w.done) {
        rounds += 1;
        assert!(rounds < 10_000, "the pipeline does not finish");
        for w in workers.iter_mut() {
            while w.advance() {}
        }
    }
    let per_stage = |k: usize| -> usize {
        workers.iter().zip(stage_of.iter()).filter(|(_, st)| **st == k).map(|(w, _)| w.sent).sum()
    };
    // Five sources send two messages each; the middle stage sends them all on.
    assert_eq!(per_stage(0), 10);
    assert_eq!(per_stage(1), 10);
    assert_eq!(per_stage(2), 0);
}
