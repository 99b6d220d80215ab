use crossbeam::channel::{bounded, Receiver, Sender};
use dag_scheduler::pipeline::ppl_node::TPplNode as EarlyNode;
use dag_scheduler::pipeline_v2::ppl_node::MiddleNode;
use dag_scheduler::pipeline_v2::ppl_scheduler::{NodeType, PplScheduler};

#[test]
fn draft_pipeline_from_source_to_sinks() {
    let mut sched = PplScheduler::new();
    sched.add_single_worker_nodes(NodeType::Source, MiddleNode::new(2));
    sched.add_single_worker_nodes(NodeType::Middle(3), MiddleNode::new(1));
    sched.add_single_worker_nodes(NodeType::Sink(2), MiddleNode::new(1));
    // In the draft, a sink may follow a sink.
    sched.add_single_worker_nodes(NodeType::Sink(1), MiddleNode::new(1));
    sched.start();
    sched.start();
}

struct Early;

impl EarlyNode for Early {
    type Value = i32;
}

#[test]
fn early_node_work_does_nothing_by_default() {
    let (s, r): (Sender<i32>, Receiver<i32>) = bounded(1);
    let node = Early;
    node.work_source(0, s.clone());
    node.work_middle(1, r.clone(), s.clone());
    node.work_sink(2, r.clone());
    assert!(r.try_recv().is_err());
}
