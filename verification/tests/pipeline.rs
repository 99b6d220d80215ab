use crossbeam::channel::bounded;
use dag_scheduler::pipeline::ppl_scheduler::{AddStageError, PplScheduler, StageLaunch, StartError};
use dag_scheduler::channel::MAX_CHANNEL_CAPACITY;
use dag_scheduler::pipeline_v2::ppl_node::{
    DummyMsg, MiddleNode, NodeType, SinkNode, SourceNode, TPplNode,
};

#[test]
fn new_pipeline_is_empty_and_not_started() {
    let sched: PplScheduler<SourceNode> = PplScheduler::new();
    assert!(!sched.started());
    assert!(sched.node_types().is_empty());
}

#[test]
fn add_stages_records_kinds_in_order() {
    let mut sched = PplScheduler::new();
    sched.add_single_worker_nodes(NodeType::Middle(3), MiddleNode::new(2));
    sched.add_single_worker_nodes(NodeType::Middle(1), MiddleNode::new(1));
    sched.add_single_worker_nodes(NodeType::Sink, vec![MiddleNode {}]);
    assert_eq!(
        sched.node_types(),
        &vec![NodeType::Middle(3), NodeType::Middle(1), NodeType::Sink]
    );
}

#[test]
fn start_wires_a_source_to_the_pipeline_output() {
    let mut sched = PplScheduler::new();
    sched.add_single_worker_nodes(NodeType::Source(2), SourceNode::new(3));
    let (launches, last): (Vec<StageLaunch<SourceNode>>, _) = sched.start(None);
    assert!(sched.started());
    assert_eq!(launches.len(), 1);
    assert_eq!(launches[0].nodes.len(), 3);
    assert!(launches[0].receiver.is_none());
    let sender = launches[0].sender.as_ref().expect("a source writes to a channel");
    let last = last.expect("a pipeline without a sink hands out its end");
    sender.send(DummyMsg { val: 7 }).unwrap();
    assert_eq!(last.recv().unwrap().val, 7);
}

#[test]
fn start_connects_consecutive_stages() {
    let mut sched = PplScheduler::new();
    sched.add_single_worker_nodes(NodeType::Middle(4), MiddleNode::new(1));
    sched.add_single_worker_nodes(NodeType::Middle(4), MiddleNode::new(2));
    sched.add_single_worker_nodes(NodeType::Sink, MiddleNode::new(1));
    let (feed, first_recv) = bounded::<DummyMsg>(4);
    let (launches, last) = sched.start(Some(first_recv));
    assert_eq!(launches.len(), 3);
    assert!(last.is_none());
    assert_eq!(launches[1].nodes.len(), 2);
    // The first stage reads from the caller's receiver.
    feed.send(DummyMsg { val: 1 }).unwrap();
    assert_eq!(launches[0].receiver.as_ref().unwrap().recv().unwrap().val, 1);
    // Each later stage reads what the stage before writes.
    launches[0].sender.as_ref().unwrap().send(DummyMsg { val: 2 }).unwrap();
    assert_eq!(launches[1].receiver.as_ref().unwrap().recv().unwrap().val, 2);
    launches[1].sender.as_ref().unwrap().send(DummyMsg { val: 3 }).unwrap();
    assert_eq!(launches[2].receiver.as_ref().unwrap().recv().unwrap().val, 3);
    // The sink writes nowhere.
    assert!(launches[2].sender.is_none());
}

#[test]
fn source_node_counts_down_from_two() {
    let mut nodes = SourceNode::new(1);
    let node = &mut nodes[0];
    let first = node.work_fn(None).unwrap();
    assert_eq!(first.len(), 1);
    assert_eq!(first[0].val, 2);
    assert_eq!(node.work_fn(None).unwrap()[0].val, 1);
    assert!(node.work_fn(None).is_none());
    assert!(node.work_fn(None).is_none());
    assert_eq!(node.name(), "SourceNode");
}

#[test]
fn middle_node_multiplies_by_ten() {
    let mut node = MiddleNode::new(1).pop().unwrap();
    let out = node.work_fn(Some(DummyMsg { val: 4 })).unwrap();
    assert_eq!(out.len(), 1);
    assert_eq!(out[0].val, 40);
    assert!(node.work_fn(None).is_none());
    assert_eq!(node.name(), "MiddleNode");
}

#[test]
fn sink_node_sends_nothing() {
    let mut node = SinkNode::new(1).pop().unwrap();
    assert!(node.work_fn(Some(DummyMsg { val: 4 })).is_none());
    assert!(node.work_fn(None).is_none());
    assert_eq!(node.name(), "SinkNode");
}

#[test]
fn node_constructors_build_the_count_asked() {
    assert_eq!(SourceNode::new(5).len(), 5);
    assert_eq!(MiddleNode::new(3).len(), 3);
    assert_eq!(SinkNode::new(4).len(), 4);
    assert_eq!(SinkNode::new(0).len(), 0);
}

#[test]
fn check_add_refuses_misplaced_stages() {
    let mut sched: PplScheduler<MiddleNode> = PplScheduler::new();
    assert_eq!(sched.check_add(NodeType::Source(1)), Ok(()));
    assert_eq!(sched.check_add(NodeType::Sink), Ok(()));
    assert_eq!(
        sched.check_add(NodeType::Middle(MAX_CHANNEL_CAPACITY + 1)),
        Err(AddStageError::CapacityTooLarge)
    );
    sched.add_single_worker_nodes(NodeType::Source(1), MiddleNode::new(1));
    assert_eq!(sched.check_add(NodeType::Source(1)), Err(AddStageError::SourceNotFirst));
    assert_eq!(sched.check_add(NodeType::Middle(1)), Ok(()));
    sched.add_single_worker_nodes(NodeType::Sink, MiddleNode::new(1));
    assert_eq!(sched.check_add(NodeType::Middle(1)), Err(AddStageError::AfterSink));
    assert_eq!(sched.check_add(NodeType::Sink), Err(AddStageError::AfterSink));
    assert_eq!(sched.check_add(NodeType::Source(1)), Err(AddStageError::SourceNotFirst));
    let _ = sched.start(None);
    assert_eq!(sched.check_add(NodeType::Sink), Err(AddStageError::Started));
}

#[test]
fn check_start_needs_stages_and_a_first_receiver() {
    let mut sched: PplScheduler<MiddleNode> = PplScheduler::new();
    assert_eq!(sched.check_start(true), Err(StartError::Empty));
    sched.add_single_worker_nodes(NodeType::Middle(1), MiddleNode::new(1));
    assert_eq!(sched.check_start(false), Err(StartError::MissingFirstReceiver));
    assert_eq!(sched.check_start(true), Ok(()));
    let (_s, r) = bounded::<DummyMsg>(1);
    let _ = sched.start(Some(r));
    assert_eq!(sched.check_start(true), Err(StartError::Started));

    let mut with_source: PplScheduler<SourceNode> = PplScheduler::new();
    with_source.add_single_worker_nodes(NodeType::Source(1), SourceNode::new(1));
    assert_eq!(with_source.check_start(false), Ok(()));
}

#[test]
fn stage_channels_have_the_capacity_of_their_kind() {
    let mut sched: PplScheduler<MiddleNode> = PplScheduler::new();
    sched.add_single_worker_nodes(NodeType::Source(2), MiddleNode::new(1));
    sched.add_single_worker_nodes(NodeType::Middle(1), MiddleNode::new(1));
    let (launches, last) = sched.start(None);
    let s0 = launches[0].sender.as_ref().unwrap();
    assert!(s0.try_send(DummyMsg { val: 1 }).is_ok());
    assert!(s0.try_send(DummyMsg { val: 2 }).is_ok());
    assert!(s0.try_send(DummyMsg { val: 3 }).is_err());
    let s1 = launches[1].sender.as_ref().unwrap();
    assert!(s1.try_send(DummyMsg { val: 4 }).is_ok());
    assert!(s1.try_send(DummyMsg { val: 5 }).is_err());
    assert_eq!(launches[1].receiver.as_ref().unwrap().recv().unwrap().val, 1);
    assert_eq!(last.unwrap().recv().unwrap().val, 4);
}
