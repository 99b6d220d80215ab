use crossbeam::channel::{bounded, Receiver, Sender};
use dag_scheduler::nodes::{worker_endpoints, CommonNode, TNode};
use dag_scheduler::scheduler::Scheduler;

type Work = fn(Vec<Receiver<i32>>, Vec<Sender<i32>>);
type Node = CommonNode<i32, Work>;

fn idle(_: Vec<Receiver<i32>>, _: Vec<Sender<i32>>) {}

/// Sends the number of its inputs on each of its senders.
fn count_inputs(receivers: Vec<Receiver<i32>>, senders: Vec<Sender<i32>>) {
    for s in senders {
        s.send(receivers.len() as i32).unwrap();
    }
}

fn node(name: &str, workers: usize, caps: &[usize]) -> Node {
    CommonNode::new(name, workers, caps, idle as Work)
}

#[test]
fn common_node_new() {
    let n = node("first", 2, &[10, 3]);
    assert_eq!(n.name(), "first");
    assert_eq!(n.num_workers(), 2);
    assert_eq!(n.outputs().len(), 2);
    assert_eq!(n.senders().len(), 2);
    assert!(n.inputs().is_empty());
    // Each sender writes to the output channel of the same index.
    n.senders()[1].send(4).unwrap();
    assert_eq!(n.outputs()[1].recv().unwrap(), 4);
    assert!(n.outputs()[0].try_recv().is_err());
}

#[test]
fn common_node_channels_have_the_capacities_given() {
    let n = node("caps", 1, &[1, 3]);
    assert!(n.senders()[0].try_send(1).is_ok());
    assert!(n.senders()[0].try_send(2).is_err());
    for k in 0..3 {
        assert!(n.senders()[1].try_send(k).is_ok());
    }
    assert!(n.senders()[1].try_send(3).is_err());
    assert_eq!(n.outputs()[0].recv().unwrap(), 1);
    assert_eq!(n.outputs()[1].recv().unwrap(), 0);
}

#[test]
fn common_node_work_runs_the_function() {
    let mut n: Node = CommonNode::new("w", 1, &[2], count_inputs as Work);
    let (_s, r) = bounded::<i32>(1);
    n.add_input(&r);
    let (receivers, senders) = worker_endpoints(&n);
    n.work(receivers, senders);
    assert_eq!(n.outputs()[0].recv().unwrap(), 1);
}

#[test]
fn common_node_mutable_access() {
    let mut n = node("m", 1, &[1]);
    n.outputs_mut().clear();
    assert!(n.outputs().is_empty());
    n.senders_mut().clear();
    assert!(n.senders().is_empty());
    assert!(n.inputs_mut().is_empty());
}

#[test]
fn scheduler_starts_empty_and_unsealed() {
    let sche: Scheduler<Node> = Scheduler::new();
    assert!(!sche.ready_to_start());
    assert!(sche.get_node("first").is_none());
}

#[test]
fn add_node_registers_under_name() {
    let mut sche = Scheduler::new();
    sche.add_node(false, &vec![], node("first", 2, &[10]));
    let got = sche.get_node("first").expect("first is registered");
    assert_eq!(got.name(), "first");
    assert_eq!(got.inputs().len(), 0);
    assert_eq!(got.outputs().len(), 1);
    assert!(sche.get_node("second").is_none());
}

#[test]
fn check_deps_needs_registered_names_and_outputs() {
    let mut sche = Scheduler::new();
    assert!(sche.check_deps(&vec![]));
    assert!(!sche.check_deps(&vec![("first", 0)]));
    sche.add_node(false, &vec![], node("first", 1, &[10]));
    sche.add_node(false, &vec![], node("second", 1, &[10, 10]));
    assert!(sche.check_deps(&vec![("first", 0)]));
    assert!(sche.check_deps(&vec![("second", 1), ("first", 0)]));
    assert!(!sche.check_deps(&vec![("first", 1)]));
    assert!(!sche.check_deps(&vec![("second", 1), ("third", 0)]));
}

#[test]
fn add_node_reads_from_picked_outputs() {
    let mut sche = Scheduler::new();
    sche.add_node(false, &vec![], node("first", 1, &[10]));
    sche.add_node(false, &vec![], node("second", 1, &[10, 10]));
    sche.add_node(false, &vec![("second", 1), ("first", 0)], node("third", 1, &[10]));

    let third = sche.get_node("third").unwrap();
    assert_eq!(third.inputs().len(), 2);
    // The inputs are the picked outputs, in the order of the pairs.
    sche.get_node("second").unwrap().senders()[1].send(2).unwrap();
    sche.get_node("first").unwrap().senders()[0].send(1).unwrap();
    assert_eq!(third.inputs()[0].recv().unwrap(), 2);
    assert_eq!(third.inputs()[1].recv().unwrap(), 1);
    // The nodes read from are unchanged.
    assert_eq!(sche.get_node("first").unwrap().inputs().len(), 0);
    assert_eq!(sche.get_node("second").unwrap().outputs().len(), 2);
}

#[test]
fn add_node_replaces_a_node_of_the_same_name() {
    let mut sche = Scheduler::new();
    sche.add_node(false, &vec![], node("first", 1, &[10]));
    sche.add_node(false, &vec![("first", 0)], node("first", 7, &[]));
    let got = sche.get_node("first").unwrap();
    assert_eq!(got.num_workers(), 7);
    assert_eq!(got.inputs().len(), 1);
    assert!(got.outputs().is_empty());
}

#[test]
fn seal_clears_outputs_and_keeps_inputs() {
    let mut sche = Scheduler::new();
    sche.add_node(false, &vec![], node("first", 1, &[10]));
    sche.add_node(false, &vec![("first", 0)], node("second", 1, &[10]));
    sche.seal();
    assert!(sche.ready_to_start());
    assert_eq!(sche.get_node("first").unwrap().outputs().len(), 0);
    assert_eq!(sche.get_node("second").unwrap().outputs().len(), 0);
    assert_eq!(sche.get_node("second").unwrap().inputs().len(), 1);
    assert_eq!(sche.get_node("first").unwrap().senders().len(), 1);
    let launches = sche.start();
    assert_eq!(launches.len(), 2);
}

#[test]
fn seal_twice_is_as_seal_once() {
    let mut sche = Scheduler::new();
    sche.add_node(false, &vec![], node("first", 1, &[10]));
    sche.seal();
    sche.seal();
    assert!(sche.ready_to_start());
    assert_eq!(sche.get_node("first").unwrap().outputs().len(), 0);
}

#[test]
fn worker_endpoints_copy_inputs_and_senders() {
    let mut n = node("n", 1, &[4]);
    let (s, r) = bounded::<i32>(4);
    n.add_input(&r);
    let (receivers, senders) = worker_endpoints(&n);
    assert_eq!(receivers.len(), 1);
    assert_eq!(senders.len(), 1);
    s.send(5).unwrap();
    assert_eq!(receivers[0].recv().unwrap(), 5);
    senders[0].send(9).unwrap();
    assert_eq!(n.outputs()[0].recv().unwrap(), 9);
}

#[test]
fn add_last_node_returns_its_outputs_and_seals() {
    let mut sche = Scheduler::new();
    assert!(sche.add_node(false, &vec![], node("first", 2, &[10])).is_none());
    assert!(!sche.ready_to_start());
    let outputs = sche
        .add_node(true, &vec![("first", 0)], node("second", 2, &[10, 5]))
        .expect("the last node's outputs");
    assert_eq!(outputs.len(), 2);
    assert!(sche.ready_to_start());
    assert_eq!(sche.get_node("second").unwrap().outputs().len(), 0);
    assert_eq!(sche.get_node("first").unwrap().outputs().len(), 0);
    // The returned receivers read what the last node writes.
    sche.get_node("second").unwrap().senders()[1].send(8).unwrap();
    assert_eq!(outputs[1].recv().unwrap(), 8);
}

#[test]
fn start_hands_out_one_endpoint_set_per_worker() {
    let mut sche = Scheduler::new();
    sche.add_node(false, &vec![], node("first", 2, &[10]));
    sche.add_node(true, &vec![("first", 0)], node("second", 3, &[10]));
    let launches = sche.start();
    assert_eq!(launches.len(), 2);
    let first = launches.iter().find(|l| l.name == "first").unwrap();
    let second = launches.iter().find(|l| l.name == "second").unwrap();
    assert_eq!(first.workers.len(), 2);
    assert_eq!(second.workers.len(), 3);
    for (inputs, senders) in &first.workers {
        assert!(inputs.is_empty());
        assert_eq!(senders.len(), 1);
    }
    for (inputs, senders) in &second.workers {
        assert_eq!(inputs.len(), 1);
        assert_eq!(senders.len(), 1);
    }
    // The nodes gave up their senders to the workers.
    assert!(sche.get_node("first").unwrap().senders().is_empty());
    assert!(sche.get_node("second").unwrap().senders().is_empty());
    // A worker of "first" writes to what the workers of "second" read.
    first.workers[0].1[0].send(3).unwrap();
    assert_eq!(second.workers[2].0[0].recv().unwrap(), 3);
}

fn init(_: Vec<Receiver<i32>>, outputs: Vec<Sender<i32>>) {
    for _ in 0..100 {
        outputs[0].send(1).unwrap();
    }
}

fn add_one(inputs: Vec<Receiver<i32>>, outputs: Vec<Sender<i32>>) {
    for v in inputs[0].iter() {
        outputs[0].send(v + 1).unwrap();
    }
}

fn add_two(inputs: Vec<Receiver<i32>>, outputs: Vec<Sender<i32>>) {
    for v in inputs[0].iter() {
        outputs[0].send(v + 2).unwrap();
    }
}

/// The graph of the library's example, with channels large enough to run its
/// workers one after the other on the test's thread.
#[test]
fn graph_runs_to_its_last_output() {
    let mut sche = Scheduler::new();
    sche.add_node(false, &vec![], CommonNode::new("first", 2, &[1000], init as Work));
    sche.add_node(false, &vec![("first", 0)], CommonNode::new("second", 2, &[1000], add_one as Work));
    let outputs = sche
        .add_node(true, &vec![("second", 0)], CommonNode::new("third", 2, &[1000], add_two as Work))
        .unwrap();
    let mut launches = sche.start();
    for name in ["first", "second", "third"] {
        let pos = launches.iter().position(|l| l.name == name).unwrap();
        let launch = launches.remove(pos);
        let node = sche.get_node(name).unwrap();
        for (inputs, senders) in launch.workers {
            node.work(inputs, senders);
        }
    }
    let result: Vec<i32> = outputs[0].iter().collect();
    assert_eq!(result, vec![4; 200]);
}
