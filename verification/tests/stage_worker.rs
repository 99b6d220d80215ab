use crossbeam::channel::bounded;
use dag_scheduler::ppl_v3::{StageAction, StageEvent, StageRole, StageWorker};

fn is_produce<R, S>(a: &StageAction<R, S>) -> bool {
    matches!(a, StageAction::Produce)
}

fn is_receive<R, S>(a: &StageAction<R, S>) -> bool {
    matches!(a, StageAction::Receive)
}

fn is_stop<R, S>(a: &StageAction<R, S>) -> bool {
    matches!(a, StageAction::Stop)
}

fn sent<R, S: Copy>(a: &StageAction<R, S>) -> Option<S> {
    match a {
        StageAction::Send(v) => Some(*v),
        _ => None,
    }
}

#[test]
fn init_worker_sends_until_the_handler_has_nothing() {
    let mut w = StageWorker::new(StageRole::Init);
    assert!(is_produce(&w.step::<(), i32>(StageEvent::Started)));
    assert_eq!(sent(&w.step::<(), i32>(StageEvent::Produced(Some(5)))), Some(5));
    assert!(is_produce(&w.step::<(), i32>(StageEvent::Sent)));
    assert_eq!(sent(&w.step::<(), i32>(StageEvent::Produced(Some(4)))), Some(4));
    assert!(is_produce(&w.step::<(), i32>(StageEvent::Sent)));
    assert!(is_stop(&w.step::<(), i32>(StageEvent::Produced(None))));
    assert!(w.is_done());
    assert!(is_stop(&w.step::<(), i32>(StageEvent::Sent)));
    assert!(w.is_done());
}

#[test]
fn intermediate_worker_sends_what_the_handler_makes() {
    let mut w = StageWorker::new(StageRole::Intermediate);
    assert!(is_receive(&w.step::<i32, i32>(StageEvent::Started)));
    match w.step::<i32, i32>(StageEvent::Received(3)) {
        StageAction::Process(v) => assert_eq!(v, 3),
        _ => panic!("a received message goes to the handler"),
    }
    assert_eq!(sent(&w.step::<i32, i32>(StageEvent::Processed(30))), Some(30));
    assert!(is_receive(&w.step::<i32, i32>(StageEvent::Sent)));
    assert!(is_stop(&w.step::<i32, i32>(StageEvent::InputClosed)));
    assert!(w.is_done());
}

#[test]
fn sink_worker_consumes_until_input_ends() {
    let mut w = StageWorker::new(StageRole::Sink);
    assert!(is_receive(&w.step::<i32, ()>(StageEvent::Started)));
    match w.step::<i32, ()>(StageEvent::Received(7)) {
        StageAction::Consume(v) => assert_eq!(v, 7),
        _ => panic!("a sink hands a received message to its handler"),
    }
    assert!(is_receive(&w.step::<i32, ()>(StageEvent::Consumed)));
    assert!(is_stop(&w.step::<i32, ()>(StageEvent::InputClosed)));
    assert!(w.is_done());
}

#[test]
fn stage_worker_stops_on_an_event_out_of_turn() {
    let mut w = StageWorker::new(StageRole::Init);
    assert!(is_produce(&w.step::<i32, i32>(StageEvent::Started)));
    assert!(is_stop(&w.step::<i32, i32>(StageEvent::Received(1))));
    assert!(w.is_done());
    let mut s = StageWorker::new(StageRole::Sink);
    assert!(is_stop(&s.step::<i32, ()>(StageEvent::Consumed)));
}

#[test]
fn stage_workers_carry_messages_through_channels() {
    // A first stage producing 3, 2, 1, a middle stage adding one, a sink
    // summing: each driven in turn on this thread.
    let (s1, r1) = bounded::<u32>(8);
    let (s2, r2) = bounded::<u32>(8);
    let mut left: u32 = 3;
    let mut w = StageWorker::new(StageRole::Init);
    let mut ev: StageEvent<(), u32> = StageEvent::Started;
    loop {
        ev = match w.step(ev) {
            StageAction::Produce => {
                let out = if left == 0 { None } else { Some(left) };
                left = left.saturating_sub(1);
                StageEvent::Produced(out)
            }
            StageAction::Send(v) => {
                s1.send(v).unwrap();
                StageEvent::Sent
            }
            StageAction::Stop => break,
            _ => panic!("unexpected action"),
        };
    }
    drop(s1);
    let mut m = StageWorker::new(StageRole::Intermediate);
    let mut ev: StageEvent<u32, u32> = StageEvent::Started;
    loop {
        ev = match m.step(ev) {
            StageAction::Receive => match r1.recv() {
                Ok(v) => StageEvent::Received(v),
                Err(_) => StageEvent::InputClosed,
            },
            StageAction::Process(v) => StageEvent::Processed(v + 1),
            StageAction::Send(v) => {
                s2.send(v).unwrap();
                StageEvent::Sent
            }
            StageAction::Stop => break,
            _ => panic!("unexpected action"),
        };
    }
    drop(s2);
    let mut k = StageWorker::new(StageRole::Sink);
    let mut seen = vec![];
    let mut ev: StageEvent<u32, ()> = StageEvent::Started;
    loop {
        ev = match k.step(ev) {
            StageAction::Receive => match r2.recv() {
                Ok(v) => StageEvent::Received(v),
                Err(_) => StageEvent::InputClosed,
            },
            StageAction::Consume(v) => {
                seen.push(v);
                StageEvent::Consumed
            }
            StageAction::Stop => break,
            _ => panic!("unexpected action"),
        };
    }
    assert_eq!(seen, vec![4, 3, 2]);
}
