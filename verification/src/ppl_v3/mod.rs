//! The typed pipeline with stage handlers given as trait objects of their own:
//! a source handler produces messages until it has none, a middle handler turns
//! each message into one message, a sink handler consumes messages. Each worker
//! thread of a stage follows the state machine below.

use vstd::prelude::*;
use std::marker::PhantomData;
use std::rc::Rc;

verus! {

/// The type of a pipeline that has no stage yet. It is neither `Send` nor
/// `Sync`, so that no stage can read from such a pipeline.
pub struct Source(PhantomData<Rc<()>>);

/// The type of a pipeline that ends in a sink. It is neither `Send` nor
/// `Sync`, so that no stage can be added after a sink.
pub struct Sink(PhantomData<Rc<()>>);

/// The work of an initial stage: each call produces the next message, or
/// `None` when there are no more. Each worker thread has its own clone.
pub trait TSourceWork: Clone + Send + 'static {
    type SendType;

    fn process(&self) -> Option<Self::SendType>;
}

/// The work of a sink: each call consumes one message. Each worker thread has
/// its own clone.
pub trait TSinkWork: Clone + Send + 'static {
    type RecvType;

    fn process(&self, recv: Self::RecvType);
}

/// The work of a middle stage: each call turns one message into the message to
/// send on. Each worker thread has its own clone.
pub trait TIntermediateWork: Clone + Send + 'static {
    type RecvType;

    type SendType;

    fn process(&self, recv: Self::RecvType) -> Self::SendType;
}

/// The kind of stage that a worker of the typed pipeline runs.
#[derive(Debug, Clone, Copy, PartialEq, Eq, Structural)]
pub enum StageRole {
    /// The first stage: its handler produces messages.
    Init,
    /// A middle stage: its handler turns each message into one message.
    Intermediate,
    /// The last stage: its handler consumes messages.
    Sink,
}

/// Where a stage worker stands: each phase but `Idle` and `Done` waits for
/// the outcome of one action.
#[derive(Debug, Clone, Copy, PartialEq, Eq, Structural)]
pub enum StagePhase {
    /// Not started yet.
    Idle,
    /// Waiting for the handler to produce a message, or none.
    Producing,
    /// Waiting for a message from the stage before.
    Receiving,
    /// Waiting for the handler to turn a message into the one to send on.
    Processing,
    /// Waiting for the handler to consume a message.
    Consuming,
    /// Waiting for a message to be sent to the next stage.
    Sending,
    /// Finished.
    Done,
}

/// What the driver of a stage worker reports: the worker was started, or the
/// outcome of the action it was last asked for. `R` is the type of the
/// messages the stage receives, `S` of those it sends.
pub enum StageEvent<R, S> {
    /// The worker was started.
    Started,
    /// The source handler returned this.
    Produced(Option<S>),
    /// A message arrived from the stage before.
    Received(R),
    /// The stage before is done: no more messages will arrive.
    InputClosed,
    /// The middle handler turned the message into this one.
    Processed(S),
    /// The sink handler has consumed the message.
    Consumed,
    /// The message has been sent.
    Sent,
}

/// What a stage worker asks its driver to do next.
pub enum StageAction<R, S> {
    /// Call the source handler.
    Produce,
    /// Receive the next message from the stage before.
    Receive,
    /// Call the middle handler on this message.
    Process(R),
    /// Call the sink handler on this message.
    Consume(R),
    /// Send this message to the next stage.
    Send(S),
    /// Stop: the worker is finished.
    Stop,
}

/// The phases that a worker of a role can be in.
pub open spec fn stage_phase_fits(role: StageRole, phase: StagePhase) -> bool {
    match phase {
        StagePhase::Idle | StagePhase::Done => true,
        StagePhase::Producing => role == StageRole::Init,
        StagePhase::Receiving => role != StageRole::Init,
        StagePhase::Processing => role == StageRole::Intermediate,
        StagePhase::Consuming => role == StageRole::Sink,
        StagePhase::Sending => role != StageRole::Sink,
    }
}

/// How a stage worker of `role` in `phase` reacts to `event`: its next phase
/// and the action it asks for.
///
/// The first stage's worker sends each message its handler produces until the
/// handler produces none, and then stops. A middle stage's worker sends on what
/// its handler makes of each message it receives, and a sink's worker hands
/// each message it receives to its handler, until the stage before is done;
/// then the worker stops. An event that does not answer the action the worker
/// asked for stops it.
pub open spec fn stage_step<R, S>(role: StageRole, phase: StagePhase, event: StageEvent<R, S>) -> (
    StagePhase,
    StageAction<R, S>,
) {
    match (phase, event) {
        (StagePhase::Idle, StageEvent::Started) => if role == StageRole::Init {
            (StagePhase::Producing, StageAction::Produce)
        } else {
            (StagePhase::Receiving, StageAction::Receive)
        },
        (StagePhase::Producing, StageEvent::Produced(Some(v))) => (
            StagePhase::Sending,
            StageAction::Send(v),
        ),
        (StagePhase::Receiving, StageEvent::Received(v)) => if role == StageRole::Intermediate {
            (StagePhase::Processing, StageAction::Process(v))
        } else {
            (StagePhase::Consuming, StageAction::Consume(v))
        },
        (StagePhase::Processing, StageEvent::Processed(v)) => (
            StagePhase::Sending,
            StageAction::Send(v),
        ),
        (StagePhase::Consuming, StageEvent::Consumed) => (
            StagePhase::Receiving,
            StageAction::Receive,
        ),
        (StagePhase::Sending, StageEvent::Sent) => if role == StageRole::Init {
            (StagePhase::Producing, StageAction::Produce)
        } else {
            (StagePhase::Receiving, StageAction::Receive)
        },
        _ => (StagePhase::Done, StageAction::Stop),
    }
}

/// The state of one stage worker: its role and its phase.
pub struct StageWorker {
    role: StageRole,
    phase: StagePhase,
}

impl StageWorker {
    pub closed spec fn role(&self) -> StageRole {
        self.role
    }

    pub closed spec fn phase(&self) -> StagePhase {
        self.phase
    }

    /// A worker of `role` that has not started.
    pub fn new(role: StageRole) -> (r: Self)
        ensures
            r.role() == role,
            r.phase() == StagePhase::Idle,
    {
        StageWorker { role, phase: StagePhase::Idle }
    }

    /// Whether the worker has finished.
    pub fn is_done(&self) -> (r: bool)
        ensures
            r == (self.phase() == StagePhase::Done),
    {
        self.phase == StagePhase::Done
    }

    /// Takes in `event` and returns the next action, as [`stage_step`] says.
    pub fn step<R, S>(&mut self, event: StageEvent<R, S>) -> (action: StageAction<R, S>)
        ensures
            final(self).role() == old(self).role(),
            (final(self).phase(), action) == stage_step(old(self).role(), old(self).phase(), event),
    {
        let role = self.role;
        let (phase, action) = match (self.phase, event) {
            (StagePhase::Idle, StageEvent::Started) => if role == StageRole::Init {
                (StagePhase::Producing, StageAction::Produce)
            } else {
                (StagePhase::Receiving, StageAction::Receive)
            },
            (StagePhase::Producing, StageEvent::Produced(Some(v))) => (
                StagePhase::Sending,
                StageAction::Send(v),
            ),
            (StagePhase::Receiving, StageEvent::Received(v)) => if role
                == StageRole::Intermediate {
                (StagePhase::Processing, StageAction::Process(v))
            } else {
                (StagePhase::Consuming, StageAction::Consume(v))
            },
            (StagePhase::Processing, StageEvent::Processed(v)) => (
                StagePhase::Sending,
                StageAction::Send(v),
            ),
            (StagePhase::Consuming, StageEvent::Consumed) => (
                StagePhase::Receiving,
                StageAction::Receive,
            ),
            (StagePhase::Sending, StageEvent::Sent) => if role == StageRole::Init {
                (StagePhase::Producing, StageAction::Produce)
            } else {
                (StagePhase::Receiving, StageAction::Receive)
            },
            _ => (StagePhase::Done, StageAction::Stop),
        };
        self.phase = phase;
        action
    }
}

/// The phase that a stage worker of `role` reaches from `phase` through
/// `events`, and the actions it asks for on the way, in order.
pub open spec fn stage_run<R, S>(
    role: StageRole,
    phase: StagePhase,
    events: Seq<StageEvent<R, S>>,
) -> (StagePhase, Seq<StageAction<R, S>>)
    decreases events.len(),
{
    if events.len() == 0 {
        (phase, Seq::empty())
    } else {
        let (next, action) = stage_step(role, phase, events[0]);
        let (last, actions) = stage_run(role, next, events.drop_first());
        (last, seq![action].add(actions))
    }
}

/// A stage worker stays within the phases of its role.
pub proof fn lemma_stage_step_keeps_phase_fit<R, S>(
    role: StageRole,
    phase: StagePhase,
    event: StageEvent<R, S>,
)
    requires
        stage_phase_fits(role, phase),
    ensures
        stage_phase_fits(role, stage_step(role, phase, event).0),
{
}

/// What a worker sends is what its handler made: the message that the source
/// handler produced, or the one that the middle handler made of the received
/// message, which is the message the handler was given. A sink's worker never
/// sends, and hands each received message to its handler as it is.
pub proof fn lemma_stage_sends_what_handler_made<R, S>(role: StageRole, r: R, s: S)
    ensures
        role == StageRole::Init ==> stage_step(
            role,
            StagePhase::Producing,
            StageEvent::<R, S>::Produced(Some(s)),
        ) == (StagePhase::Sending, StageAction::<R, S>::Send(s)),
        role == StageRole::Intermediate ==> stage_step(
            role,
            StagePhase::Receiving,
            StageEvent::<R, S>::Received(r),
        ) == (StagePhase::Processing, StageAction::<R, S>::Process(r)),
        role == StageRole::Intermediate ==> stage_step(
            role,
            StagePhase::Processing,
            StageEvent::<R, S>::Processed(s),
        ) == (StagePhase::Sending, StageAction::<R, S>::Send(s)),
        role == StageRole::Sink ==> stage_step(
            role,
            StagePhase::Receiving,
            StageEvent::<R, S>::Received(r),
        ) == (StagePhase::Consuming, StageAction::<R, S>::Consume(r)),
{
}

/// A worker starts by calling its handler if it runs the first stage, and by
/// receiving otherwise; once a message has been sent or consumed, it does the
/// same again.
pub proof fn lemma_stage_worker_goes_on<R, S>(role: StageRole)
    ensures
        role == StageRole::Init ==> stage_step(
            role,
            StagePhase::Idle,
            StageEvent::<R, S>::Started,
        ) == (StagePhase::Producing, StageAction::<R, S>::Produce),
        role == StageRole::Init ==> stage_step(
            role,
            StagePhase::Sending,
            StageEvent::<R, S>::Sent,
        ) == (StagePhase::Producing, StageAction::<R, S>::Produce),
        role != StageRole::Init ==> stage_step(
            role,
            StagePhase::Idle,
            StageEvent::<R, S>::Started,
        ) == (StagePhase::Receiving, StageAction::<R, S>::Receive),
        role == StageRole::Intermediate ==> stage_step(
            role,
            StagePhase::Sending,
            StageEvent::<R, S>::Sent,
        ) == (StagePhase::Receiving, StageAction::<R, S>::Receive),
        role == StageRole::Sink ==> stage_step(
            role,
            StagePhase::Consuming,
            StageEvent::<R, S>::Consumed,
        ) == (StagePhase::Receiving, StageAction::<R, S>::Receive),
{
}

/// Whether `event` answers the action that a stage worker in `phase` is
/// waiting on.
pub open spec fn stage_answers<R, S>(phase: StagePhase, event: StageEvent<R, S>) -> bool {
    match phase {
        StagePhase::Idle => event is Started,
        StagePhase::Producing => event is Produced,
        StagePhase::Receiving => event is Received || event is InputClosed,
        StagePhase::Processing => event is Processed,
        StagePhase::Consuming => event is Consumed,
        StagePhase::Sending => event is Sent,
        StagePhase::Done => false,
    }
}

/// An event that does not answer what the stage worker is waiting on stops
/// it.
pub proof fn lemma_stage_out_of_turn_stops<R, S>(
    role: StageRole,
    phase: StagePhase,
    event: StageEvent<R, S>,
)
    requires
        !stage_answers(phase, event),
    ensures
        stage_step(role, phase, event) == (StagePhase::Done, StageAction::<R, S>::Stop),
{
}

/// A sink's worker never asks to send.
pub proof fn lemma_stage_sink_never_sends<R, S>(phase: StagePhase, event: StageEvent<R, S>)
    requires
        stage_phase_fits(StageRole::Sink, phase),
    ensures
        !(stage_step(StageRole::Sink, phase, event).1 is Send),
{
}

/// A finished stage worker asks only to stop, whatever happens.
proof fn lemma_stage_done_run_stops<R, S>(role: StageRole, events: Seq<StageEvent<R, S>>)
    ensures
        stage_run(role, StagePhase::Done, events).1.len() == events.len(),
        forall|j: int|
            0 <= j < events.len() ==> (#[trigger] stage_run(
                role,
                StagePhase::Done,
                events,
            ).1[j]) is Stop,
    decreases events.len(),
{
    if events.len() > 0 {
        let rest = stage_run(role, StagePhase::Done, events.drop_first()).1;
        lemma_stage_done_run_stops(role, events.drop_first());
        assert(stage_run(role, StagePhase::Done, events).1 == seq![
            StageAction::<R, S>::Stop,
        ].add(rest));
        assert forall|j: int| 0 <= j < events.len() implies (#[trigger] stage_run(
            role,
            StagePhase::Done,
            events,
        ).1[j]) is Stop by {
            if j > 0 {
                assert(stage_run(role, StagePhase::Done, events).1[j] == rest[j - 1]);
            }
        }
    }
}

/// A run asks for one action per event.
proof fn lemma_stage_run_len<R, S>(role: StageRole, phase: StagePhase, events: Seq<StageEvent<R, S>>)
    ensures
        stage_run(role, phase, events).1.len() == events.len(),
    decreases events.len(),
{
    if events.len() > 0 {
        let (next, action) = stage_step(role, phase, events[0]);
        lemma_stage_run_len(role, next, events.drop_first());
    }
}

/// Whether `e` ends a worker's input: the source handler produced nothing, or
/// the stage before is done.
pub open spec fn ends_input<R, S>(e: StageEvent<R, S>) -> bool {
    e matches StageEvent::Produced(None) || e is InputClosed
}

/// A worker's job ends with its input: once the source handler has produced
/// nothing, or the stage before is done, every action the worker asks for is
/// to stop; it calls its handler no more and sends nothing more.
pub proof fn lemma_stage_stops_at_end_of_input<R, S>(
    role: StageRole,
    phase: StagePhase,
    events: Seq<StageEvent<R, S>>,
)
    requires
        stage_phase_fits(role, phase),
    ensures
        forall|i: int, j: int|
            0 <= i <= j < events.len() && ends_input(#[trigger] events[i]) ==> (
            #[trigger] stage_run(role, phase, events).1[j]) is Stop,
    decreases events.len(),
{
    if events.len() > 0 {
        let (next, action) = stage_step(role, phase, events[0]);
        let rest_events = events.drop_first();
        let actions = stage_run(role, phase, events).1;
        let rest = stage_run(role, next, rest_events).1;
        assert(actions == seq![action].add(rest));
        lemma_stage_run_len(role, next, rest_events);
        lemma_stage_step_keeps_phase_fit(role, phase, events[0]);
        lemma_stage_stops_at_end_of_input(role, next, rest_events);
        if ends_input(events[0]) {
            assert(next == StagePhase::Done);
            lemma_stage_done_run_stops(role, rest_events);
        }
        assert forall|i: int, j: int|
            0 <= i <= j < events.len() && ends_input(#[trigger] events[i]) implies (
            #[trigger] actions[j]) is Stop by {
            if j > 0 {
                assert(actions[j] == rest[j - 1]);
            }
            if i > 0 {
                assert(events[i] == rest_events[i - 1]);
            }
        }
    }
}

} // verus!
