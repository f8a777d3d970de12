//! Driving a scripted runtime that lives on a worker of its own.
//!
//! The runtime is owned by one worker. The adapter that faces the reactor
//! sends it commands and reads back, for each command, the events that the
//! runtime emitted, closed by a sentinel. This module holds both ends of that
//! protocol as functions of plain values: what the worker does with one
//! command, and what the adapter does with one observation.

use crate::sequence::reversed;
use vstd::prelude::*;

verus! {

/// A periodic timer that a runtime asks for.
#[derive(Clone, Copy, Debug, PartialEq, Eq, Structural)]
pub struct Timer {
    pub id: u32,
    pub interval_seconds: u64,
}

/// A runtime whose hooks are run on one worker, one command at a time. Each
/// hook puts the events that it emits into `out`.
///
/// Only the processing hook has to be written. A runtime that does not say
/// otherwise does nothing at its start, at its end and at a timer's tick:
/// the hook succeeds, emits nothing and leaves the runtime as it is; and
/// such a runtime asks for no timer.
pub trait ScriptedRuntime: Sized {
    type Event;

    fn hook_init(&mut self, out: &mut Vec<Self::Event>) -> (done: Result<(), String>)
        default_ensures
            done is Ok,
            *final(out) == *old(out),
            *final(self) == *old(self),
    {
        Ok(())
    }

    fn hook_process(&mut self, event: Self::Event, out: &mut Vec<Self::Event>) -> Result<
        (),
        String,
    >;

    fn hook_shutdown(&mut self, out: &mut Vec<Self::Event>) -> (done: Result<(), String>)
        default_ensures
            done is Ok,
            *final(out) == *old(out),
            *final(self) == *old(self),
    {
        Ok(())
    }

    fn timer_handler(&mut self, timer: Timer, out: &mut Vec<Self::Event>) -> (done: Result<
        (),
        String,
    >)
        default_ensures
            done is Ok,
            *final(out) == *old(out),
            *final(self) == *old(self),
    {
        Ok(())
    }

    /// The timers that the runtime wants, fixed once at its start.
    fn timers(&self) -> (wanted: Vec<Timer>)
        default_ensures
            wanted@ == Seq::<Timer>::empty(),
    {
        Vec::new()
    }
}

/// A command to the worker.
pub enum Message<E> {
    Init,
    Process(E),
    Shutdown,
    Timer(Timer),
}

/// What goes over the result channel for one command that emitted `events`:
/// each event, in the order of emission, and then the sentinel.
pub open spec fn frame<E>(events: Seq<E>) -> Seq<Option<E>> {
    events.map_values(|event: E| Some(event)).push(None)
}

/// Frames the events that one command emitted.
pub fn frame_results<E>(events: Vec<E>) -> (results: Vec<Option<E>>)
    ensures
        results@ == frame(events@),
{
    let mut stack = reversed(events);
    let mut results: Vec<Option<E>> = Vec::new();
    while stack.len() > 0
        invariant
            stack@.len() + results@.len() == events@.len(),
            stack@ == events@.reverse().subrange(0, stack@.len() as int),
            forall|i: int| 0 <= i < results@.len() ==> #[trigger] results@[i] == Some(events@[i]),
        decreases stack@.len(),
    {
        let ghost held = stack@;
        let event = stack.pop().unwrap();
        assert(stack@ =~= events@.reverse().subrange(0, stack@.len() as int));
        assert(event == events@.reverse()[held.len() - 1]);
        results.push(Some(event));
    }
    results.push(None);
    assert(results@ =~= frame(events@));
    results
}

/// What the worker hands back for one command.
pub struct Outcome<E> {
    /// What goes over the result channel.
    pub results: Vec<Option<E>>,
    /// Why the hook failed, where it did. The events that it emitted before
    /// are delivered all the same.
    pub failure: Option<String>,
}

/// The results of one command are framed: events, then the sentinel, and
/// nothing behind it.
pub open spec fn is_frame<E>(results: Seq<Option<E>>) -> bool {
    &&& results.len() > 0
    &&& results.last() is None
    &&& forall|i: int| 0 <= i < results.len() - 1 ==> #[trigger] results[i] is Some
}

/// The worker's part: runs the hook that `message` asks for and frames what
/// the hook emitted.
pub fn run_command<R: ScriptedRuntime>(runtime: &mut R, message: Message<R::Event>) -> (outcome:
    Outcome<R::Event>)
    ensures
        is_frame(outcome.results@),
{
    let mut out: Vec<R::Event> = Vec::new();
    let done = match message {
        Message::Init => runtime.hook_init(&mut out),
        Message::Process(event) => runtime.hook_process(event, &mut out),
        Message::Shutdown => runtime.hook_shutdown(&mut out),
        Message::Timer(timer) => runtime.timer_handler(timer, &mut out),
    };
    let failure = match done {
        Ok(()) => None,
        Err(reason) => Some(reason),
    };
    Outcome { results: frame_results(out), failure }
}

/// Where the adapter stands.
#[derive(Clone, Copy, Debug, PartialEq, Eq, Structural)]
pub enum StreamState {
    /// Waiting for the next input event or timer tick.
    Idle,
    /// A command is with the worker; its results are being read.
    Processing,
    /// The input has ended and the final command is with the worker; its
    /// results are being read.
    Draining,
    /// Everything was delivered.
    Finished,
    /// The worker is gone.
    Failed,
}

/// What the adapter has to look at next.
#[derive(Clone, Copy, Debug, PartialEq, Eq, Structural)]
pub enum Watch {
    /// The input events merged with the timers' ticks.
    Input,
    /// The result channel.
    Results,
    /// Nothing any more.
    Nothing,
}

/// What the adapter saw when it looked, without blocking.
pub enum Observed<E> {
    /// An input event or a timer tick is there, as the command to forward.
    Command(Message<E>),
    /// No input is ready.
    InputPending,
    /// The input has ended, or the pipeline asks to stop.
    InputClosed,
    /// The worker has sent an event.
    Event(E),
    /// The worker has sent the sentinel.
    Sentinel,
    /// The worker has sent nothing yet.
    ResultPending,
    /// The worker has hung up.
    WorkerGone,
}

/// What the adapter does after it looked.
pub enum Action<E> {
    /// Send this command to the worker, then look again.
    Forward(Message<E>),
    /// Hand this event downstream.
    Emit(E),
    /// Nothing is ready: give the reactor its turn.
    Yield,
    /// Look again at once.
    Continue,
    /// End the stream.
    End,
    /// End the stream with an error.
    Fail,
}

/// The adapter's state and action after one observation.
pub struct Step<E> {
    pub state: StreamState,
    pub action: Action<E>,
}

impl StreamState {
    pub open spec fn spec_watch(self) -> Watch {
        match self {
            StreamState::Idle => Watch::Input,
            StreamState::Processing | StreamState::Draining => Watch::Results,
            StreamState::Finished | StreamState::Failed => Watch::Nothing,
        }
    }

    /// What the adapter has to look at in this state.
    pub fn watch(self) -> (watch: Watch)
        ensures
            watch == self.spec_watch(),
    {
        match self {
            StreamState::Idle => Watch::Input,
            StreamState::Processing | StreamState::Draining => Watch::Results,
            StreamState::Finished | StreamState::Failed => Watch::Nothing,
        }
    }

    /// The adapter's rule. While idle, an input becomes a command to the
    /// worker and its results are awaited; the end of the input becomes the
    /// final command. While results are awaited, each event is handed on at
    /// once and the sentinel ends the wait. Whatever does not belong to the
    /// state is passed over.
    pub open spec fn spec_step<E>(self, observed: Observed<E>) -> Step<E> {
        match (self, observed) {
            (StreamState::Idle, Observed::Command(message)) => Step {
                state: StreamState::Processing,
                action: Action::Forward(message),
            },
            (StreamState::Idle, Observed::InputPending) => Step {
                state: StreamState::Idle,
                action: Action::Yield,
            },
            (StreamState::Idle, Observed::InputClosed) => Step {
                state: StreamState::Draining,
                action: Action::Forward(Message::Shutdown),
            },
            (StreamState::Processing, Observed::Event(event)) => Step {
                state: StreamState::Processing,
                action: Action::Emit(event),
            },
            (StreamState::Draining, Observed::Event(event)) => Step {
                state: StreamState::Draining,
                action: Action::Emit(event),
            },
            (StreamState::Processing, Observed::Sentinel) => Step {
                state: StreamState::Idle,
                action: Action::Continue,
            },
            (StreamState::Draining, Observed::Sentinel) => Step {
                state: StreamState::Finished,
                action: Action::End,
            },
            (StreamState::Processing, Observed::ResultPending) => Step {
                state: StreamState::Processing,
                action: Action::Yield,
            },
            (StreamState::Draining, Observed::ResultPending) => Step {
                state: StreamState::Draining,
                action: Action::Yield,
            },
            (StreamState::Processing, Observed::WorkerGone) => Step {
                state: StreamState::Failed,
                action: Action::Fail,
            },
            (StreamState::Draining, Observed::WorkerGone) => Step {
                state: StreamState::Failed,
                action: Action::Fail,
            },
            (StreamState::Finished, _) => Step { state: StreamState::Finished, action: Action::End },
            (StreamState::Failed, _) => Step { state: StreamState::Failed, action: Action::Fail },
            (state, _) => Step { state, action: Action::Continue },
        }
    }

    /// One turn of the adapter: from where it stands and what it saw to
    /// where it stands next and what it does.
    pub fn step<E>(self, observed: Observed<E>) -> (step: Step<E>)
        ensures
            step == self.spec_step(observed),
    {
        match (self, observed) {
            (StreamState::Idle, Observed::Command(message)) => Step {
                state: StreamState::Processing,
                action: Action::Forward(message),
            },
            (StreamState::Idle, Observed::InputPending) => Step {
                state: StreamState::Idle,
                action: Action::Yield,
            },
            (StreamState::Idle, Observed::InputClosed) => Step {
                state: StreamState::Draining,
                action: Action::Forward(Message::Shutdown),
            },
            (StreamState::Processing, Observed::Event(event)) => Step {
                state: StreamState::Processing,
                action: Action::Emit(event),
            },
            (StreamState::Draining, Observed::Event(event)) => Step {
                state: StreamState::Draining,
                action: Action::Emit(event),
            },
            (StreamState::Processing, Observed::Sentinel) => Step {
                state: StreamState::Idle,
                action: Action::Continue,
            },
            (StreamState::Draining, Observed::Sentinel) => Step {
                state: StreamState::Finished,
                action: Action::End,
            },
            (StreamState::Processing, Observed::ResultPending) => Step {
                state: StreamState::Processing,
                action: Action::Yield,
            },
            (StreamState::Draining, Observed::ResultPending) => Step {
                state: StreamState::Draining,
                action: Action::Yield,
            },
            (StreamState::Processing, Observed::WorkerGone) => Step {
                state: StreamState::Failed,
                action: Action::Fail,
            },
            (StreamState::Draining, Observed::WorkerGone) => Step {
                state: StreamState::Failed,
                action: Action::Fail,
            },
            (StreamState::Finished, _) => Step { state: StreamState::Finished, action: Action::End },
            (StreamState::Failed, _) => Step { state: StreamState::Failed, action: Action::Fail },
            (state, _) => Step { state, action: Action::Continue },
        }
    }
}

/// At most one command is with the worker at any time: a command is
/// forwarded only by an idle adapter, which then awaits results, and the
/// adapter is idle again only after it has read the sentinel that closes
/// that command's results.
pub proof fn law_one_command_in_flight<E>(state: StreamState, observed: Observed<E>)
    ensures
        state.spec_step(observed).action is Forward ==> state == StreamState::Idle
            && state.spec_step(observed).state.spec_watch() == Watch::Results,
        state.spec_watch() == Watch::Results && state.spec_step(observed).state
            == StreamState::Idle ==> observed is Sentinel,
        state.spec_watch() == Watch::Results && state.spec_step(observed).state.spec_watch()
            != Watch::Results ==> observed is Sentinel || observed is WorkerGone,
{
}

/// What the adapter sees when it reads `result` off the result channel.
pub open spec fn observed_result<E>(result: Option<E>) -> Observed<E> {
    match result {
        Some(event) => Observed::Event(event),
        None => Observed::Sentinel,
    }
}

/// Where the adapter stands after it has read `results` off the result
/// channel, one by one.
pub open spec fn state_after<E>(state: StreamState, results: Seq<Option<E>>) -> StreamState
    decreases results.len(),
{
    if results.len() == 0 {
        state
    } else {
        state_after(state, results.drop_last()).spec_step(observed_result(results.last())).state
    }
}

/// What the adapter has handed downstream after it has read `results` off
/// the result channel, one by one.
pub open spec fn emitted_after<E>(state: StreamState, results: Seq<Option<E>>) -> Seq<E>
    decreases results.len(),
{
    if results.len() == 0 {
        Seq::empty()
    } else {
        let earlier = emitted_after(state, results.drop_last());
        match state_after(state, results.drop_last()).spec_step(
            observed_result(results.last()),
        ).action {
            Action::Emit(event) => earlier.push(event),
            _ => earlier,
        }
    }
}

/// While the adapter reads events, it stays where it is and hands each one
/// on, in order.
pub proof fn lemma_events_pass<E>(state: StreamState, events: Seq<E>)
    requires
        state == StreamState::Processing || state == StreamState::Draining,
    ensures
        state_after(state, events.map_values(|event: E| Some(event))) == state,
        emitted_after(state, events.map_values(|event: E| Some(event))) == events,
    decreases events.len(),
{
    let results = events.map_values(|event: E| Some(event));
    if events.len() == 0 {
        assert(emitted_after(state, results) =~= events);
    } else {
        lemma_events_pass(state, events.drop_last());
        assert(results.drop_last() =~= events.drop_last().map_values(|event: E| Some(event)));
        assert(results.last() == Some(events.last()));
        assert(emitted_after(state, results) =~= events);
    }
}

/// One command's results, read while the adapter is processing, hand on
/// exactly the events that the command emitted, in the order of emission,
/// and leave the adapter idle. A command that emitted nothing hands on
/// nothing.
pub proof fn law_command_round_trip<E>(events: Seq<E>)
    ensures
        state_after(StreamState::Processing, frame(events)) == StreamState::Idle,
        emitted_after(StreamState::Processing, frame(events)) == events,
        events.len() == 0 ==> emitted_after(StreamState::Processing, frame(events)).len() == 0,
{
    lemma_events_pass(StreamState::Processing, events);
    assert(frame(events).drop_last() =~= events.map_values(|event: E| Some(event)));
    assert(frame(events).last() == None::<E>);
}

/// The final command's results, read while the adapter is draining, hand on
/// exactly the events that the command emitted and finish the stream.
pub proof fn law_final_round_trip<E>(events: Seq<E>)
    ensures
        state_after(StreamState::Draining, frame(events)) == StreamState::Finished,
        emitted_after(StreamState::Draining, frame(events)) == events,
{
    lemma_events_pass(StreamState::Draining, events);
    assert(frame(events).drop_last() =~= events.map_values(|event: E| Some(event)));
    assert(frame(events).last() == None::<E>);
}

/// Reads one command's results up to the sentinel and puts the events
/// behind what `output` holds.
pub fn collect_results<E>(results: Vec<Option<E>>, output: &mut Vec<E>)
    requires
        is_frame(results@),
    ensures
        results@ == frame(final(output)@.subrange(old(output)@.len() as int, final(output)@.len() as int)),
        final(output)@.len() == old(output)@.len() + results@.len() - 1,
        final(output)@.subrange(0, old(output)@.len() as int) == old(output)@,
{
    let ghost all = results@;
    let mut stack = reversed(results);
    let ghost start = output@.len() as int;
    while stack.len() > 0
        invariant
            is_frame(all),
            stack@.len() <= all.len(),
            start == old(output)@.len(),
            forall|i: int|
                0 <= i < stack@.len() ==> #[trigger] stack@[i] == all[all.len() - 1 - i],
            stack@.len() > 0 ==> output@.len() == start + all.len() - stack@.len(),
            stack@.len() == 0 ==> output@.len() == start + all.len() - 1,
            output@.subrange(0, start) == old(output)@,
            forall|i: int| start <= i < output@.len() ==> Some(#[trigger] output@[i]) == all[i - start],
        decreases stack@.len(),
    {
        let ghost held = output@;
        match stack.pop().unwrap() {
            Some(event) => {
                output.push(event);
                assert(output@.subrange(0, start) =~= held.subrange(0, start));
            },
            None => {},
        }
    }
    assert(all =~= frame(output@.subrange(start, output@.len() as int)));
}

/// Hands on what the worker gave back for one command: the events go
/// behind what `output` holds, in the order of emission, and the reason of
/// the hook's failure, where there is one, is returned.
pub fn deliver<E>(outcome: Outcome<E>, output: &mut Vec<E>) -> (failure: Option<String>)
    requires
        is_frame(outcome.results@),
    ensures
        failure == outcome.failure,
        outcome.results@ == frame(
            final(output)@.subrange(old(output)@.len() as int, final(output)@.len() as int),
        ),
        final(output)@.len() == old(output)@.len() + outcome.results@.len() - 1,
        final(output)@.subrange(0, old(output)@.len() as int) == old(output)@,
{
    let Outcome { results, failure } = outcome;
    collect_results(results, output);
    failure
}

/// Runs `event` through the runtime's processing hook and puts what the hook
/// emitted behind what `output` holds. Returns why the hook failed, where it
/// did. What the hook emits is the runtime's to say; how it is handed on is
/// stated by `deliver`.
pub fn transform_into<R: ScriptedRuntime>(
    runtime: &mut R,
    output: &mut Vec<R::Event>,
    event: R::Event,
) -> (failure: Option<String>)
    ensures
        final(output)@.len() >= old(output)@.len(),
        final(output)@.subrange(0, old(output)@.len() as int) == old(output)@,
{
    let outcome = run_command(runtime, Message::Process(event));
    deliver(outcome, output)
}

/// The one event of a command that emitted at most one.
pub fn single_output<E>(events: Vec<E>) -> (event: Option<E>)
    requires
        events@.len() <= 1,
    ensures
        match event {
            Some(e) => events@ == seq![e],
            None => events@.len() == 0,
        },
{
    let ghost all = events@;
    let mut events = events;
    let event = events.pop();
    proof {
        if event is Some {
            assert(all =~= seq![event->Some_0]);
        }
    }
    event
}

} // verus!
