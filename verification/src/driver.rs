//! The resilient stream driver: a state machine that turns connection attempts,
//! stream items and timer expiries into the items of one long-lived output and the
//! next thing for its runner to do.

use vstd::prelude::*;
use vstd::arithmetic::power::pow;
use vstd::math::min;
use crate::backoff::{
    law_delay_closed_form, law_delay_reaches_product, lemma_step_bounds, BackoffPolicy,
    BackoffState,
};
use crate::decode::{frame_matches, Frame};
use crate::error::WsError;
use crate::event::WsEvent;

verus! {

/// Where the driver stands.
#[derive(Clone, Copy, Debug, PartialEq, Eq, Structural)]
pub enum Phase {
    /// Nothing is in flight yet.
    Idle,
    /// A connection attempt is in flight.
    Connecting,
    /// A session is open and its items are forwarded.
    Streaming,
    /// The timer of the current delay is armed.
    Backoff,
    /// The attempts are used up; the output has ended.
    Exhausted,
}

/// What the runner reports to the driver.
#[derive(Debug, PartialEq, Eq)]
pub enum Event {
    /// The consumer asks for the first item.
    Poll,
    /// The connection attempt succeeded and the subscription was sent.
    Connected,
    /// The connection attempt failed.
    ConnectFailed(WsError),
    /// The session produced an item.
    Item(Result<WsEvent, WsError>),
    /// The session ended without an error of its own.
    StreamEnded,
    /// The backoff timer expired.
    TimerFired,
}

/// What the runner does next.
#[derive(Clone, Copy, Debug, PartialEq, Eq, Structural)]
pub enum Action {
    /// Open a session and send the subscription for the driver's identifiers.
    Connect,
    /// Await the next item of the open session.
    Receive,
    /// Drop the session and wake the driver after this many milliseconds.
    Sleep(u64),
    /// End the output.
    Stop,
    /// Nothing new: go on with what is in flight.
    Wait,
}

/// The driver's answer to one event.
#[derive(Debug, PartialEq, Eq)]
pub struct Step {
    /// The item that the consumer receives, if the event yields one.
    pub emit: Option<Result<WsEvent, WsError>>,
    pub action: Action,
}

/// The driver as a mathematical value.
pub ghost struct Machine {
    pub policy: BackoffPolicy,
    pub token_ids: Seq<Seq<char>>,
    pub phase: Phase,
    pub backoff: BackoffState,
}

impl Machine {
    /// The states that a driver can be in.
    pub open spec fn wf(self) -> bool {
        &&& self.policy.wf()
        &&& match self.policy.max_attempts {
            Some(cap) => self.backoff.attempts <= cap && (self.phase != Phase::Exhausted
                ==> self.backoff.attempts < cap),
            None => self.phase != Phase::Exhausted,
        }
        &&& self.phase == Phase::Idle || self.phase == Phase::Streaming ==> self.backoff
            == BackoffState::spec_initial(self.policy)
        &&& self.backoff.attempts < u64::MAX ==> self.backoff.delay_ms == self.policy.delay_after(
            self.backoff.attempts as nat,
        )
        &&& self.policy.ordered() ==> self.policy.initial_delay_ms <= self.backoff.delay_ms
            <= self.policy.max_delay_ms
    }

    /// A new driver: idle, or exhausted from the start where no attempt is allowed.
    pub open spec fn start(policy: BackoffPolicy, token_ids: Seq<Seq<char>>) -> Machine {
        Machine {
            policy,
            token_ids,
            phase: if policy.spec_allows(0) {
                Phase::Idle
            } else {
                Phase::Exhausted
            },
            backoff: BackoffState::spec_initial(policy),
        }
    }

    /// Whether `event` ends the current attempt or session, which calls for a
    /// reconnection: a failed connection attempt, a session-ending error item, or
    /// the end of the session.
    pub open spec fn fails_on(self, event: Event) -> bool {
        match (self.phase, event) {
            (Phase::Connecting, Event::ConnectFailed(_)) => true,
            (Phase::Streaming, Event::Item(Err(e))) => e.ends_session(),
            (Phase::Streaming, Event::StreamEnded) => true,
            _ => false,
        }
    }

    /// The state after a failure: one more attempt counted, the delay grown, and the
    /// timer armed unless the attempts are used up.
    pub open spec fn failed(self) -> Machine {
        let backoff = self.backoff.spec_failed(self.policy);
        Machine {
            phase: if self.policy.spec_allows(backoff.attempts) {
                Phase::Backoff
            } else {
                Phase::Exhausted
            },
            backoff,
            ..self
        }
    }

    /// The state after `event`.
    pub open spec fn next(self, event: Event) -> Machine {
        if self.fails_on(event) {
            self.failed()
        } else {
            match (self.phase, event) {
                (Phase::Idle, Event::Poll) => Machine { phase: Phase::Connecting, ..self },
                (Phase::Backoff, Event::TimerFired) => Machine { phase: Phase::Connecting, ..self },
                (Phase::Connecting, Event::Connected) => Machine {
                    phase: Phase::Streaming,
                    backoff: BackoffState::spec_initial(self.policy),
                    ..self
                },
                _ => self,
            }
        }
    }

    /// The error that the consumer receives for a failure: the one reported, or
    /// `ConnectionClosed` where the session just ended.
    pub open spec fn failure_error(event: Event) -> WsError {
        match event {
            Event::ConnectFailed(e) => e,
            Event::Item(Err(e)) => e,
            _ => WsError::ConnectionClosed,
        }
    }

    /// The item emitted for `event`, if any.
    pub open spec fn emitted(self, event: Event) -> Option<Result<WsEvent, WsError>> {
        if self.fails_on(event) {
            Some(Err(Self::failure_error(event)))
        } else {
            match (self.phase, event) {
                (Phase::Streaming, Event::Item(item)) => Some(item),
                _ => None,
            }
        }
    }

    /// The action that answers `event`.
    pub open spec fn action(self, event: Event) -> Action {
        if self.phase == Phase::Exhausted {
            Action::Stop
        } else if self.fails_on(event) {
            if self.failed().phase == Phase::Exhausted {
                Action::Stop
            } else {
                Action::Sleep(self.failed().backoff.delay_ms)
            }
        } else {
            match (self.phase, event) {
                (Phase::Idle, Event::Poll) => Action::Connect,
                (Phase::Backoff, Event::TimerFired) => Action::Connect,
                (Phase::Connecting, Event::Connected) => Action::Receive,
                (Phase::Streaming, Event::Item(_)) => Action::Receive,
                _ => Action::Wait,
            }
        }
    }

    /// The state after a sequence of events.
    pub open spec fn run(self, events: Seq<Event>) -> Machine
        decreases events.len(),
    {
        if events.len() == 0 {
            self
        } else {
            self.next(events[0]).run(events.skip(1))
        }
    }

    /// The number of failures that a sequence of events holds, each of which emits
    /// one error to the consumer.
    pub open spec fn failures(self, events: Seq<Event>) -> nat
        decreases events.len(),
    {
        if events.len() == 0 {
            0
        } else {
            (if self.fails_on(events[0]) {
                1nat
            } else {
                0nat
            }) + self.next(events[0]).failures(events.skip(1))
        }
    }

    /// Whether a connection attempt succeeds somewhere in a sequence of events.
    pub open spec fn reconnects(self, events: Seq<Event>) -> bool
        decreases events.len(),
    {
        if events.len() == 0 {
            false
        } else {
            (self.phase == Phase::Connecting && events[0] == Event::Connected) || self.next(
                events[0],
            ).reconnects(events.skip(1))
        }
    }
}

/// Every event leads from a state of the driver to a state of the driver: the
/// attempts stay within the cap, and with an ordered policy the delay stays between
/// the initial and the maximum delay.
pub proof fn law_next_is_well_formed(machine: Machine, event: Event)
    requires
        machine.wf(),
    ensures
        machine.next(event).wf(),
        machine.next(event).policy == machine.policy,
        machine.next(event).token_ids == machine.token_ids,
{
    if machine.fails_on(event) {
        if machine.policy.ordered() {
            lemma_step_bounds(machine.policy, machine.backoff.delay_ms);
        }
    }
}

/// A successful connection attempt resets the attempts and the delay to their
/// initial values, however many failures came before, and starts the forwarding.
pub proof fn law_success_resets(machine: Machine)
    requires
        machine.phase == Phase::Connecting,
    ensures
        machine.next(Event::Connected).backoff.attempts == 0,
        machine.next(Event::Connected).backoff.delay_ms == machine.policy.initial_delay_ms,
        machine.next(Event::Connected).phase == Phase::Streaming,
        machine.action(Event::Connected) == Action::Receive,
{
}

/// The delay that a failure arms is the one that the policy gives for the failures
/// counted since the last successful connection, this one included, as long as the
/// counter has not reached the end of its range.
pub proof fn law_armed_delay(machine: Machine, event: Event, delay: u64)
    requires
        machine.wf(),
        machine.backoff.attempts < u64::MAX,
        machine.action(event) == Action::Sleep(delay),
    ensures
        machine.fails_on(event),
        machine.next(event).phase == Phase::Backoff,
        machine.next(event).backoff.attempts == machine.backoff.attempts + 1,
        delay == machine.policy.delay_after((machine.backoff.attempts + 1) as nat),
{
}

/// After `k` failures in a row the armed delay is `min(max_delay, d0 * m^k)`, for a
/// growth factor `m = num / den` above one, wherever that product is a whole number:
/// where `d0 * num^k == whole * den^k`, the `k`-th failure since the last successful
/// connection arms the timer for `min(max_delay, whole)` milliseconds.
pub proof fn law_armed_delay_closed_form(machine: Machine, event: Event, delay: u64, whole: nat)
    requires
        machine.wf(),
        machine.policy.grows(),
        machine.backoff.attempts < u64::MAX,
        machine.action(event) == Action::Sleep(delay),
        machine.policy.initial_delay_ms * pow(
            machine.policy.multiplier_num as int,
            (machine.backoff.attempts + 1) as nat,
        ) == whole * pow(
            machine.policy.multiplier_den as int,
            (machine.backoff.attempts + 1) as nat,
        ),
    ensures
        delay == min(machine.policy.max_delay_ms as int, whole as int),
{
    law_armed_delay(machine, event, delay);
    law_delay_closed_form(machine.policy, (machine.backoff.attempts + 1) as nat, whole);
}

/// Whatever is rounded, the armed delay never falls short of
/// `min(max_delay, d0 * m^k)` and never exceeds the maximum delay: with `k` the
/// failures since the last successful connection,
/// `delay * den^k >= min(max_delay * den^k, d0 * num^k)`; so the timer is armed for
/// the maximum delay once the product has reached it.
pub proof fn law_armed_delay_reaches_product(machine: Machine, event: Event, delay: u64)
    requires
        machine.wf(),
        machine.policy.grows(),
        machine.backoff.attempts < u64::MAX,
        machine.action(event) == Action::Sleep(delay),
    ensures
        delay <= machine.policy.max_delay_ms,
        delay * pow(machine.policy.multiplier_den as int, (machine.backoff.attempts + 1) as nat)
            >= min(
            machine.policy.max_delay_ms * pow(
                machine.policy.multiplier_den as int,
                (machine.backoff.attempts + 1) as nat,
            ),
            machine.policy.initial_delay_ms * pow(
                machine.policy.multiplier_num as int,
                (machine.backoff.attempts + 1) as nat,
            ),
        ),
{
    law_armed_delay(machine, event, delay);
    law_delay_reaches_product(machine.policy, (machine.backoff.attempts + 1) as nat);
}

/// A failure emits exactly one error, the one it was reported with; no other event
/// arms the timer or touches the backoff, but for the reset of a successful
/// connection.
pub proof fn law_failure_emits_its_error(machine: Machine, event: Event)
    requires
        machine.wf(),
    ensures
        machine.fails_on(event) ==> machine.emitted(event) == Some(
            Err::<WsEvent, WsError>(Machine::failure_error(event)),
        ),
        !machine.fails_on(event) ==> machine.next(event).backoff == (if machine.phase
            == Phase::Connecting && event == Event::Connected {
            BackoffState::spec_initial(machine.policy)
        } else {
            machine.backoff
        }),
        !machine.fails_on(event) ==> !(machine.action(event) is Sleep),
{
}

/// What the session yields while it lasts is forwarded unchanged, and an error that
/// concerns one message changes nothing in the driver.
pub proof fn law_items_pass_through(machine: Machine, item: Result<WsEvent, WsError>)
    requires
        machine.phase == Phase::Streaming,
        item matches Err(e) ==> !e.ends_session(),
    ensures
        machine.emitted(Event::Item(item)) == Some(item),
        machine.next(Event::Item(item)) == machine,
        machine.action(Event::Item(item)) == Action::Receive,
{
}

/// Once exhausted, the driver stays so, emits nothing and answers every event with
/// `Stop`.
pub proof fn law_exhausted_is_terminal(machine: Machine, event: Event)
    requires
        machine.phase == Phase::Exhausted,
    ensures
        machine.next(event) == machine,
        machine.emitted(event) is None,
        machine.action(event) == Action::Stop,
{
}

/// Whatever happens, the driver keeps its policy and its subscription identifiers,
/// and stays in a well-formed state.
pub proof fn law_run_keeps_configuration(machine: Machine, events: Seq<Event>)
    requires
        machine.wf(),
    ensures
        machine.run(events).wf(),
        machine.run(events).policy == machine.policy,
        machine.run(events).token_ids == machine.token_ids,
    decreases events.len(),
{
    if events.len() > 0 {
        law_next_is_well_formed(machine, events[0]);
        law_run_keeps_configuration(machine.next(events[0]), events.skip(1));
    }
}

/// Between two successful connections the driver counts the failures and holds the
/// delay that the policy gives for their number: after `k` failures in a row, counted
/// from a reset, the attempts are `k` and the delay is `delay_after(k)`.
pub proof fn law_run_counts_failures(machine: Machine, events: Seq<Event>)
    requires
        machine.wf(),
        !machine.reconnects(events),
        machine.backoff.attempts + machine.failures(events) < u64::MAX,
    ensures
        machine.run(events).backoff.attempts == machine.backoff.attempts + machine.failures(
            events,
        ),
        machine.run(events).backoff.delay_ms == machine.policy.delay_after(
            (machine.backoff.attempts + machine.failures(events)) as nat,
        ),
    decreases events.len(),
{
    if events.len() > 0 {
        law_next_is_well_formed(machine, events[0]);
        law_run_counts_failures(machine.next(events[0]), events.skip(1));
    }
}

/// With a cap of `N` attempts, a run of events without a successful connection holds
/// at most `N` failures, counting those already made: the driver emits at most `N`
/// reconnect-triggering errors between two successful connections, and the output
/// ends with the one that uses the attempts up.
pub proof fn law_failures_within_cap(machine: Machine, events: Seq<Event>, cap: u32)
    requires
        machine.wf(),
        machine.policy.max_attempts == Some(cap),
        !machine.reconnects(events),
    ensures
        machine.backoff.attempts + machine.failures(events) <= cap,
        machine.backoff.attempts + machine.failures(events) == cap ==> machine.run(events).phase
            == Phase::Exhausted,
        machine.run(events).backoff.attempts == machine.backoff.attempts + machine.failures(
            events,
        ),
    decreases events.len(),
{
    if events.len() > 0 {
        law_next_is_well_formed(machine, events[0]);
        law_failures_within_cap(machine.next(events[0]), events.skip(1), cap);
    }
}

/// Without a cap the driver never gives up: no sequence of events exhausts it.
pub proof fn law_unbounded_never_exhausts(machine: Machine, events: Seq<Event>)
    requires
        machine.wf(),
        machine.policy.max_attempts is None,
    ensures
        machine.run(events).phase != Phase::Exhausted,
{
    law_run_keeps_configuration(machine, events);
}

/// A session-ending error in the middle of a session, such as the one that a close
/// frame decodes to, is emitted once; unless the attempts are used up the timer is
/// armed for the delay after one failure, and when it expires the driver asks for a
/// new connection with the identifiers it was made with.
pub proof fn law_session_end_reconnects(machine: Machine, error: WsError)
    requires
        machine.wf(),
        machine.phase == Phase::Streaming,
        error.ends_session(),
    ensures
        machine.emitted(Event::Item(Err(error))) == Some(Err::<WsEvent, WsError>(error)),
        machine.policy.spec_allows(1) ==> {
            let waiting = machine.next(Event::Item(Err(error)));
            &&& machine.action(Event::Item(Err(error))) == Action::Sleep(
                machine.policy.delay_after(1),
            )
            &&& waiting.phase == Phase::Backoff
            &&& waiting.action(Event::TimerFired) == Action::Connect
            &&& waiting.emitted(Event::TimerFired) is None
            &&& waiting.next(Event::TimerFired).phase == Phase::Connecting
            &&& waiting.next(Event::TimerFired).token_ids == machine.token_ids
        },
        !machine.policy.spec_allows(1) ==> {
            &&& machine.action(Event::Item(Err(error))) == Action::Stop
            &&& machine.next(Event::Item(Err(error))).phase == Phase::Exhausted
        },
{
    assert(machine.policy.delay_after(1) == machine.policy.spec_next_delay(
        machine.policy.delay_after(0),
    ));
}

/// A close frame in the middle of a session has that effect: what it decodes to is
/// the one `ConnectionClosed` error that the consumer receives, and the driver
/// reconnects as after any session-ending error.
pub proof fn law_close_frame_reconnects(machine: Machine, item: Option<Result<WsEvent, WsError>>)
    requires
        machine.wf(),
        machine.phase == Phase::Streaming,
        frame_matches(Frame::Close, item),
    ensures
        item matches Some(decoded) && {
            let waiting = machine.next(Event::Item(decoded));
            &&& machine.emitted(Event::Item(decoded)) == Some(
                Err::<WsEvent, WsError>(WsError::ConnectionClosed),
            )
            &&& machine.policy.spec_allows(1) ==> {
                &&& machine.action(Event::Item(decoded)) == Action::Sleep(
                    machine.policy.delay_after(1),
                )
                &&& waiting.action(Event::TimerFired) == Action::Connect
                &&& waiting.next(Event::TimerFired).phase == Phase::Connecting
                &&& waiting.next(Event::TimerFired).token_ids == machine.token_ids
            }
        },
{
    law_session_end_reconnects(machine, WsError::ConnectionClosed);
}

/// The resilient stream driver.
pub struct Driver {
    policy: BackoffPolicy,
    token_ids: Vec<String>,
    phase: Phase,
    backoff: BackoffState,
}

impl View for Driver {
    type V = Machine;

    closed spec fn view(&self) -> Machine {
        Machine {
            policy: self.policy,
            token_ids: self.token_ids.deep_view(),
            phase: self.phase,
            backoff: self.backoff,
        }
    }
}

impl Driver {
    #[verifier::type_invariant]
    closed spec fn inv(&self) -> bool {
        self@.wf()
    }

    /// A driver for `policy` that subscribes to `token_ids` on every connection.
    /// `None` where the policy's growth factor has no denominator.
    pub fn new(policy: BackoffPolicy, token_ids: Vec<String>) -> (driver: Option<Driver>)
        ensures
            match driver {
                Some(d) => policy.wf() && d@ == Machine::start(policy, token_ids.deep_view()) && d@.wf(),
                None => !policy.wf(),
            },
    {
        if !policy.is_valid() {
            return None;
        }
        let phase = if policy.allows(0) {
            Phase::Idle
        } else {
            Phase::Exhausted
        };
        let backoff = BackoffState::initial(&policy);
        Some(Driver { policy, token_ids, phase, backoff })
    }

    pub fn phase(&self) -> (phase: Phase)
        ensures
            phase == self@.phase,
            self@.wf(),
    {
        proof {
            use_type_invariant(self);
        }
        self.phase
    }

    pub fn policy(&self) -> (policy: BackoffPolicy)
        ensures
            policy == self@.policy,
    {
        self.policy
    }

    /// The current delay in milliseconds.
    pub fn delay_ms(&self) -> (delay: u64)
        ensures
            delay == self@.backoff.delay_ms,
    {
        self.backoff.delay_ms
    }

    /// The attempts made since the last successful connection.
    pub fn attempts(&self) -> (attempts: u64)
        ensures
            attempts == self@.backoff.attempts,
    {
        self.backoff.attempts
    }

    /// The identifiers that every connection subscribes to.
    pub fn token_ids(&self) -> (ids: &Vec<String>)
        ensures
            ids.deep_view() == self@.token_ids,
    {
        &self.token_ids
    }

    /// Whether the output has ended.
    pub fn is_exhausted(&self) -> (exhausted: bool)
        ensures
            exhausted == (self@.phase == Phase::Exhausted),
    {
        match self.phase {
            Phase::Exhausted => true,
            _ => false,
        }
    }

    /// Counts a failure, grows the delay and decides between the timer and the end.
    fn fail(&mut self, error: WsError) -> (step: Step)
        requires
            old(self).phase == Phase::Connecting || old(self).phase == Phase::Streaming,
        ensures
            final(self)@ == old(self)@.failed(),
            step.emit == Some(Err::<WsEvent, WsError>(error)),
            step.action == (if old(self)@.failed().phase == Phase::Exhausted {
                Action::Stop
            } else {
                Action::Sleep(old(self)@.failed().backoff.delay_ms)
            }),
    {
        proof {
            use_type_invariant(&*self);
            if self.policy.ordered() {
                lemma_step_bounds(self.policy, self.backoff.delay_ms);
            }
        }
        let backoff = self.backoff.failed(&self.policy);
        if self.policy.allows(backoff.attempts) {
            self.phase = Phase::Backoff;
            self.backoff = backoff;
            Step { emit: Some(Err(error)), action: Action::Sleep(backoff.delay_ms) }
        } else {
            self.phase = Phase::Exhausted;
            self.backoff = backoff;
            Step { emit: Some(Err(error)), action: Action::Stop }
        }
    }

    /// Takes one event: moves to the next state and says what the consumer receives
    /// and what the runner does next.
    pub fn step(&mut self, event: Event) -> (step: Step)
        ensures
            old(self)@.wf(),
            final(self)@ == old(self)@.next(event),
            step.emit == old(self)@.emitted(event),
            step.action == old(self)@.action(event),
    {
        proof {
            use_type_invariant(&*self);
        }
        match self.phase {
            Phase::Exhausted => Step { emit: None, action: Action::Stop },
            Phase::Idle => match event {
                Event::Poll => {
                    self.phase = Phase::Connecting;
                    Step { emit: None, action: Action::Connect }
                },
                _ => Step { emit: None, action: Action::Wait },
            },
            Phase::Backoff => match event {
                Event::TimerFired => {
                    self.phase = Phase::Connecting;
                    Step { emit: None, action: Action::Connect }
                },
                _ => Step { emit: None, action: Action::Wait },
            },
            Phase::Connecting => match event {
                Event::Connected => {
                    self.backoff = BackoffState::initial(&self.policy);
                    self.phase = Phase::Streaming;
                    Step { emit: None, action: Action::Receive }
                },
                Event::ConnectFailed(error) => self.fail(error),
                _ => Step { emit: None, action: Action::Wait },
            },
            Phase::Streaming => match event {
                Event::Item(Ok(item)) => Step { emit: Some(Ok(item)), action: Action::Receive },
                Event::Item(Err(error)) => {
                    if error.is_session_ending() {
                        self.fail(error)
                    } else {
                        Step { emit: Some(Err(error)), action: Action::Receive }
                    }
                },
                Event::StreamEnded => self.fail(WsError::ConnectionClosed),
                _ => Step { emit: None, action: Action::Wait },
            },
        }
    }
}

} // verus!
