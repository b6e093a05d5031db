//! One viewer connection: its lifecycle, its liveness bookkeeping and what it
//! asks of its transport.
//!
//! A session owns no socket and no timer. It is told what happened (a frame
//! arrived, the heartbeat timer fired, the registry answered) together with the
//! current reading of a monotonic clock in milliseconds, and it answers with
//! the [`Command`] its owner has to carry out on the transport.

use crate::server::{Disconnect, Message};
use vstd::prelude::*;

verus! {

/// Milliseconds between two liveness probes.
pub const HEARTBEAT_INTERVAL: u64 = 5_000;

/// Milliseconds a peer may stay silent before its session is closed.
pub const CLIENT_TIMEOUT: u64 = 10_000;

/// Close code sent to viewers when the service itself goes down.
pub const NORMAL_CLOSURE: u16 = 1000;

/// Where a connection stands in its life. `Closed` is terminal.
#[derive(Clone, Copy, Debug, PartialEq, Eq, Structural)]
pub enum Phase {
    /// The transport is up, the registry has not answered yet.
    Connecting,
    /// Registered: envelopes are relayed and liveness is probed.
    Active,
    /// On the way out; the registration, if any, is still to be given back.
    Closing,
    /// Deregistered, transport released, timers stopped.
    Closed,
}

/// Why a peer closed the connection, as carried by a close frame.
#[derive(Clone, Debug, PartialEq, Eq)]
pub struct CloseReason {
    pub code: u16,
    pub description: Option<String>,
}

/// One message read from the viewer's transport.
#[derive(Clone, Debug, PartialEq, Eq)]
pub enum Frame {
    /// A probe from the peer; it wants its payload echoed.
    Ping(Vec<u8>),
    /// The peer's answer to one of our probes.
    Pong(Vec<u8>),
    /// Informational text; carries no meaning beyond showing the peer is alive.
    Text(String),
    /// Binary data; treated like text.
    Binary(Vec<u8>),
    /// The peer closes the connection.
    Close(Option<CloseReason>),
    /// A fragment of a split message, which this protocol does not use.
    Continuation,
    /// Nothing was read.
    Nop,
}

/// The transport could not decode what the peer sent.
#[derive(Clone, Copy, Debug, PartialEq, Eq, Structural)]
pub struct ProtocolError;

/// What the owner of the transport has to do after an event.
#[derive(Clone, Debug, PartialEq, Eq)]
pub enum Command {
    /// Nothing.
    Idle,
    /// Send a liveness probe.
    Ping,
    /// Answer the peer's probe with the payload it sent.
    Pong(Vec<u8>),
    /// Write this text to the peer, unchanged.
    Text(String),
    /// Send a close frame with this reason, then stop the session.
    Close(Option<CloseReason>),
    /// Stop the session without a close frame.
    Stop,
}

/// The state of a session as contracts see it.
pub struct SessionState {
    pub phase: Phase,
    /// The id under which the registry knows this connection, while it does.
    pub id: Option<usize>,
    /// Clock reading of the latest sign of life from the peer.
    pub last_activity: u64,
    /// How long the peer may stay silent.
    pub timeout: u64,
}

impl SessionState {
    /// An id is held exactly by active sessions and, until they have given it
    /// back, by some closing ones.
    pub open spec fn well_formed(self) -> bool {
        match self.phase {
            Phase::Connecting => self.id is None,
            Phase::Active => self.id is Some,
            Phase::Closing => true,
            Phase::Closed => self.id is None,
        }
    }

    /// The state of a connection that has just been accepted.
    pub open spec fn fresh(now: u64, timeout: u64) -> SessionState {
        SessionState { phase: Phase::Connecting, id: None, last_activity: now, timeout }
    }

    /// Frames are still read in this phase.
    pub open spec fn listening(self) -> bool {
        self.phase == Phase::Connecting || self.phase == Phase::Active
    }

    /// The peer has been silent for longer than the timeout.
    pub open spec fn stale(self, now: u64) -> bool {
        now - self.last_activity > self.timeout
    }

    /// The same state with a sign of life seen at `now`. The recorded time
    /// never moves backwards.
    pub open spec fn touched(self, now: u64) -> SessionState {
        SessionState {
            last_activity: if now > self.last_activity { now } else { self.last_activity },
            ..self
        }
    }

    /// The same state in another phase.
    pub open spec fn in_phase(self, phase: Phase) -> SessionState {
        SessionState { phase, ..self }
    }

    /// The registry's answer arrives: `Some(id)` on success, `None` when the
    /// registration could not complete. A session that is no longer waiting
    /// hands a granted id straight back.
    pub open spec fn on_registration(self, outcome: Option<usize>) -> (
        SessionState,
        Option<Disconnect>,
    ) {
        if self.phase == Phase::Connecting {
            match outcome {
                Some(id) => (SessionState { phase: Phase::Active, id: Some(id), ..self }, None),
                None => (self.in_phase(Phase::Closing), None),
            }
        } else {
            match outcome {
                Some(id) => (self, Some(Disconnect { id })),
                None => (self, None),
            }
        }
    }

    /// Something was read from the transport at `now`.
    pub open spec fn on_frame(self, msg: Result<Frame, ProtocolError>, now: u64) -> (
        SessionState,
        Command,
    ) {
        if !self.listening() {
            (self, Command::Idle)
        } else {
            match msg {
                Ok(Frame::Ping(payload)) => (self.touched(now), Command::Pong(payload)),
                Ok(Frame::Pong(_)) => (self.touched(now), Command::Idle),
                Ok(Frame::Text(_)) => (self.touched(now), Command::Idle),
                Ok(Frame::Binary(_)) => (self.touched(now), Command::Idle),
                Ok(Frame::Close(reason)) => (self.in_phase(Phase::Closing), Command::Close(reason)),
                Ok(Frame::Continuation) => (self.in_phase(Phase::Closing), Command::Stop),
                Ok(Frame::Nop) => (self, Command::Idle),
                Err(_) => (self.in_phase(Phase::Closing), Command::Stop),
            }
        }
    }

    /// The heartbeat timer fired at `now`.
    pub open spec fn on_heartbeat(self, now: u64) -> (SessionState, Command) {
        if self.phase != Phase::Active {
            (self, Command::Idle)
        } else if self.stale(now) {
            (self.in_phase(Phase::Closing), Command::Stop)
        } else {
            (self, Command::Ping)
        }
    }

    /// The registry delivered an envelope.
    pub open spec fn on_envelope(self, msg: Message) -> Command {
        if self.phase == Phase::Active {
            Command::Text(msg.0)
        } else {
            Command::Idle
        }
    }

    /// The service is going down.
    pub open spec fn on_shutdown(self) -> (SessionState, Command) {
        if self.listening() {
            (
                self.in_phase(Phase::Closing),
                Command::Close(Some(CloseReason { code: NORMAL_CLOSURE, description: None })),
            )
        } else {
            (self, Command::Idle)
        }
    }

    /// The session stops: whatever registration it holds is given back, once.
    pub open spec fn on_stop(self) -> (SessionState, Option<Disconnect>) {
        (
            SessionState { phase: Phase::Closed, id: None, ..self },
            match self.id {
                Some(id) => Some(Disconnect { id }),
                None => None,
            },
        )
    }

    /// The state after the heartbeat timer fired at each of `ticks` in turn,
    /// with nothing heard from the peer in between.
    pub open spec fn after_silence(self, ticks: Seq<u64>) -> SessionState
        decreases ticks.len(),
    {
        if ticks.len() == 0 {
            self
        } else {
            self.after_silence(ticks.drop_last()).on_heartbeat(ticks.last()).0
        }
    }
}

/// The per-connection unit: lifecycle, liveness and registry membership of one
/// viewer.
pub struct WsChatSession {
    phase: Phase,
    id: Option<usize>,
    hb: u64,
    timeout: u64,
}

impl View for WsChatSession {
    type V = SessionState;

    closed spec fn view(&self) -> SessionState {
        SessionState {
            phase: self.phase,
            id: self.id,
            last_activity: self.hb,
            timeout: self.timeout,
        }
    }
}

impl WsChatSession {
    #[verifier::type_invariant]
    spec fn inv(self) -> bool {
        self@.well_formed()
    }

    /// A session for a connection accepted at `now`, whose peer may stay
    /// silent for `timeout` milliseconds.
    pub fn new(now: u64, timeout: u64) -> (session: WsChatSession)
        ensures
            session@ == SessionState::fresh(now, timeout),
    {
        WsChatSession { phase: Phase::Connecting, id: None, hb: now, timeout }
    }

    /// The phase the session is in. Every session that exists is well formed.
    pub fn phase(&self) -> (phase: Phase)
        ensures
            phase == self@.phase,
            self@.well_formed(),
    {
        proof {
            use_type_invariant(self);
        }
        self.phase
    }

    /// The id under which the registry knows this session, if it does.
    pub fn id(&self) -> (id: Option<usize>)
        ensures
            id == self@.id,
            self@.well_formed(),
    {
        proof {
            use_type_invariant(self);
        }
        self.id
    }

    /// Clock reading of the latest sign of life from the peer.
    pub fn last_activity(&self) -> (at: u64)
        ensures
            at == self@.last_activity,
    {
        self.hb
    }

    /// How long the peer may stay silent, in milliseconds.
    pub fn timeout(&self) -> (timeout: u64)
        ensures
            timeout == self@.timeout,
    {
        self.timeout
    }

    /// Whether the peer has been silent for longer than the timeout at `now`.
    pub fn is_stale(&self, now: u64) -> (stale: bool)
        ensures
            stale == self@.stale(now),
    {
        now > self.hb && now - self.hb > self.timeout
    }

    fn touch(&mut self, now: u64)
        ensures
            final(self)@ == old(self)@.touched(now),
    {
        proof {
            use_type_invariant(&*self);
        }
        if now > self.hb {
            self.hb = now;
        }
    }

    fn start_closing(&mut self)
        ensures
            final(self)@ == old(self)@.in_phase(Phase::Closing),
    {
        self.phase = Phase::Closing;
    }

    /// Takes the registry's answer to this session's registration.
    ///
    /// A waiting session becomes active under the granted id, or starts
    /// closing when there is none. The result is a registration that the
    /// session cannot use and that must be dropped again.
    pub fn started(&mut self, outcome: Option<usize>) -> (undo: Option<Disconnect>)
        ensures
            (final(self)@, undo) == old(self)@.on_registration(outcome),
    {
        match self.phase {
            Phase::Connecting => {
                match outcome {
                    Some(id) => {
                        *self = WsChatSession {
                            phase: Phase::Active,
                            id: Some(id),
                            hb: self.hb,
                            timeout: self.timeout,
                        };
                    },
                    None => {
                        self.start_closing();
                    },
                }
                None
            },
            _ => match outcome {
                Some(id) => Some(Disconnect { id }),
                None => None,
            },
        }
    }

    /// Handles what was read from the transport at `now`.
    ///
    /// Probes are answered, every frame from the peer counts as a sign of
    /// life, and a close frame, a fragment or an undecodable message ends the
    /// session. A session that is already on its way out reads nothing.
    pub fn handle(&mut self, msg: Result<Frame, ProtocolError>, now: u64) -> (command: Command)
        ensures
            (final(self)@, command) == old(self)@.on_frame(msg, now),
    {
        match self.phase {
            Phase::Closing | Phase::Closed => Command::Idle,
            Phase::Connecting | Phase::Active => match msg {
                Err(_) => {
                    self.start_closing();
                    Command::Stop
                },
                Ok(Frame::Ping(payload)) => {
                    self.touch(now);
                    Command::Pong(payload)
                },
                Ok(Frame::Pong(_)) => {
                    self.touch(now);
                    Command::Idle
                },
                Ok(Frame::Text(_)) => {
                    self.touch(now);
                    Command::Idle
                },
                Ok(Frame::Binary(_)) => {
                    self.touch(now);
                    Command::Idle
                },
                Ok(Frame::Close(reason)) => {
                    self.start_closing();
                    Command::Close(reason)
                },
                Ok(Frame::Continuation) => {
                    self.start_closing();
                    Command::Stop
                },
                Ok(Frame::Nop) => Command::Idle,
            },
        }
    }

    /// The heartbeat timer fired at `now`: an active session whose peer has
    /// been silent for longer than the timeout starts closing, any other
    /// active session probes its peer.
    pub fn hb(&mut self, now: u64) -> (command: Command)
        ensures
            (final(self)@, command) == old(self)@.on_heartbeat(now),
    {
        match self.phase {
            Phase::Active => {
                if self.is_stale(now) {
                    self.start_closing();
                    Command::Stop
                } else {
                    Command::Ping
                }
            },
            _ => Command::Idle,
        }
    }

    /// Passes an envelope from the registry on to the transport, unchanged.
    /// Only an active session relays.
    pub fn relay(&self, msg: Message) -> (command: Command)
        ensures
            command == self@.on_envelope(msg),
    {
        match self.phase {
            Phase::Active => Command::Text(msg.0),
            _ => Command::Idle,
        }
    }

    /// The service is going down: the peer gets a normal close.
    pub fn shutdown(&mut self) -> (command: Command)
        ensures
            (final(self)@, command) == old(self)@.on_shutdown(),
    {
        match self.phase {
            Phase::Connecting | Phase::Active => {
                self.start_closing();
                Command::Close(Some(CloseReason { code: NORMAL_CLOSURE, description: None }))
            },
            _ => Command::Idle,
        }
    }

    /// Ends the session, from whatever phase. The result is the registration
    /// to drop; a second call has none left to give.
    pub fn stopping(&mut self) -> (leave: Option<Disconnect>)
        ensures
            (final(self)@, leave) == old(self)@.on_stop(),
    {
        let leave = match self.id {
            Some(id) => Some(Disconnect { id }),
            None => None,
        };
        *self = WsChatSession { phase: Phase::Closed, id: None, hb: self.hb, timeout: self.timeout };
        leave
    }
}

/// Heartbeats alone leave everything but the phase as it was.
pub proof fn lemma_silence_keeps_record(s: SessionState, ticks: Seq<u64>)
    ensures
        s.after_silence(ticks).id == s.id,
        s.after_silence(ticks).last_activity == s.last_activity,
        s.after_silence(ticks).timeout == s.timeout,
    decreases ticks.len(),
{
    if ticks.len() > 0 {
        lemma_silence_keeps_record(s, ticks.drop_last());
    }
}

/// An active session whose peer has gone silent stays active through every
/// heartbeat up to the timeout after the last sign of life, and is closing
/// from the first heartbeat past it. Stopping it then gives back exactly its
/// registration.
pub proof fn lemma_silent_peer_times_out(s: SessionState, ticks: Seq<u64>)
    requires
        s.well_formed(),
        s.phase == Phase::Active,
    ensures
        (forall|i: int| 0 <= i < ticks.len() ==> !s.stale(#[trigger] ticks[i])) ==> s.after_silence(
            ticks,
        ) == s,
        (exists|i: int| 0 <= i < ticks.len() && s.stale(#[trigger] ticks[i])) ==> {
            &&& s.after_silence(ticks) == s.in_phase(Phase::Closing)
            &&& s.after_silence(ticks).on_stop().0.phase == Phase::Closed
            &&& s.after_silence(ticks).on_stop().1 == Some(Disconnect { id: s.id->0 })
        },
    decreases ticks.len(),
{
    if ticks.len() > 0 {
        let earlier = ticks.drop_last();
        lemma_silent_peer_times_out(s, earlier);
        lemma_silence_keeps_record(s, earlier);
        if exists|i: int| 0 <= i < earlier.len() && s.stale(#[trigger] earlier[i]) {
            let i = choose|i: int| 0 <= i < earlier.len() && s.stale(#[trigger] earlier[i]);
            assert(s.stale(ticks[i]));
        } else {
            assert forall|i: int| 0 <= i < earlier.len() implies !s.stale(
                #[trigger] earlier[i],
            ) by {}
            if s.stale(ticks.last()) {
                assert(s.stale(ticks[ticks.len() - 1]));
            } else {
                assert forall|i: int| 0 <= i < ticks.len() implies !s.stale(
                    #[trigger] ticks[i],
                ) by {
                    if i < earlier.len() {
                        assert(ticks[i] == earlier[i]);
                    }
                }
            }
        }
    }
}

/// Every step keeps a well-formed session well formed.
pub proof fn lemma_steps_keep_well_formed(
    s: SessionState,
    outcome: Option<usize>,
    msg: Result<Frame, ProtocolError>,
    now: u64,
)
    requires
        s.well_formed(),
    ensures
        s.on_registration(outcome).0.well_formed(),
        s.on_frame(msg, now).0.well_formed(),
        s.on_heartbeat(now).0.well_formed(),
        s.on_shutdown().0.well_formed(),
        s.on_stop().0.well_formed(),
{
}

/// A session gives its registration back once: whatever phase it stops in, it
/// ends closed and without an id, so stopping it again gives back nothing.
pub proof fn lemma_stops_once(s: SessionState)
    ensures
        s.on_stop().0.phase == Phase::Closed,
        s.on_stop().1 == (match s.id {
            Some(id) => Some(Disconnect { id }),
            None => None,
        }),
        s.on_stop().0.on_stop().1 is None,
{
}

/// A closed session stays closed, asks nothing of its transport and keeps no
/// registration: one that is granted to it is handed straight back.
pub proof fn lemma_closed_is_final(
    s: SessionState,
    outcome: Option<usize>,
    msg: Result<Frame, ProtocolError>,
    envelope: Message,
    now: u64,
)
    requires
        s.phase == Phase::Closed,
    ensures
        s.on_registration(outcome).0 == s,
        s.on_registration(outcome).1 == (match outcome {
            Some(id) => Some(Disconnect { id }),
            None => None,
        }),
        s.on_frame(msg, now) == (s, Command::Idle),
        s.on_heartbeat(now) == (s, Command::Idle),
        s.on_shutdown() == (s, Command::Idle),
        s.on_envelope(envelope) == Command::Idle,
{
}

/// One thing that can happen to a session.
pub enum Event {
    /// The registry answered the registration.
    Registered(Option<usize>),
    /// Something was read from the transport.
    Read(Result<Frame, ProtocolError>, u64),
    /// The heartbeat timer fired.
    Heartbeat(u64),
    /// The service is going down.
    Shutdown,
    /// The session stops.
    Stopped,
}

impl SessionState {
    /// The state after an event, and the registration that the session gives
    /// back on it, if any.
    pub open spec fn after(self, event: Event) -> (SessionState, Option<Disconnect>) {
        match event {
            Event::Registered(outcome) => self.on_registration(outcome),
            Event::Read(msg, now) => (self.on_frame(msg, now).0, None),
            Event::Heartbeat(now) => (self.on_heartbeat(now).0, None),
            Event::Shutdown => (self.on_shutdown().0, None),
            Event::Stopped => self.on_stop(),
        }
    }

    /// The state after a history of events.
    pub open spec fn after_all(self, history: Seq<Event>) -> SessionState
        decreases history.len(),
    {
        if history.len() == 0 {
            self
        } else {
            self.after_all(history.drop_last()).after(history.last()).0
        }
    }

    /// Whether the session holds `id` now.
    pub open spec fn holds(self, id: usize) -> nat {
        if self.id == Some(id) {
            1
        } else {
            0
        }
    }

    /// How often the session gave `id` back during a history of events.
    pub open spec fn given_back(self, history: Seq<Event>, id: usize) -> nat
        decreases history.len(),
    {
        if history.len() == 0 {
            0
        } else {
            let before = self.after_all(history.drop_last());
            self.given_back(history.drop_last(), id) + if before.after(history.last()).1 == Some(
                Disconnect { id },
            ) {
                1nat
            } else {
                0nat
            }
        }
    }
}

/// How often the registry granted `id` during a history of events.
pub open spec fn granted(history: Seq<Event>, id: usize) -> nat
    decreases history.len(),
{
    if history.len() == 0 {
        0
    } else {
        granted(history.drop_last(), id) + if history.last() == Event::Registered(Some(id)) {
            1nat
        } else {
            0nat
        }
    }
}

/// No registration leaks and none is given back twice: whatever happens to a
/// session, every id it was granted is either still held or was given back
/// exactly as often as it was granted.
pub proof fn lemma_registrations_balance(s: SessionState, history: Seq<Event>, id: usize)
    requires
        s.well_formed(),
    ensures
        s.after_all(history).well_formed(),
        s.holds(id) + granted(history, id) == s.after_all(history).holds(id) + s.given_back(
            history,
            id,
        ),
    decreases history.len(),
{
    if history.len() > 0 {
        lemma_registrations_balance(s, history.drop_last(), id);
    }
}

/// Once a session has stopped it holds no id, so every id it was ever granted
/// has been given back.
pub proof fn lemma_stopped_holds_nothing(s: SessionState, history: Seq<Event>, id: usize)
    requires
        s.well_formed(),
        history.len() > 0,
        history.last() == Event::Stopped,
    ensures
        s.after_all(history).phase == Phase::Closed,
        s.holds(id) + granted(history, id) == s.given_back(history, id),
{
    lemma_registrations_balance(s, history, id);
}

} // verus!
