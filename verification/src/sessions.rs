//! The handler of one live connection, as a state machine.
//!
//! A handler is created for an identity that has been resolved already. It
//! registers with the registry once, probes the peer at a fixed interval,
//! gives the connection up when the peer has been silent for too long, turns
//! inbound frames into events for the registry and outbound records into
//! frames. It touches neither the transport nor the registry: every method
//! returns the [`Command`] that its caller has to carry out.

use crate::message::{Disconnect, ReadMessage, WsMessage, WsMessageView};
use crate::wire::{decode, decoded, encode, json_document, wire_text, DecodeError};
use vstd::prelude::*;

verus! {

/// Milliseconds between two probes, unless configured otherwise.
pub const HEARTBEAT_INTERVAL: u64 = 5_000;

/// Milliseconds of silence after which a connection is given up, unless
/// configured otherwise.
pub const CLIENT_TIMEOUT: u64 = 10_000;

/// The two parameters of the heartbeat, in milliseconds.
#[derive(Clone, Copy, Debug, PartialEq, Eq, Structural)]
pub struct Heartbeat {
    /// Time between two probes.
    pub interval: u64,
    /// Silence that is tolerated; a connection that has been silent for
    /// longer is closed at the next probe.
    pub timeout: u64,
}

impl Default for Heartbeat {
    fn default() -> (heartbeat: Self)
        ensures
            heartbeat == (Heartbeat { interval: HEARTBEAT_INTERVAL, timeout: CLIENT_TIMEOUT }),
    {
        Heartbeat { interval: HEARTBEAT_INTERVAL, timeout: CLIENT_TIMEOUT }
    }
}

/// Where a handler stands in its life.
#[derive(Clone, Copy, Debug, PartialEq, Eq, Structural)]
pub enum Phase {
    /// Created, not yet registered.
    Starting,
    /// Registered and serving.
    Active,
    /// Given up. Nothing leaves this phase, and nothing is done in it.
    Closing,
}

/// The transport reported an error instead of a frame.
#[derive(Clone, Copy, Debug, PartialEq, Eq, Structural)]
pub struct ProtocolError;

/// One inbound frame.
#[derive(Debug, PartialEq, Eq)]
pub enum Frame {
    /// A text frame with its text.
    Text(String),
    /// A binary frame. The protocol has none, so its content is of no interest.
    Binary,
    /// A continuation frame.
    Continuation,
    /// A probe of the peer, with the payload to send back.
    Ping(Vec<u8>),
    /// The peer's answer to a probe.
    Pong,
    /// The peer closes the connection.
    Close,
    /// No frame at all.
    Nop,
}

/// What a [`Frame`] holds, as mathematical values. Of a text frame it holds
/// what reading its text gives.
pub enum FrameView {
    Text(Result<WsMessageView, DecodeError>),
    Binary,
    Continuation,
    Ping(Seq<u8>),
    Pong,
    Close,
    Nop,
}

impl View for Frame {
    type V = FrameView;

    open spec fn view(&self) -> FrameView {
        match *self {
            Frame::Text(text) => FrameView::Text(decoded(json_document(text@))),
            Frame::Binary => FrameView::Binary,
            Frame::Continuation => FrameView::Continuation,
            Frame::Ping(payload) => FrameView::Ping(payload@),
            Frame::Pong => FrameView::Pong,
            Frame::Close => FrameView::Close,
            Frame::Nop => FrameView::Nop,
        }
    }
}

/// What the caller of a handler has to do next.
#[derive(Debug, PartialEq, Eq)]
pub enum Command {
    /// Nothing.
    Nothing,
    /// Register the connection's sink with the registry under `id`, and from
    /// now on call [`WsChatSession::hb`] every `every` milliseconds.
    Register { id: String, every: u64 },
    /// Send a probe to the peer.
    Ping,
    /// Answer the peer's probe with this payload.
    Pong(Vec<u8>),
    /// Hand this chat line to the registry.
    Route(WsMessage),
    /// Hand this read receipt to the registry.
    RouteRead(ReadMessage),
    /// Write this text to the peer as one frame.
    Write(String),
    /// Hand `disconnect` to the registry and release the transport, after
    /// answering the peer's close frame if `close_frame` is set.
    Shutdown { disconnect: Disconnect, close_frame: bool },
}

/// What a [`Command`] holds, as mathematical values.
pub enum CommandView {
    Nothing,
    Register { id: Seq<char>, every: u64 },
    Ping,
    Pong(Seq<u8>),
    Route(WsMessageView),
    RouteRead { reader: Seq<char>, writer: Seq<char> },
    Write(Seq<char>),
    Shutdown { id: Seq<char>, close_frame: bool },
}

impl View for Command {
    type V = CommandView;

    open spec fn view(&self) -> CommandView {
        match *self {
            Command::Nothing => CommandView::Nothing,
            Command::Register { id, every } => CommandView::Register { id: id@, every },
            Command::Ping => CommandView::Ping,
            Command::Pong(payload) => CommandView::Pong(payload@),
            Command::Route(message) => CommandView::Route(message@),
            Command::RouteRead(receipt) => CommandView::RouteRead {
                reader: receipt.reader@,
                writer: receipt.writer@,
            },
            Command::Write(text) => CommandView::Write(text@),
            Command::Shutdown { disconnect, close_frame } => CommandView::Shutdown {
                id: disconnect.id@,
                close_frame,
            },
        }
    }
}

/// The handler of one connection.
pub struct WsChatSession {
    name: String,
    hb: u64,
    phase: Phase,
    heartbeat: Heartbeat,
}

/// What a [`WsChatSession`] holds, as mathematical values.
pub struct SessionView {
    /// The identity that the connection belongs to.
    pub name: Seq<char>,
    /// When the peer last gave a sign of life, in milliseconds on the clock
    /// of whoever drives the handler.
    pub hb: u64,
    pub phase: Phase,
    pub heartbeat: Heartbeat,
}

impl View for WsChatSession {
    type V = SessionView;

    closed spec fn view(&self) -> SessionView {
        SessionView { name: self.name@, hb: self.hb, phase: self.phase, heartbeat: self.heartbeat }
    }
}

/// What can happen to a handler.
pub enum SessionEvent {
    /// The handler has been set up.
    Started,
    /// The heartbeat timer fired at the time `now`.
    Beat { now: u64 },
    /// The transport delivered a frame, or an error, at the time `now`.
    Inbound { frame: Result<FrameView, ProtocolError>, now: u64 },
    /// The registry pushed a record to this connection.
    Push(WsMessageView),
    /// The connection is being torn down.
    Stopping,
}

// ---------------------------------------------------------------------------
// The state machine
// ---------------------------------------------------------------------------

/// For how long the peer has been silent at the time `now`. A clock that
/// reads earlier than the last sign of life counts as no silence at all.
pub open spec fn silence(session: SessionView, now: u64) -> int {
    if now >= session.hb {
        now - session.hb
    } else {
        0
    }
}

/// Whether the peer has been silent for longer than the timeout allows.
pub open spec fn expired(session: SessionView, now: u64) -> bool {
    silence(session, now) > session.heartbeat.timeout
}

/// The step into `Closing`: the one place where a disconnect is issued.
pub open spec fn closing(session: SessionView, close_frame: bool) -> (SessionView, CommandView) {
    (
        SessionView { phase: Phase::Closing, ..session },
        CommandView::Shutdown { id: session.name, close_frame },
    )
}

/// The state with the peer's sign of life at `now` noted.
pub open spec fn alive_at(session: SessionView, now: u64) -> SessionView {
    SessionView { hb: now, ..session }
}

/// What is handed to the registry for a record read from a frame: a record
/// with the `read` flag set is the receipt of its sender for what its
/// recipient wrote, any other record is a chat line.
pub open spec fn routed_as(record: WsMessageView) -> CommandView {
    if record.read {
        CommandView::RouteRead { reader: record.sender, writer: record.recv }
    } else {
        CommandView::Route(record)
    }
}

/// What an inbound frame, or an error in its place, leads to while the
/// handler is not closing.
///
/// A probe is answered, and like its answer and like a record it is a sign of
/// life. A text frame must hold a record, which goes to the registry. The
/// protocol knows no other frames: a binary frame, a continuation frame and a
/// text that is no record end the connection, as do a close frame and an
/// error of the transport.
pub open spec fn on_inbound(
    session: SessionView,
    frame: Result<FrameView, ProtocolError>,
    now: u64,
) -> (SessionView, CommandView) {
    match frame {
        Err(_) => closing(session, false),
        Ok(FrameView::Text(Ok(record))) => (alive_at(session, now), routed_as(record)),
        Ok(FrameView::Text(Err(_))) => closing(session, false),
        Ok(FrameView::Binary) => closing(session, false),
        Ok(FrameView::Continuation) => closing(session, false),
        Ok(FrameView::Ping(payload)) => (alive_at(session, now), CommandView::Pong(payload)),
        Ok(FrameView::Pong) => (alive_at(session, now), CommandView::Nothing),
        Ok(FrameView::Close) => closing(session, true),
        Ok(FrameView::Nop) => (session, CommandView::Nothing),
    }
}

/// The state machine: the state after `event`, and the command it yields.
///
/// In `Closing` nothing happens any more. Otherwise: being started registers
/// the handler, once; a beat closes the connection if the peer has been
/// silent for too long and probes it if not; a push is written to the peer;
/// being stopped closes the connection.
pub open spec fn step(session: SessionView, event: SessionEvent) -> (SessionView, CommandView) {
    if session.phase is Closing {
        (session, CommandView::Nothing)
    } else {
        match event {
            SessionEvent::Started => if session.phase is Starting {
                (
                    SessionView { phase: Phase::Active, ..session },
                    CommandView::Register { id: session.name, every: session.heartbeat.interval },
                )
            } else {
                (session, CommandView::Nothing)
            },
            SessionEvent::Beat { now } => if expired(session, now) {
                closing(session, false)
            } else {
                (session, CommandView::Ping)
            },
            SessionEvent::Inbound { frame, now } => on_inbound(session, frame, now),
            SessionEvent::Push(record) => (session, CommandView::Write(wire_text(record))),
            SessionEvent::Stopping => closing(session, false),
        }
    }
}

/// `Ok` of the view of a frame, `Err` of an error.
pub open spec fn inbound_view(frame: Result<Frame, ProtocolError>) -> Result<
    FrameView,
    ProtocolError,
> {
    match frame {
        Ok(frame) => Ok(frame@),
        Err(error) => Err(error),
    }
}

/// `Ok` of the view of a record, `Err` of an error.
pub open spec fn decoded_view(outcome: Result<WsMessage, DecodeError>) -> Result<
    WsMessageView,
    DecodeError,
> {
    match outcome {
        Ok(record) => Ok(record@),
        Err(error) => Err(error),
    }
}

impl WsChatSession {
    /// A handler for the connection of `name`, created at the time `now`.
    pub fn new(name: String, now: u64, heartbeat: Heartbeat) -> (session: Self)
        ensures
            session@ == (SessionView { name: name@, hb: now, phase: Phase::Starting, heartbeat }),
    {
        WsChatSession { name, hb: now, phase: Phase::Starting, heartbeat }
    }

    /// The identity that the connection belongs to.
    pub fn name(&self) -> (name: &String)
        ensures
            name@ == self@.name,
    {
        &self.name
    }

    /// Where the handler stands.
    pub fn phase(&self) -> (phase: Phase)
        ensures
            phase == self@.phase,
    {
        self.phase
    }

    /// When the peer last gave a sign of life.
    pub fn last_heartbeat(&self) -> (at: u64)
        ensures
            at == self@.hb,
    {
        self.hb
    }

    /// Enters `Closing` and issues the disconnect.
    fn close(&mut self, close_frame: bool) -> (command: Command)
        ensures
            (final(self)@, command@) == closing(old(self)@, close_frame),
    {
        self.phase = Phase::Closing;
        Command::Shutdown { disconnect: Disconnect { id: self.name.clone() }, close_frame }
    }

    /// The handler has been set up: it registers, once.
    pub fn started(&mut self) -> (command: Command)
        ensures
            (final(self)@, command@) == step(old(self)@, SessionEvent::Started),
    {
        match self.phase {
            Phase::Starting => {
                self.phase = Phase::Active;
                Command::Register { id: self.name.clone(), every: self.heartbeat.interval }
            },
            _ => Command::Nothing,
        }
    }

    /// One beat of the heartbeat, at the time `now`: the connection is closed
    /// if the peer has been silent for longer than the timeout, and probed if
    /// not.
    pub fn hb(&mut self, now: u64) -> (command: Command)
        ensures
            (final(self)@, command@) == step(old(self)@, SessionEvent::Beat { now }),
            !(old(self)@.phase is Closing) && expired(old(self)@, now)
                ==> final(self)@.phase is Closing
                && command@ == (CommandView::Shutdown { id: old(self)@.name, close_frame: false }),
            !(old(self)@.phase is Closing) && !expired(old(self)@, now)
                ==> final(self)@ == old(self)@ && command@ == CommandView::Ping,
    {
        match self.phase {
            Phase::Closing => Command::Nothing,
            _ => {
                if now >= self.hb && now - self.hb > self.heartbeat.timeout {
                    self.close(false)
                } else {
                    Command::Ping
                }
            },
        }
    }

    /// The connection is being torn down: the disconnect is issued, unless it
    /// has been issued before.
    pub fn stopping(&mut self) -> (command: Command)
        ensures
            (final(self)@, command@) == step(old(self)@, SessionEvent::Stopping),
    {
        match self.phase {
            Phase::Closing => Command::Nothing,
            _ => self.close(false),
        }
    }

    /// A text frame arrived at the time `now`, and reading it gave `outcome`.
    pub fn handle_text(&mut self, outcome: Result<WsMessage, DecodeError>, now: u64) -> (command:
        Command)
        ensures
            (final(self)@, command@) == step(
                old(self)@,
                SessionEvent::Inbound {
                    frame: Ok(FrameView::Text(decoded_view(outcome))),
                    now,
                },
            ),
    {
        match self.phase {
            Phase::Closing => Command::Nothing,
            _ => match outcome {
                Err(_) => self.close(false),
                Ok(record) => {
                    self.hb = now;
                    if record.read {
                        Command::RouteRead(
                            ReadMessage { reader: record.sender, writer: record.recv },
                        )
                    } else {
                        Command::Route(record)
                    }
                },
            },
        }
    }

    /// A frame, or an error of the transport, arrived at the time `now`.
    pub fn handle(&mut self, frame: Result<Frame, ProtocolError>, now: u64) -> (command: Command)
        ensures
            (final(self)@, command@) == step(
                old(self)@,
                SessionEvent::Inbound { frame: inbound_view(frame), now },
            ),
    {
        match self.phase {
            Phase::Closing => Command::Nothing,
            _ => match frame {
                Err(_) => self.close(false),
                Ok(Frame::Text(text)) => {
                    let outcome = decode(text.as_str());
                    self.handle_text(outcome, now)
                },
                Ok(Frame::Binary) => self.close(false),
                Ok(Frame::Continuation) => self.close(false),
                Ok(Frame::Ping(payload)) => {
                    self.hb = now;
                    Command::Pong(payload)
                },
                Ok(Frame::Pong) => {
                    self.hb = now;
                    Command::Nothing
                },
                Ok(Frame::Close) => self.close(true),
                Ok(Frame::Nop) => Command::Nothing,
            },
        }
    }

    /// The registry pushed `record` to this connection: it is written to the
    /// peer, in the wire format.
    pub fn push(&self, record: &WsMessage) -> (command: Command)
        ensures
            (self@, command@) == step(self@, SessionEvent::Push(record@)),
    {
        match self.phase {
            Phase::Closing => Command::Nothing,
            _ => Command::Write(encode(record)),
        }
    }
}

// ---------------------------------------------------------------------------
// Laws of the state machine
// ---------------------------------------------------------------------------

/// The state after a whole sequence of events, applied in order.
pub open spec fn state_after(session: SessionView, events: Seq<SessionEvent>) -> SessionView
    decreases events.len(),
{
    if events.len() == 0 {
        session
    } else {
        step(state_after(session, events.drop_last()), events.last()).0
    }
}

/// The commands that a sequence of events yields, one for each event.
pub open spec fn commands(session: SessionView, events: Seq<SessionEvent>) -> Seq<CommandView>
    decreases events.len(),
{
    if events.len() == 0 {
        Seq::<CommandView>::empty()
    } else {
        commands(session, events.drop_last()).push(
            step(state_after(session, events.drop_last()), events.last()).1,
        )
    }
}

/// How many of `commands` hand a disconnect to the registry.
pub open spec fn shutdowns(commands: Seq<CommandView>) -> nat
    decreases commands.len(),
{
    if commands.len() == 0 {
        0
    } else {
        shutdowns(commands.drop_last()) + if commands.last() is Shutdown {
            1nat
        } else {
            0nat
        }
    }
}

/// How many of `commands` register the connection with the registry.
pub open spec fn registrations(commands: Seq<CommandView>) -> nat
    decreases commands.len(),
{
    if commands.len() == 0 {
        0
    } else {
        registrations(commands.drop_last()) + if commands.last() is Register {
            1nat
        } else {
            0nat
        }
    }
}

/// Events applied one sequence after another are the events of the joined
/// sequence: the state is the same, and the commands are those of the first
/// sequence followed by those of the second.
pub proof fn lemma_events_in_sequence(
    session: SessionView,
    first: Seq<SessionEvent>,
    second: Seq<SessionEvent>,
)
    ensures
        state_after(session, first + second) == state_after(state_after(session, first), second),
        commands(session, first + second) == commands(session, first) + commands(
            state_after(session, first),
            second,
        ),
    decreases second.len(),
{
    if second.len() == 0 {
        assert(first + second =~= first);
        assert(commands(session, first) + Seq::<CommandView>::empty() =~= commands(session, first));
    } else {
        assert((first + second).drop_last() =~= first + second.drop_last());
        assert((first + second).last() == second.last());
        lemma_events_in_sequence(session, first, second.drop_last());
        let middle = state_after(session, first);
        assert(commands(session, first + second) =~= commands(session, first) + commands(
            middle,
            second,
        ));
    }
}

/// `Closing` is terminal: whatever happens to a handler that is closing, its
/// state stays as it is and every command is `Nothing`. No second disconnect
/// and no registration is ever issued from there.
pub proof fn lemma_closing_is_terminal(session: SessionView, events: Seq<SessionEvent>)
    requires
        session.phase is Closing,
    ensures
        state_after(session, events) == session,
        commands(session, events).len() == events.len(),
        forall|i: int| 0 <= i < events.len() ==> (#[trigger] commands(session, events)[i]) is Nothing,
        shutdowns(commands(session, events)) == 0,
        registrations(commands(session, events)) == 0,
    decreases events.len(),
{
    if events.len() > 0 {
        lemma_closing_is_terminal(session, events.drop_last());
        let earlier = commands(session, events.drop_last());
        assert(commands(session, events).drop_last() =~= earlier);
    }
}

/// The disconnect is issued exactly once. Over any sequence of events, a
/// handler that was not closing at the outset issues one disconnect if it is
/// closing at the end and none if it is not; the disconnect names the
/// identity that the handler was created for, which never changes.
pub proof fn lemma_one_disconnect(session: SessionView, events: Seq<SessionEvent>)
    requires
        !(session.phase is Closing),
    ensures
        state_after(session, events).name == session.name,
        state_after(session, events).heartbeat == session.heartbeat,
        commands(session, events).len() == events.len(),
        shutdowns(commands(session, events)) == (if state_after(session, events).phase is Closing {
            1nat
        } else {
            0nat
        }),
        forall|i: int|
            0 <= i < events.len() && (#[trigger] commands(session, events)[i]) is Shutdown
                ==> commands(session, events)[i]->Shutdown_id == session.name,
    decreases events.len(),
{
    if events.len() > 0 {
        let before = events.drop_last();
        lemma_one_disconnect(session, before);
        let earlier = commands(session, before);
        let middle = state_after(session, before);
        assert(commands(session, events).drop_last() =~= earlier);
        assert forall|i: int|
            0 <= i < events.len() && (#[trigger] commands(session, events)[i]) is Shutdown implies commands(
            session,
            events,
        )[i]->Shutdown_id == session.name by {
            if i < before.len() {
                assert(commands(session, events)[i] == earlier[i]);
            }
        }
    }
}

/// The handler registers at most once: exactly when the first event that
/// reaches it while it is starting tells it that it has been set up.
pub proof fn lemma_registers_at_most_once(session: SessionView, events: Seq<SessionEvent>)
    ensures
        registrations(commands(session, events)) <= 1,
        !(session.phase is Starting) ==> registrations(commands(session, events)) == 0
            && !(state_after(session, events).phase is Starting),
        state_after(session, events).phase is Starting ==> registrations(
            commands(session, events),
        ) == 0,
    decreases events.len(),
{
    if events.len() > 0 {
        let before = events.drop_last();
        lemma_registers_at_most_once(session, before);
        assert(commands(session, events).drop_last() =~= commands(session, before));
    }
}

/// The heartbeat. A beat that finds the peer silent for longer than the
/// timeout closes the connection and issues the disconnect; whatever came
/// before and whatever comes after, that disconnect is the only one.
pub proof fn lemma_silent_peer_is_disconnected_once(
    session: SessionView,
    before: Seq<SessionEvent>,
    now: u64,
    after: Seq<SessionEvent>,
)
    requires
        !(session.phase is Closing),
        !(state_after(session, before).phase is Closing),
        expired(state_after(session, before), now),
    ensures
        ({
            let events = before.push(SessionEvent::Beat { now }) + after;
            &&& state_after(session, events).phase is Closing
            &&& shutdowns(commands(session, events)) == 1
            &&& commands(session, events)[before.len() as int] == (CommandView::Shutdown {
                id: session.name,
                close_frame: false,
            })
        }),
{
    let beat = SessionEvent::Beat { now };
    let upto = before.push(beat);
    let events = upto + after;
    let middle = state_after(session, before);
    lemma_one_disconnect(session, before);
    assert(upto.drop_last() =~= before);
    assert(upto.last() == beat);
    let closed = state_after(session, upto);
    assert(closed == closing(middle, false).0);
    assert(commands(session, upto).last() == closing(middle, false).1);
    lemma_closing_is_terminal(closed, after);
    lemma_events_in_sequence(session, upto, after);
    lemma_one_disconnect(session, events);
    lemma_one_disconnect(session, upto);
    assert(commands(session, events)[before.len() as int] == commands(session, upto)[before.len() as int]);
}

/// A sign of life defers the closing. When a probe, its answer or a record
/// arrives at the time `heard`, a beat at any time up to `heard` plus the
/// timeout finds the connection alive and probes it again.
pub proof fn lemma_sign_of_life_defers_closing(
    session: SessionView,
    frame: FrameView,
    heard: u64,
    now: u64,
)
    requires
        !(session.phase is Closing),
        frame is Ping || frame is Pong || (frame is Text && frame->Text_0 is Ok),
        now <= heard + session.heartbeat.timeout,
    ensures
        ({
            let after = step(session, SessionEvent::Inbound { frame: Ok(frame), now: heard }).0;
            &&& after == alive_at(session, heard)
            &&& step(after, SessionEvent::Beat { now }) == (after, CommandView::Ping)
        }),
{
}

} // verus!
