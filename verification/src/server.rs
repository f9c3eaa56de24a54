//! The session registry: who is reachable right now, and where each event goes.
//!
//! The registry binds an identity to at most one sink, the handle through
//! which a live connection is reached. It is the only writer of that mapping.
//! Events are applied one at a time; each yields at most one push to a sink
//! and exactly one request to the durable store, and neither depends on the
//! other being carried out.

use crate::message::{Connect, Disconnect, ReadMessage, WsMessage, WsMessageView};
use crate::store::{StoreRequest, StoreRequestView};
use vstd::hash_map::StringHashMap;
use vstd::prelude::*;

verus! {

/// The registry. `S` is the type of a sink; the registry never looks inside one.
///
/// Its view is the mapping from the identities that hold a session to their sinks.
#[verifier::reject_recursive_types(S)]
pub struct ChatServer<S> {
    sessions: StringHashMap<S>,
}

impl<S> View for ChatServer<S> {
    type V = Map<Seq<char>, S>;

    closed spec fn view(&self) -> Map<Seq<char>, S> {
        self.sessions@
    }
}

/// A record on its way to the sink of a connected identity.
#[derive(Debug, PartialEq, Eq)]
pub struct Push<'a, S> {
    pub sink: &'a S,
    pub message: WsMessage,
}

impl<'a, S> View for Push<'a, S> {
    type V = (S, WsMessageView);

    open spec fn view(&self) -> (S, WsMessageView) {
        (*self.sink, self.message@)
    }
}

impl<'a, S> DeepView for Push<'a, S> {
    type V = (S, WsMessageView);

    open spec fn deep_view(&self) -> (S, WsMessageView) {
        self@
    }
}

/// What one event asks for: the push, if anybody is there to receive it, and
/// the request to the store. The two are independent of each other.
#[derive(Debug, PartialEq, Eq)]
pub struct Routed<'a, S> {
    pub push: Option<Push<'a, S>>,
    pub store: StoreRequest,
}

/// One event, as the registry consumes it.
#[derive(Debug, PartialEq, Eq)]
pub enum Event<S> {
    Connect(Connect<S>),
    Disconnect(Disconnect),
    Message(WsMessage),
    Read(ReadMessage),
}

/// What an [`Event`] holds, as mathematical values.
pub enum EventView<S> {
    Connect { id: Seq<char>, sink: S },
    Disconnect { id: Seq<char> },
    Message(WsMessageView),
    Read { reader: Seq<char>, writer: Seq<char> },
}

impl<S> View for Event<S> {
    type V = EventView<S>;

    open spec fn view(&self) -> EventView<S> {
        match *self {
            Event::Connect(connect) => EventView::Connect { id: connect.id@, sink: connect.addr },
            Event::Disconnect(disconnect) => EventView::Disconnect { id: disconnect.id@ },
            Event::Message(message) => EventView::Message(message@),
            Event::Read(receipt) => EventView::Read {
                reader: receipt.reader@,
                writer: receipt.writer@,
            },
        }
    }
}

// ---------------------------------------------------------------------------
// The registry as a function from state and event to state and actions
// ---------------------------------------------------------------------------

/// The sessions after `event`: a connect binds its identity to the new sink,
/// whatever was bound before; a disconnect unbinds its identity; routing
/// changes nothing.
pub open spec fn sessions_after<S>(sessions: Map<Seq<char>, S>, event: EventView<S>) -> Map<
    Seq<char>,
    S,
> {
    match event {
        EventView::Connect { id, sink } => sessions.insert(id, sink),
        EventView::Disconnect { id } => sessions.remove(id),
        EventView::Message(_) => sessions,
        EventView::Read { .. } => sessions,
    }
}

/// The push that `event` causes, with the sink that receives it: a message
/// goes to its recipient as it is, a read receipt goes to the writer as a read
/// notice. There is a push exactly if the addressee holds a session.
pub open spec fn pushed<S>(sessions: Map<Seq<char>, S>, event: EventView<S>) -> Option<
    (S, WsMessageView),
> {
    match event {
        EventView::Message(message) => if sessions.contains_key(message.recv) {
            Some((sessions[message.recv], message))
        } else {
            None
        },
        EventView::Read { reader, writer } => if sessions.contains_key(writer) {
            Some((sessions[writer], WsMessageView::read_notice(reader)))
        } else {
            None
        },
        _ => None,
    }
}

/// The request to the store that `event` causes, at the time `now`. It does
/// not depend on who is connected.
pub open spec fn stored<S>(event: EventView<S>, now: u64) -> StoreRequestView {
    match event {
        EventView::Connect { id, .. } => StoreRequestView::SetLastSeen {
            identity: id,
            last_seen: None,
        },
        EventView::Disconnect { id } => StoreRequestView::SetLastSeen {
            identity: id,
            last_seen: Some(now),
        },
        EventView::Message(message) => StoreRequestView::InsertMessage {
            sender: message.sender,
            recipient: message.recv,
            body: message.msg,
            timestamp: message.time,
            read: false,
        },
        EventView::Read { reader, writer } => StoreRequestView::MarkRead { reader, writer },
    }
}

/// The sessions after a whole sequence of events, applied in order.
pub open spec fn sessions_after_all<S>(
    sessions: Map<Seq<char>, S>,
    events: Seq<EventView<S>>,
) -> Map<Seq<char>, S>
    decreases events.len(),
{
    if events.len() == 0 {
        sessions
    } else {
        sessions_after(sessions_after_all(sessions, events.drop_last()), events.last())
    }
}

impl<S> ChatServer<S> {
    /// A registry in which nobody is connected.
    pub fn new() -> (server: Self)
        ensures
            server@ == Map::<Seq<char>, S>::empty(),
    {
        ChatServer { sessions: StringHashMap::new() }
    }

    /// The sink that `id` is bound to, if it holds a session.
    pub fn sink_of<'a>(&'a self, id: &str) -> (sink: Option<&'a S>)
        ensures
            (match sink {
                Some(sink) => self@.contains_key(id@) && *sink == self@[id@],
                None => !self@.contains_key(id@),
            }),
    {
        self.sessions.get(id)
    }

    /// Whether `id` holds a session.
    pub fn is_connected(&self, id: &str) -> (connected: bool)
        ensures
            connected == self@.contains_key(id@),
    {
        self.sessions.contains_key(id)
    }

    /// How many identities hold a session.
    pub fn connected(&self) -> (count: usize)
        ensures
            count == self@.len(),
    {
        self.sessions.len()
    }

    /// Binds `msg.id` to the sink `msg.addr`. A session that the identity
    /// already held is replaced; its connection is neither told nor closed.
    /// The store is asked to clear the identity's last-seen time.
    pub fn connect(&mut self, msg: Connect<S>) -> (store: StoreRequest)
        ensures
            final(self)@ == old(self)@.insert(msg.id@, msg.addr),
            store@ == (StoreRequestView::SetLastSeen { identity: msg.id@, last_seen: None }),
    {
        let identity = msg.id.clone();
        self.sessions.insert(msg.id, msg.addr);
        StoreRequest::SetLastSeen { identity, last_seen: None }
    }

    /// Unbinds `msg.id`, if it was bound. Whether it was or not, the store is
    /// asked to record `now` as the identity's last-seen time.
    pub fn disconnect(&mut self, msg: Disconnect, now: u64) -> (store: StoreRequest)
        ensures
            final(self)@ == old(self)@.remove(msg.id@),
            store@ == (StoreRequestView::SetLastSeen { identity: msg.id@, last_seen: Some(now) }),
    {
        self.sessions.remove(msg.id.as_str());
        StoreRequest::SetLastSeen { identity: msg.id, last_seen: Some(now) }
    }

    /// Routes a chat line. If the recipient holds a session, the line is
    /// pushed to its sink as it is; if not, nothing is pushed and nobody is
    /// told. Either way the store is asked to keep the line, flagged unread.
    pub fn route_message<'a>(&'a self, msg: WsMessage) -> (routed: Routed<'a, S>)
        ensures
            self@.contains_key(msg.recv@) ==> routed.push is Some && *routed.push->0.sink
                == self@[msg.recv@] && routed.push->0.message == msg,
            !self@.contains_key(msg.recv@) ==> routed.push is None,
            routed.store@ == (StoreRequestView::InsertMessage {
                sender: msg.sender@,
                recipient: msg.recv@,
                body: msg.msg@,
                timestamp: msg.time,
                read: false,
            }),
    {
        let store = StoreRequest::InsertMessage {
            sender: msg.sender.clone(),
            recipient: msg.recv.clone(),
            body: msg.msg.clone(),
            timestamp: msg.time,
            read: false,
        };
        let push = match self.sessions.get(msg.recv.as_str()) {
            Some(sink) => Some(Push { sink, message: msg }),
            None => None,
        };
        Routed { push, store }
    }

    /// Routes a read receipt. If the writer holds a session, a read notice
    /// naming the reader is pushed to its sink; if not, nothing is pushed.
    /// Either way the store is asked to flag as read what the writer sent to
    /// the reader. The receipt itself is not kept.
    pub fn route_read_receipt<'a>(&'a self, receipt: ReadMessage) -> (routed: Routed<'a, S>)
        ensures
            self@.contains_key(receipt.writer@) ==> routed.push is Some && *routed.push->0.sink
                == self@[receipt.writer@] && routed.push->0.message@
                == WsMessageView::read_notice(receipt.reader@),
            !self@.contains_key(receipt.writer@) ==> routed.push is None,
            routed.store@ == (StoreRequestView::MarkRead {
                reader: receipt.reader@,
                writer: receipt.writer@,
            }),
    {
        let push = match self.sessions.get(receipt.writer.as_str()) {
            Some(sink) => Some(
                Push { sink, message: WsMessage::read_notice(receipt.reader.clone()) },
            ),
            None => None,
        };
        Routed {
            push,
            store: StoreRequest::MarkRead { reader: receipt.reader, writer: receipt.writer },
        }
    }

    /// Applies one event, whatever its kind; `now` is the time in milliseconds
    /// since the Unix epoch, used where a last-seen time is recorded.
    pub fn handle<'a>(&'a mut self, event: Event<S>, now: u64) -> (routed: Routed<'a, S>)
        ensures
            final(self)@ == sessions_after(old(self)@, event@),
            routed.push.deep_view() == pushed(old(self)@, event@),
            routed.store@ == stored(event@, now),
    {
        match event {
            Event::Connect(connect) => Routed { push: None, store: self.connect(connect) },
            Event::Disconnect(disconnect) => Routed {
                push: None,
                store: self.disconnect(disconnect, now),
            },
            Event::Message(message) => self.route_message(message),
            Event::Read(receipt) => self.route_read_receipt(receipt),
        }
    }
}


// ---------------------------------------------------------------------------
// Laws of the registry
// ---------------------------------------------------------------------------

/// Whether every event of `events` is a connect of the identity `id`.
pub open spec fn all_connect<S>(events: Seq<EventView<S>>, id: Seq<char>) -> bool {
    forall|i: int|
        0 <= i < events.len() ==> (#[trigger] events[i]) is Connect && events[i]->Connect_id == id
}

/// Last registration wins. When an identity connects twice, with whatever
/// sinks, it holds one session afterwards, bound to the second sink: the
/// registry is as if the first connect had never happened, and no other
/// identity is touched.
pub proof fn lemma_second_connect_replaces<S>(
    sessions: Map<Seq<char>, S>,
    id: Seq<char>,
    first: S,
    second: S,
)
    ensures
        ({
            let once = sessions_after(sessions, EventView::Connect { id, sink: first });
            let twice = sessions_after(once, EventView::Connect { id, sink: second });
            &&& twice.contains_key(id)
            &&& twice[id] == second
            &&& twice == sessions_after(sessions, EventView::Connect { id, sink: second })
            &&& twice.dom() == once.dom()
            &&& twice.dom() == sessions.dom().insert(id)
            &&& forall|other: Seq<char>|
                other != id ==> twice.contains_key(other) == sessions.contains_key(other)
                    && twice[other] == sessions[other]
        }),
{
    let once = sessions.insert(id, first);
    let twice = once.insert(id, second);
    assert(twice =~= sessions.insert(id, second));
    assert(twice.dom() =~= once.dom());
    assert(twice.dom() =~= sessions.dom().insert(id));
}

/// The same for any number of connects: after a sequence of connects of one
/// identity, that identity is bound to the sink that was registered last, and
/// the registry is what one connect with that sink alone would have made it.
pub proof fn lemma_last_registration_wins<S>(
    sessions: Map<Seq<char>, S>,
    id: Seq<char>,
    events: Seq<EventView<S>>,
)
    requires
        events.len() > 0,
        all_connect(events, id),
    ensures
        sessions_after_all(sessions, events) == sessions.insert(id, events.last()->Connect_sink),
        sessions_after_all(sessions, events).contains_key(id),
        sessions_after_all(sessions, events)[id] == events.last()->Connect_sink,
    decreases events.len(),
{
    let last = events.last();
    let before = events.drop_last();
    assert(last is Connect && last->Connect_id == id);
    if before.len() == 0 {
        assert(sessions_after_all(sessions, before) == sessions);
    } else {
        assert(all_connect(before, id)) by {
            assert forall|i: int| 0 <= i < before.len() implies (#[trigger] before[i]) is Connect
                && before[i]->Connect_id == id by {
                assert(before[i] == events[i]);
            }
        }
        lemma_last_registration_wins(sessions, id, before);
        assert(sessions.insert(id, before.last()->Connect_sink).insert(id, last->Connect_sink)
            =~= sessions.insert(id, last->Connect_sink));
    }
}

/// Disconnecting is idempotent. The second of two disconnects of one identity
/// leaves the mapping as the first left it, and the identity unbound; all it
/// still does is to ask the store, once more, to record a last-seen time.
pub proof fn lemma_second_disconnect_changes_nothing<S>(
    sessions: Map<Seq<char>, S>,
    id: Seq<char>,
    later: u64,
)
    ensures
        ({
            let once = sessions_after(sessions, EventView::<S>::Disconnect { id });
            let twice = sessions_after(once, EventView::<S>::Disconnect { id });
            &&& twice == once
            &&& !twice.contains_key(id)
            &&& pushed(once, EventView::<S>::Disconnect { id }) is None
            &&& stored(EventView::<S>::Disconnect { id }, later)
                == (StoreRequestView::SetLastSeen { identity: id, last_seen: Some(later) })
        }),
{
    assert(sessions.remove(id).remove(id) =~= sessions.remove(id));
}

/// Routing never changes who is connected, and the request that goes to the
/// store is the same whether or not anything was pushed.
pub proof fn lemma_routing_keeps_sessions<S>(
    sessions: Map<Seq<char>, S>,
    event: EventView<S>,
    now: u64,
    then: u64,
)
    requires
        event is Message || event is Read,
    ensures
        sessions_after(sessions, event) == sessions,
        stored(event, now) == stored(event, then),
        event is Message ==> stored(event, now) is InsertMessage && !stored(
            event,
            now,
        )->InsertMessage_read,
        event is Read ==> stored(event, now) is MarkRead,
{
}

/// Once an identity has disconnected, a message or a read receipt addressed
/// to it is pushed to nobody, while the request to the store is unchanged.
pub proof fn lemma_nothing_pushed_after_disconnect<S>(
    sessions: Map<Seq<char>, S>,
    id: Seq<char>,
    message: WsMessageView,
    reader: Seq<char>,
    now: u64,
)
    requires
        message.recv == id,
    ensures
        ({
            let after = sessions_after(sessions, EventView::<S>::Disconnect { id });
            &&& pushed(after, EventView::<S>::Message(message)) is None
            &&& pushed(after, EventView::<S>::Read { reader, writer: id }) is None
            &&& stored(EventView::<S>::Message(message), now) == (StoreRequestView::InsertMessage {
                sender: message.sender,
                recipient: id,
                body: message.msg,
                timestamp: message.time,
                read: false,
            })
        }),
{
}

/// Whether `event` binds or unbinds the identity `id`.
pub open spec fn touches<S>(event: EventView<S>, id: Seq<char>) -> bool {
    match event {
        EventView::Connect { id: who, .. } => who == id,
        EventView::Disconnect { id: who } => who == id,
        _ => false,
    }
}

/// The place of the last event of `events` that binds or unbinds `id`.
pub open spec fn last_touch<S>(events: Seq<EventView<S>>, id: Seq<char>) -> Option<int>
    decreases events.len(),
{
    if events.len() == 0 {
        None
    } else if touches(events.last(), id) {
        Some(events.len() - 1)
    } else {
        last_touch(events.drop_last(), id)
    }
}

/// Who is connected after any sequence of events. An identity is bound
/// exactly if the last event that touched it was a connect, and then to the
/// sink of that connect; an identity that no event touched is as it was.
/// Nothing that happened earlier, to this identity or to another, matters.
pub proof fn lemma_last_event_decides<S>(
    sessions: Map<Seq<char>, S>,
    events: Seq<EventView<S>>,
    id: Seq<char>,
)
    ensures
        ({
            let after = sessions_after_all(sessions, events);
            match last_touch(events, id) {
                None => after.contains_key(id) == sessions.contains_key(id) && after[id]
                    == sessions[id],
                Some(at) => {
                    &&& 0 <= at < events.len()
                    &&& touches(events[at], id)
                    &&& events[at] is Connect ==> after.contains_key(id) && after[id]
                        == events[at]->Connect_sink
                    &&& events[at] is Disconnect ==> !after.contains_key(id)
                },
            }
        }),
    decreases events.len(),
{
    if events.len() > 0 {
        lemma_last_event_decides(sessions, events.drop_last(), id);
        if !touches(events.last(), id) {
            match last_touch(events.drop_last(), id) {
                Some(at) => {
                    assert(events[at] == events.drop_last()[at]);
                },
                None => {},
            }
        }
    }
}

} // verus!
