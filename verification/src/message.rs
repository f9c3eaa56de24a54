//! The records that travel between connections and the registry.

use vstd::prelude::*;

verus! {

/// One chat record, as it is routed and as it appears on the wire.
///
/// `sender` and `recv` are identities. `time` counts milliseconds since the
/// Unix epoch. A record whose `read` flag is set is not a chat line but the
/// notice that `sender` has read what the other party wrote.
#[derive(Debug, PartialEq, Eq)]
pub struct WsMessage {
    pub msg: String,
    pub sender: String,
    pub time: u64,
    pub recv: String,
    pub read: bool,
}

/// What a [`WsMessage`] holds, as mathematical values.
pub struct WsMessageView {
    pub msg: Seq<char>,
    pub sender: Seq<char>,
    pub time: u64,
    pub recv: Seq<char>,
    pub read: bool,
}

impl View for WsMessage {
    type V = WsMessageView;

    open spec fn view(&self) -> WsMessageView {
        WsMessageView {
            msg: self.msg@,
            sender: self.sender@,
            time: self.time,
            recv: self.recv@,
            read: self.read,
        }
    }
}

impl DeepView for WsMessage {
    type V = WsMessageView;

    open spec fn deep_view(&self) -> WsMessageView {
        self@
    }
}

impl WsMessageView {
    /// The record with no text, no parties, time zero and the flag cleared.
    pub open spec fn blank() -> WsMessageView {
        WsMessageView {
            msg: Seq::<char>::empty(),
            sender: Seq::<char>::empty(),
            time: 0,
            recv: Seq::<char>::empty(),
            read: false,
        }
    }

    /// The notice that tells a writer that `reader` has read their messages:
    /// the flag is set, `sender` names the reader, everything else is blank.
    pub open spec fn read_notice(reader: Seq<char>) -> WsMessageView {
        WsMessageView { sender: reader, read: true, ..WsMessageView::blank() }
    }
}

impl Clone for WsMessage {
    fn clone(&self) -> (copy: Self)
        ensures
            copy == *self,
    {
        WsMessage {
            msg: self.msg.clone(),
            sender: self.sender.clone(),
            time: self.time,
            recv: self.recv.clone(),
            read: self.read,
        }
    }
}

impl Default for WsMessage {
    fn default() -> (blank: Self)
        ensures
            blank@ == WsMessageView::blank(),
    {
        WsMessage {
            msg: String::new(),
            sender: String::new(),
            time: 0,
            recv: String::new(),
            read: false,
        }
    }
}

impl WsMessage {
    /// Builds the notice that is pushed to a writer when `reader` has read
    /// their messages.
    pub fn read_notice(reader: String) -> (notice: Self)
        ensures
            notice@ == WsMessageView::read_notice(reader@),
    {
        WsMessage { msg: String::new(), sender: reader, time: 0, recv: String::new(), read: true }
    }
}

/// Request to bind `addr`, the sink of a live connection, to the identity `id`.
#[derive(Debug, PartialEq, Eq)]
pub struct Connect<S> {
    pub id: String,
    pub addr: S,
}

/// Request to drop whatever sink is bound to the identity `id`.
#[derive(Debug, PartialEq, Eq)]
pub struct Disconnect {
    pub id: String,
}

/// Read receipt: `reader` has now seen every earlier message of `writer`.
#[derive(Debug, PartialEq, Eq)]
pub struct ReadMessage {
    pub reader: String,
    pub writer: String,
}

} // verus!
