//! What the registry asks of the durable store.
//!
//! The registry never waits for the store and never hears back from it: each
//! event yields one request, and carrying it out is left to whoever runs the
//! registry.

use vstd::prelude::*;

verus! {

/// One request to the durable store.
#[derive(Debug, PartialEq, Eq)]
pub enum StoreRequest {
    /// Keep a chat line. `read` is the flag under which it is kept.
    InsertMessage { sender: String, recipient: String, body: String, timestamp: u64, read: bool },
    /// Flag as read every line that `writer` sent to `reader`.
    MarkRead { reader: String, writer: String },
    /// Record when `identity` was last seen: a time in milliseconds since the
    /// Unix epoch, or nothing while the identity is connected.
    SetLastSeen { identity: String, last_seen: Option<u64> },
}

/// What a [`StoreRequest`] holds, as mathematical values.
pub enum StoreRequestView {
    InsertMessage {
        sender: Seq<char>,
        recipient: Seq<char>,
        body: Seq<char>,
        timestamp: u64,
        read: bool,
    },
    MarkRead { reader: Seq<char>, writer: Seq<char> },
    SetLastSeen { identity: Seq<char>, last_seen: Option<u64> },
}

impl View for StoreRequest {
    type V = StoreRequestView;

    open spec fn view(&self) -> StoreRequestView {
        match *self {
            StoreRequest::InsertMessage { sender, recipient, body, timestamp, read } => {
                StoreRequestView::InsertMessage {
                    sender: sender@,
                    recipient: recipient@,
                    body: body@,
                    timestamp,
                    read,
                }
            },
            StoreRequest::MarkRead { reader, writer } => StoreRequestView::MarkRead {
                reader: reader@,
                writer: writer@,
            },
            StoreRequest::SetLastSeen { identity, last_seen } => StoreRequestView::SetLastSeen {
                identity: identity@,
                last_seen,
            },
        }
    }
}

} // verus!
