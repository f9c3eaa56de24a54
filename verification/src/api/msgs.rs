//! Message history: which page of it a request asks for.

use vstd::prelude::*;

verus! {

/// How many messages a page holds where the request does not say.
pub const DEFAULT_MESSAGE_PAGE_SIZE: u32 = 10;

/// What a request for history may say about the page it wants.
#[derive(Clone, Copy, Debug, PartialEq, Eq, Structural)]
pub struct QueryMessage {
    pub size: Option<u32>,
    pub offset: Option<u32>,
}

/// A page of history: `size` messages, after skipping the `offset` newest.
#[derive(Clone, Copy, Debug, PartialEq, Eq, Structural)]
pub struct Page {
    pub size: u32,
    pub offset: u32,
}

/// The page that `query` asks for: of the default size where it names none,
/// from the newest message where it names no offset.
pub fn get_messages(query: QueryMessage) -> (page: Page)
    ensures
        page.size == (match query.size {
            Some(size) => size,
            None => DEFAULT_MESSAGE_PAGE_SIZE,
        }),
        page.offset == (match query.offset {
            Some(offset) => offset,
            None => 0,
        }),
{
    Page {
        size: match query.size {
            Some(size) => size,
            None => DEFAULT_MESSAGE_PAGE_SIZE,
        },
        offset: match query.offset {
            Some(offset) => offset,
            None => 0,
        },
    }
}

} // verus!
