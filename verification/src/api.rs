//! The rules of the request handlers that stand around the relay: contacts,
//! message history, profile images and groups.
//!
//! Each handler reads its request, asks the store and answers. What lies
//! between reading and answering, the part that decides, is collected here.

pub mod contacts;
pub mod groups;
pub mod msgs;
pub mod user;
