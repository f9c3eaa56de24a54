//! Contacts: who may be added, what a search looks for, and when a removal
//! counts as done.

use vstd::prelude::*;
use vstd::string::*;

verus! {

/// Why a request about a contact is refused.
#[derive(Clone, Copy, Debug, PartialEq, Eq, Structural)]
pub enum ContactError {
    /// Somebody tried to add themselves.
    Myself,
    /// The store removed nothing.
    NotRemoved,
}

impl ContactError {
    /// The text that the requester is shown.
    pub fn message(&self) -> (text: &'static str)
        ensures
            text@ == (match *self {
                ContactError::Myself => "You can't be a contact of yourself"@,
                ContactError::NotRemoved => "It wasn't removed"@,
            }),
    {
        match self {
            ContactError::Myself => "You can't be a contact of yourself",
            ContactError::NotRemoved => "It wasn't removed",
        }
    }
}

/// Whether `user_id` may add `username` to their contacts: anybody but
/// themselves.
pub fn add_contact(user_id: &str, username: &str) -> (outcome: Result<(), ContactError>)
    ensures
        outcome == (if user_id@ == username@ {
            Err::<(), ContactError>(ContactError::Myself)
        } else {
            Ok::<(), ContactError>(())
        }),
{
    if user_id.to_owned() == username.to_owned() {
        Err(ContactError::Myself)
    } else {
        Ok(())
    }
}

/// Whether a removal took place, from the number of rows that the store
/// deleted: it did unless there was none.
pub fn delete_contact(rows: usize) -> (outcome: Result<(), ContactError>)
    ensures
        outcome == (if rows == 0 {
            Err::<(), ContactError>(ContactError::NotRemoved)
        } else {
            Ok::<(), ContactError>(())
        }),
{
    if rows == 0 {
        Err(ContactError::NotRemoved)
    } else {
        Ok(())
    }
}

/// What a search for contacts looks for, where nothing is given: the empty
/// text, which every name holds.
pub open spec fn searched(search: Option<String>) -> Seq<char> {
    match search {
        Some(text) => text@,
        None => Seq::<char>::empty(),
    }
}

/// The pattern by which the store matches contact names against a search:
/// the text that was searched for, anywhere in the name.
pub fn search_pattern(search: Option<String>) -> (pattern: String)
    ensures
        pattern@ == "%"@ + searched(search) + "%"@,
{
    let mut pattern = String::from_str("%");
    match search {
        Some(text) => {
            pattern.append(text.as_str());
        },
        None => {
            assert(pattern@ + Seq::<char>::empty() =~= pattern@);
        },
    }
    pattern.append("%");
    pattern
}

} // verus!
