//! A posted message: a unique identifier, a snapshot of its author, the
//! text, and the moment it was created (UTC milliseconds since the epoch).

use crate::user::{User, UserView};
use vstd::prelude::*;

verus! {

/// Mathematical value of a [`Message`].
#[verifier::ext_equal]
pub struct MessageView {
    pub id: u128,
    pub user: UserView,
    pub text: Seq<char>,
    pub created_at_utc: i64,
}

pub struct Message {
    pub id: u128,
    pub user: User,
    pub text: String,
    pub created_at_utc: i64,
}

impl View for Message {
    type V = MessageView;

    open spec fn view(&self) -> MessageView {
        MessageView {
            id: self.id,
            user: self.user@,
            text: self.text@,
            created_at_utc: self.created_at_utc,
        }
    }
}

impl Message {
    pub fn new(id: u128, user: User, text: &str, created_at_utc: i64) -> (message: Message)
        ensures
            message@ == (MessageView { id, user: user@, text: text@, created_at_utc }),
    {
        Message { id, user, text: text.to_owned(), created_at_utc }
    }

    /// A copy holding the same identifier, author, text and timestamp.
    pub fn duplicate(&self) -> (message: Message)
        ensures
            message@ == self@,
    {
        Message {
            id: self.id,
            user: self.user.duplicate(),
            text: self.text.clone(),
            created_at_utc: self.created_at_utc,
        }
    }
}

} // verus!
