//! The shapes of the messaging service's data, as far as the host looks at them.

use vstd::prelude::*;

verus! {

/// The answer to a request for updates.
#[derive(Debug, PartialEq, Eq)]
pub struct UpdateResponse {
    pub ok: bool,
    pub result: Vec<Update>,
}

/// One update. Its id grows from update to update.
#[derive(Debug, PartialEq, Eq)]
pub struct Update {
    pub update_id: u32,
    pub message: Option<Message>,
}

#[derive(Debug, PartialEq, Eq)]
pub struct Message {
    pub text: Option<String>,
    pub chat: Chat,
    pub from: Option<User>,
}

#[derive(Debug, Clone, Copy, PartialEq, Eq, Structural)]
pub struct Chat {
    pub id: i64,
}

#[derive(Debug, PartialEq, Eq)]
pub struct User {
    pub id: i64,
    pub first_name: String,
    pub last_name: Option<String>,
}

/// A message on its way out: where it goes and what it says.
#[derive(Debug, PartialEq, Eq)]
pub struct SendMessage {
    pub chat_id: i64,
    pub text: String,
}

} // verus!
