use vstd::prelude::*;
use vstd::string::*;

verus! {

/// A stored account: the username and its password hash.
#[derive(Debug)]
pub struct User {
    pub username: String,
    pub password_hash: String,
}

/// A conversation between two users.
#[derive(Debug, Clone, Copy, PartialEq, Eq, Structural)]
pub struct Chat {
    pub first_user: i32,
    pub second_user: i32,
}

/// A message record: the conversation, the sender and the text.
#[derive(Debug)]
pub struct RMessage {
    pub chat_id: i32,
    pub user_id: i32,
    pub message: String,
}

/// The body of a registration or login request.
#[derive(Debug)]
pub struct ReqUser {
    pub username: String,
    pub password: String,
}

/// The body of a request that opens a conversation.
#[derive(Debug, Clone, Copy, PartialEq, Eq, Structural)]
pub struct NewChat {
    pub first_user: i32,
    pub second_user: i32,
}

/// The body of a request that posts a message.
#[derive(Debug)]
pub struct NewMessage {
    pub chat_id: i32,
    pub user_id: i32,
    pub message: String,
}

/// The ways hashing or verifying a password can fail.
#[derive(Debug)]
pub enum PasswordError {
    HashingError(String),
    VerificationError(String),
}

impl PasswordError {
    /// The error as a sentence: its kind, then the underlying text.
    pub fn message(&self) -> (r: String)
        ensures
            r@ == match self {
                PasswordError::HashingError(t) => "Hashing error: "@ + t@,
                PasswordError::VerificationError(t) => "Verification error: "@ + t@,
            },
    {
        match self {
            PasswordError::HashingError(t) => {
                let mut r = "Hashing error: ".to_owned();
                r.append(t.as_str());
                r
            },
            PasswordError::VerificationError(t) => {
                let mut r = "Verification error: ".to_owned();
                r.append(t.as_str());
                r
            },
        }
    }
}

/// The conversation every relayed message belongs to.
pub const DEFAULT_CHAT_ID: i32 = 1;

impl RMessage {
    /// The record of `body`, sent by `user_id` in the default conversation.
    pub fn in_default_chat(user_id: i32, body: String) -> (r: RMessage)
        ensures
            r.chat_id == DEFAULT_CHAT_ID,
            r.user_id == user_id,
            r.message@ == body@,
    {
        RMessage { chat_id: DEFAULT_CHAT_ID, user_id, message: body }
    }
}

} // verus!
