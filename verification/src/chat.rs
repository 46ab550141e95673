//! Chat conversation data: roles, messages and response choices.

use vstd::prelude::*;

verus! {

/// Who a chat message speaks for.
#[derive(Debug, Clone, Copy, PartialEq, Eq, Structural, Hash)]
pub enum Role {
    User,
    System,
    Assistant,
}

impl Default for Role {
    fn default() -> (r: Role)
        ensures
            r == Role::User,
    {
        Role::User
    }
}

/// One chat message: a role and its text.
#[derive(Debug, Clone)]
pub struct Message {
    pub role: Role,
    pub content: String,
}

impl Message {
    /// Creates a new message.
    pub fn new(role: Role, content: String) -> (r: Message)
        ensures
            r.role == role,
            r.content == content,
    {
        Message { role, content }
    }

    /// Creates a new message with the user role.
    pub fn user(content: String) -> (r: Message)
        ensures
            r.role == Role::User,
            r.content == content,
    {
        Message::new(Role::User, content)
    }

    /// Creates a new message with the system role.
    pub fn system(content: String) -> (r: Message)
        ensures
            r.role == Role::System,
            r.content == content,
    {
        Message::new(Role::System, content)
    }

    /// Creates a new message with the assistant role.
    pub fn assistant(content: String) -> (r: Message)
        ensures
            r.role == Role::Assistant,
            r.content == content,
    {
        Message::new(Role::Assistant, content)
    }
}

/// One choice of a chat completion response.
#[derive(Debug, Clone)]
pub struct ChatChoice {
    pub message: Message,
    pub index: u64,
    pub finish_reason: Option<String>,
}

} // verus!
