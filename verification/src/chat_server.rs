//! A line-based chat server: the registry of connected users, the texts it
//! sends, and the decisions of one connection's session.

use crate::text::{trim, trimmed};
use std::collections::HashMap;
use vstd::prelude::*;

verus! {

broadcast use vstd::std_specs::hash::group_hash_axioms;

/// The server's shared state: the name of the user behind each open
/// connection, keyed by connection number.
pub struct ServerState {
    pub clients: HashMap<u64, String>,
}

impl ServerState {
    /// A server with no users.
    pub fn new() -> (s: ServerState)
        ensures
            s.clients@ == Map::<u64, String>::empty(),
    {
        ServerState { clients: HashMap::new() }
    }

    /// Records that connection `id` belongs to `username`.
    pub fn join(&mut self, id: u64, username: String)
        ensures
            final(self).clients@ == old(self).clients@.insert(id, username),
    {
        self.clients.insert(id, username);
    }

    /// Forgets connection `id`.
    pub fn leave(&mut self, id: u64)
        ensures
            final(self).clients@ == old(self).clients@.remove(id),
    {
        self.clients.remove(&id);
    }
}

/// A user who joins on a fresh connection and then leaves is forgotten
/// without a trace: the registry is as it was.
pub proof fn lemma_leave_undoes_join(clients: Map<u64, String>, id: u64, username: String)
    requires
        !clients.contains_key(id),
    ensures
        clients.insert(id, username).remove(id) == clients,
{
    assert(clients.insert(id, username).remove(id) =~= clients);
}

/// The prompt sent to a new connection.
pub open spec fn username_prompt_text() -> Seq<char> {
    "Please enter your username: "@
}

/// The announcement that `username` joined.
pub open spec fn join_text(username: Seq<char>) -> Seq<char> {
    username + " has joined the chat.\n"@
}

/// The broadcast of a line that `username` wrote.
pub open spec fn chat_text(username: Seq<char>, line: Seq<char>) -> Seq<char> {
    username + ": "@ + line
}

/// The announcement that `username` left.
pub open spec fn leave_text(username: Seq<char>) -> Seq<char> {
    username + " has left the chat.\n"@
}

/// The prompt sent to a new connection.
pub fn username_prompt() -> (s: String)
    ensures
        s@ == username_prompt_text(),
{
    String::from_str("Please enter your username: ")
}

/// The user name in the reply to the prompt: the reply without surrounding
/// white space.
pub fn username_from_reply(reply: &str) -> (name: String)
    ensures
        name@ == trimmed(reply@),
{
    trim(reply)
}

/// The announcement that `username` joined.
pub fn join_message(username: &str) -> (s: String)
    ensures
        s@ == join_text(username@),
{
    let mut s = String::from_str(username);
    s.append(" has joined the chat.\n");
    s
}

/// The broadcast of `line` (as read, with its line ending) from `username`.
pub fn chat_message(username: &str, line: &str) -> (s: String)
    ensures
        s@ == chat_text(username@, line@),
{
    let mut s = String::from_str(username);
    s.append(": ");
    s.append(line);
    s
}

/// The announcement that `username` left.
pub fn leave_message(username: &str) -> (s: String)
    ensures
        s@ == leave_text(username@),
{
    let mut s = String::from_str(username);
    s.append(" has left the chat.\n");
    s
}

/// What a connection's session waits for.
pub enum SessionEvent {
    /// A message broadcast to every session.
    Broadcast(String),
    /// A line read from this connection, with its line ending.
    LineRead(String),
    /// The connection was closed by the peer.
    EndOfInput,
    /// Reading from the connection failed.
    ReadFailed,
    /// Writing to the connection failed.
    WriteFailed,
}

/// What a session does next.
pub enum SessionAction {
    /// Write this text to this connection.
    Write(String),
    /// Broadcast this text to every session.
    Broadcast(String),
    /// End the session.
    Close,
}

/// The step of the session of `username` on `event`: broadcasts are written
/// out, each line read is broadcast under the user's name, and the end of
/// input or any failure ends the session.
pub fn session_step(username: &str, event: SessionEvent) -> (action: SessionAction)
    ensures
        event matches SessionEvent::Broadcast(m) ==> (action matches SessionAction::Write(w)
            && w@ == m@),
        event matches SessionEvent::LineRead(l) ==> (action matches SessionAction::Broadcast(b)
            && b@ == chat_text(username@, l@)),
        (event is EndOfInput || event is ReadFailed || event is WriteFailed) ==> action is Close,
{
    match event {
        SessionEvent::Broadcast(m) => SessionAction::Write(m),
        SessionEvent::LineRead(l) => SessionAction::Broadcast(chat_message(username, l.as_str())),
        _ => SessionAction::Close,
    }
}

} // verus!
