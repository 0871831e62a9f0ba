//! The messages agents send each other: tasks, queries, responses and events.

use vstd::prelude::*;
use crate::json::Json;
use crate::text::{decimal, push_decimal_u128};
use crate::time::unix_time_nanos;

verus! {

pub type MessageId = String;

/// A task handed to an agent.
#[derive(Debug)]
pub struct TaskPayload {
    pub task_id: String,
    pub description: String,
    pub parameters: Json,
}

/// A question put to an agent.
#[derive(Debug)]
pub struct QueryPayload {
    pub query: String,
    pub context: Json,
}

/// The answer to a task or query.
#[derive(Debug)]
pub struct ResponsePayload {
    pub request_id: String,
    pub result: Json,
    pub success: bool,
    pub error: Option<String>,
}

/// Something that happened, for every agent.
#[derive(Debug)]
pub struct EventPayload {
    pub event_type: String,
    pub data: Json,
}

/// A message between agents.
#[derive(Debug)]
pub enum Message {
    Task { id: MessageId, from: String, to: String, payload: TaskPayload },
    Query { id: MessageId, from: String, to: String, payload: QueryPayload },
    Response { id: MessageId, to: String, payload: ResponsePayload },
    Event { id: MessageId, from: String, payload: EventPayload },
}

/// A message id: `msg_` and a decimal timestamp.
pub open spec fn is_message_id(id: Seq<char>) -> bool {
    exists|n: nat| id == "msg_"@ + #[trigger] decimal(n)
}

/// The id for a message created `nanos` nanoseconds after the epoch.
pub fn message_id(nanos: u128) -> (id: String)
    ensures
        id@ == "msg_"@ + decimal(nanos as nat),
{
    let mut id = String::from_str("msg_");
    push_decimal_u128(&mut id, nanos);
    id
}

/// A fresh message id from the system clock (0 when the clock reads
/// before the epoch).
fn generate_id() -> (id: String)
    ensures
        is_message_id(id@),
{
    let nanos = match unix_time_nanos() {
        Some(n) => n,
        None => 0,
    };
    let id = message_id(nanos);
    proof {
        assert(id@ == "msg_"@ + decimal(nanos as nat));
    }
    id
}

impl Message {
    pub open spec fn spec_id(&self) -> Seq<char> {
        match self {
            Message::Task { id, .. } => id@,
            Message::Query { id, .. } => id@,
            Message::Response { id, .. } => id@,
            Message::Event { id, .. } => id@,
        }
    }

    /// Events are for everyone; other messages for their recipient.
    pub open spec fn spec_is_for(&self, agent_id: Seq<char>) -> bool {
        match self {
            Message::Task { to, .. } => to@ == agent_id,
            Message::Query { to, .. } => to@ == agent_id,
            Message::Response { to, .. } => to@ == agent_id,
            Message::Event { .. } => true,
        }
    }

    pub fn task(from: &str, to: &str, payload: TaskPayload) -> (m: Self)
        ensures
            m matches Message::Task { id, from: f, to: t, payload: p }
                && is_message_id(id@) && f@ == from@ && t@ == to@ && p == payload,
    {
        Message::Task { id: generate_id(), from: String::from_str(from), to: String::from_str(to), payload }
    }

    pub fn query(from: &str, to: &str, payload: QueryPayload) -> (m: Self)
        ensures
            m matches Message::Query { id, from: f, to: t, payload: p }
                && is_message_id(id@) && f@ == from@ && t@ == to@ && p == payload,
    {
        Message::Query { id: generate_id(), from: String::from_str(from), to: String::from_str(to), payload }
    }

    pub fn response(to: &str, payload: ResponsePayload) -> (m: Self)
        ensures
            m matches Message::Response { id, to: t, payload: p } && is_message_id(id@) && t@ == to@ && p == payload,
    {
        Message::Response { id: generate_id(), to: String::from_str(to), payload }
    }

    pub fn event(from: &str, payload: EventPayload) -> (m: Self)
        ensures
            m matches Message::Event { id, from: f, payload: p } && is_message_id(id@) && f@ == from@ && p == payload,
    {
        Message::Event { id: generate_id(), from: String::from_str(from), payload }
    }

    pub fn id(&self) -> (s: &str)
        ensures
            s@ == self.spec_id(),
    {
        match self {
            Message::Task { id, .. } => id.as_str(),
            Message::Query { id, .. } => id.as_str(),
            Message::Response { id, .. } => id.as_str(),
            Message::Event { id, .. } => id.as_str(),
        }
    }

    pub fn is_for(&self, agent_id: &str) -> (b: bool)
        ensures
            b == self.spec_is_for(agent_id@),
    {
        match self {
            Message::Task { to, .. } => crate::text::str_eq_string(to, agent_id),
            Message::Query { to, .. } => crate::text::str_eq_string(to, agent_id),
            Message::Response { to, .. } => crate::text::str_eq_string(to, agent_id),
            Message::Event { .. } => true,
        }
    }
}

} // verus!
