//! What the HTTP endpoints decide: which payload field they read, when they
//! refuse a request and with which status, what they forward to an agent and
//! what they answer.

use crate::message_buffer::{after_send, MessageBuffer};
use crate::text::{decimal, push_decimal, push_str, string_from};
use vstd::prelude::*;

verus! {

/// One field of a JSON payload, as far as the endpoints read it.
#[derive(Debug, Clone)]
pub enum JsonField {
    /// The payload has no such field (or is not an object).
    Missing,
    /// The field is there but is not a string.
    Other,
    /// The field is the string held here.
    Text(String),
}

impl JsonField {
    /// The field's string, if it is one.
    pub open spec fn text(self) -> Option<Seq<char>> {
        match self {
            JsonField::Text(s) => Some(s@),
            _ => None,
        }
    }
}

/// The statuses with which an endpoint refuses a request.
#[derive(Debug, Clone, Copy, PartialEq, Eq, Structural)]
pub enum HttpError {
    /// A required field is missing or not a string.
    BadRequest,
    /// The addressed agent does not exist.
    NotFound,
}

impl HttpError {
    /// The HTTP status code.
    pub fn status_code(&self) -> (res: u16)
        ensures
            *self == HttpError::BadRequest ==> res == 400,
            *self == HttpError::NotFound ==> res == 404,
    {
        match self {
            HttpError::BadRequest => 400,
            HttpError::NotFound => 404,
        }
    }
}

/// The messages the agents accept.
#[derive(Debug, Clone)]
pub enum AgentMessage {
    /// Process the given data.
    ProcessData { data: String },
    /// Report status.
    GetStatus,
}

/// What an agent endpoint sends to the agent and answers the client.
#[derive(Debug, Clone)]
pub struct AgentReply {
    /// The message for the agent.
    pub command: AgentMessage,
    /// The answer's `message` text; its `status` is `"success"`.
    pub message: String,
}

/// The agent that echo requests are forwarded to.
pub const ECHO_AGENT_ID: u8 = 1;

/// Answer text when data was queued for agent `id`.
pub open spec fn queued_text(id: u8, data: Seq<char>) -> Seq<char> {
    "Message queued for Agent"@ + decimal(id as nat) + ": "@ + data
}

/// Answer text when a status request was sent to agent `id`.
pub open spec fn status_text(id: u8) -> Seq<char> {
    "Status request sent to Agent"@ + decimal(id as nat)
}

/// The reply that queues `data` for agent `id`.
pub open spec fn queued_reply(r: AgentReply, id: u8, data: Seq<char>) -> bool {
    &&& forwards_data(Some(r.command), data)
    &&& r.message@ == queued_text(id, data)
}

/// `m` is a message that hands `data` to an agent for processing.
pub open spec fn forwards_data(m: Option<AgentMessage>, data: Seq<char>) -> bool {
    match m {
        Some(AgentMessage::ProcessData { data: d }) => d@ == data,
        _ => false,
    }
}

/// Handles a process request for agent `id` whose payload has `data` as its
/// `data` field and where `agent_available` tells whether the agent exists: a
/// payload without string data is a bad request, a missing agent is not
/// found, and otherwise the data goes to the agent.
pub fn process_agent_request(id: u8, data: &JsonField, agent_available: bool) -> (res: Result<
    AgentReply,
    HttpError,
>)
    ensures
        data.text() is None ==> res == Err::<AgentReply, HttpError>(HttpError::BadRequest),
        data.text() is Some && !agent_available ==> res == Err::<AgentReply, HttpError>(
            HttpError::NotFound,
        ),
        data.text() is Some && agent_available ==> (res matches Ok(r) && queued_reply(
            r,
            id,
            data.text()->0,
        )),
{
    match data {
        JsonField::Text(d) => {
            if !agent_available {
                return Err(HttpError::NotFound);
            }
            let mut msg: Vec<char> = Vec::new();
            push_str(&mut msg, "Message queued for Agent");
            push_decimal(&mut msg, id as u64);
            push_str(&mut msg, ": ");
            push_str(&mut msg, d.as_str());
            let message = string_from(msg.as_slice());
            Ok(AgentReply { command: AgentMessage::ProcessData { data: d.clone() }, message })
        },
        _ => Err(HttpError::BadRequest),
    }
}

/// Handles a status request for agent `id`: a missing agent is not found,
/// and otherwise the agent is asked for its status.
pub fn agent_status_request(id: u8, agent_available: bool) -> (res: Result<AgentReply, HttpError>)
    ensures
        !agent_available ==> res == Err::<AgentReply, HttpError>(HttpError::NotFound),
        agent_available ==> (res matches Ok(r) && r.command is GetStatus && r.message@
            == status_text(id)),
{
    if !agent_available {
        return Err(HttpError::NotFound);
    }
    let mut msg: Vec<char> = Vec::new();
    push_str(&mut msg, "Status request sent to Agent");
    push_decimal(&mut msg, id as u64);
    Ok(AgentReply { command: AgentMessage::GetStatus, message: string_from(msg.as_slice()) })
}

/// The text an echo request carries: its `input` field, or when the payload
/// has no `input` field its `data` field, and the empty string when the chosen
/// field is not a string.
pub open spec fn echo_text(input: JsonField, data: JsonField) -> Seq<char> {
    let chosen = match input {
        JsonField::Missing => data,
        _ => input,
    };
    match chosen.text() {
        Some(t) => t,
        None => Seq::empty(),
    }
}

/// An echo carries its `input` field when that is a string, whatever the
/// `data` field holds; it carries nothing when `input` is there but not a
/// string; only when `input` is missing does it carry the `data` string.
pub proof fn law_echo_prefers_input(input: JsonField, data: JsonField)
    ensures
        input.text() matches Some(t) ==> echo_text(input, data) == t,
        input is Other ==> echo_text(input, data) == Seq::<char>::empty(),
        input is Missing ==> echo_text(input, data) == match data.text() {
            Some(t) => t,
            None => Seq::<char>::empty(),
        },
{
}

/// The text an echo request carries, read from its `input` and `data` fields.
pub fn echo_input(input: &JsonField, data: &JsonField) -> (res: String)
    ensures
        res@ == echo_text(*input, *data),
        input.text() matches Some(t) ==> res@ == t,
        *input is Other ==> res@ == Seq::<char>::empty(),
        *input is Missing ==> res@ == match data.text() {
            Some(t) => t,
            None => Seq::<char>::empty(),
        },
{
    let chosen = match input {
        JsonField::Missing => data,
        _ => input,
    };
    match chosen {
        JsonField::Text(t) => t.clone(),
        _ => String::new(),
    }
}

/// What an echo does: the message forwarded to the echo agent, when it exists,
/// and the text answered.
#[derive(Debug, Clone)]
pub struct EchoOutcome {
    pub forward: Option<AgentMessage>,
    pub reply: String,
}

/// Echoes `input`: it is answered unchanged, and forwarded to the echo agent
/// for processing when that agent exists.
pub fn echo(input: String, agent_available: bool) -> (res: EchoOutcome)
    ensures
        res.reply@ == input@,
        agent_available ==> forwards_data(res.forward, input@),
        !agent_available ==> res.forward is None,
{
    let forward = if agent_available {
        Some(AgentMessage::ProcessData { data: input.clone() })
    } else {
        None
    };
    EchoOutcome { forward, reply: input }
}

/// Handles a send-message request whose payload has `message` as its
/// `message` field: a string is stored in `buffer`, anything else is a bad
/// request that leaves the buffer unchanged.
pub fn send_message_request(buffer: &mut MessageBuffer, message: &JsonField) -> (res: Result<
    (),
    HttpError,
>)
    ensures
        message.text() is Some ==> res is Ok && final(buffer)@ == after_send(
            old(buffer)@,
            message.text()->0,
        ),
        message.text() is None ==> res == Err::<(), HttpError>(HttpError::BadRequest)
            && final(buffer)@ == old(buffer)@,
{
    match message {
        JsonField::Text(m) => {
            buffer.push(m.clone());
            Ok(())
        },
        _ => Err(HttpError::BadRequest),
    }
}

} // verus!
