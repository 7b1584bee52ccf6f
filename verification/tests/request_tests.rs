use burn_gradient_demo_app::message_buffer::MessageBuffer;
use burn_gradient_demo_app::requests::{
    agent_status_request, echo, echo_input, process_agent_request, send_message_request,
    AgentMessage, HttpError, JsonField,
};

fn text(s: &str) -> JsonField {
    JsonField::Text(s.to_string())
}

#[test]
fn process_without_string_data_is_bad_request() {
    assert_eq!(
        process_agent_request(1, &JsonField::Missing, true).err(),
        Some(HttpError::BadRequest)
    );
    assert_eq!(
        process_agent_request(1, &JsonField::Other, true).err(),
        Some(HttpError::BadRequest)
    );
    // The payload is checked before the agent is looked up.
    assert_eq!(
        process_agent_request(9, &JsonField::Missing, false).err(),
        Some(HttpError::BadRequest)
    );
}

#[test]
fn process_for_missing_agent_is_not_found() {
    assert_eq!(
        process_agent_request(6, &text("x"), false).err(),
        Some(HttpError::NotFound)
    );
}

#[test]
fn process_queues_data_for_agent() {
    let reply = process_agent_request(3, &text("hello"), true).unwrap();
    assert_eq!(reply.message, "Message queued for Agent3: hello");
    match reply.command {
        AgentMessage::ProcessData { data } => assert_eq!(data, "hello"),
        AgentMessage::GetStatus => panic!("expected ProcessData"),
    }
}

#[test]
fn process_message_names_large_agent_ids() {
    let reply = process_agent_request(255, &text(""), true).unwrap();
    assert_eq!(reply.message, "Message queued for Agent255: ");
    let reply = process_agent_request(0, &text("a: b"), true).unwrap();
    assert_eq!(reply.message, "Message queued for Agent0: a: b");
}

#[test]
fn status_request_for_existing_agent() {
    let reply = agent_status_request(12, true).unwrap();
    assert_eq!(reply.message, "Status request sent to Agent12");
    assert!(matches!(reply.command, AgentMessage::GetStatus));
}

#[test]
fn status_request_for_missing_agent_is_not_found() {
    assert_eq!(agent_status_request(4, false).err(), Some(HttpError::NotFound));
}

#[test]
fn status_codes() {
    assert_eq!(HttpError::BadRequest.status_code(), 400);
    assert_eq!(HttpError::NotFound.status_code(), 404);
}

#[test]
fn echo_prefers_input_field() {
    assert_eq!(echo_input(&text("in"), &text("data")), "in");
}

#[test]
fn echo_falls_back_to_data_only_when_input_is_absent() {
    assert_eq!(echo_input(&JsonField::Missing, &text("data")), "data");
    // An `input` that is present but not a string does not fall back.
    assert_eq!(echo_input(&JsonField::Other, &text("data")), "");
    assert_eq!(echo_input(&JsonField::Missing, &JsonField::Missing), "");
    assert_eq!(echo_input(&JsonField::Missing, &JsonField::Other), "");
}

#[test]
fn echo_forwards_to_available_agent() {
    let out = echo("ping".to_string(), true);
    assert_eq!(out.reply, "ping");
    match out.forward {
        Some(AgentMessage::ProcessData { data }) => assert_eq!(data, "ping"),
        _ => panic!("expected a forwarded message"),
    }
    let out = echo("ping".to_string(), false);
    assert_eq!(out.reply, "ping");
    assert!(out.forward.is_none());
}

#[test]
fn send_message_stores_string_messages() {
    let mut b = MessageBuffer::new();
    assert_eq!(send_message_request(&mut b, &text("hi")), Ok(()));
    assert_eq!(b.len(), 1);
    assert_eq!(
        send_message_request(&mut b, &JsonField::Other),
        Err(HttpError::BadRequest)
    );
    assert_eq!(
        send_message_request(&mut b, &JsonField::Missing),
        Err(HttpError::BadRequest)
    );
    assert_eq!(b.len(), 1);
    assert_eq!(b.poll(), "hi");
}
