use burn_gradient_demo_app::message_buffer::{get_message_buffer, MessageBuffer, MESSAGE_BUFFER_CAPACITY};

#[test]
fn new_buffer_is_empty() {
    let b = MessageBuffer::new();
    assert_eq!(b.len(), 0);
}

#[test]
fn poll_of_empty_buffer_answers_empty_string() {
    let mut b = MessageBuffer::new();
    assert_eq!(b.poll(), "");
    assert_eq!(b.len(), 0);
    assert!(b.pop().is_none());
}

#[test]
fn poll_returns_what_was_sent() {
    let mut b = MessageBuffer::new();
    b.push("hello".to_string());
    assert_eq!(b.len(), 1);
    assert_eq!(b.poll(), "hello");
    assert_eq!(b.len(), 0);
}

#[test]
fn messages_come_out_in_arrival_order() {
    let mut b = MessageBuffer::new();
    b.push("first".to_string());
    b.push("second".to_string());
    b.push("third".to_string());
    assert_eq!(b.poll(), "first");
    b.push("fourth".to_string());
    assert_eq!(b.poll(), "second");
    assert_eq!(b.poll(), "third");
    assert_eq!(b.poll(), "fourth");
    assert_eq!(b.poll(), "");
}

#[test]
fn full_buffer_drops_oldest_message() {
    let mut b = MessageBuffer::new();
    for i in 0..MESSAGE_BUFFER_CAPACITY {
        b.push(format!("m{}", i));
    }
    assert_eq!(b.len(), 1000);
    b.push("newest".to_string());
    assert_eq!(b.len(), 1000);
    assert_eq!(b.poll(), "m1");
    let mut last = String::new();
    while b.len() > 0 {
        last = b.poll();
    }
    assert_eq!(last, "newest");
}

#[test]
fn many_sends_keep_the_latest_thousand() {
    let mut b = MessageBuffer::new();
    for i in 0..2500 {
        b.push(format!("{}", i));
    }
    assert_eq!(b.len(), 1000);
    for i in 1500..2500 {
        assert_eq!(b.poll(), format!("{}", i));
    }
    assert_eq!(b.len(), 0);
}

#[test]
fn slot_is_filled_on_first_use_and_kept() {
    let mut slot: Option<MessageBuffer> = None;
    {
        let b = get_message_buffer(&mut slot);
        assert_eq!(b.len(), 0);
        b.push("kept".to_string());
    }
    assert!(slot.is_some());
    let b = get_message_buffer(&mut slot);
    assert_eq!(b.len(), 1);
    assert_eq!(b.poll(), "kept");
}

#[test]
fn sent_messages_are_polled_once_each_in_order() {
    let mut b = MessageBuffer::new();
    let msgs: Vec<String> = (0..MESSAGE_BUFFER_CAPACITY).map(|i| format!("msg {}", i)).collect();
    for m in &msgs {
        b.push(m.clone());
    }
    for m in &msgs {
        assert_eq!(&b.poll(), m);
    }
    assert_eq!(b.poll(), "");
}
