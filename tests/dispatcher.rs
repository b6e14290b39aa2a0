use bus_runtime::dispatch::{Action, DeliveryMode, Dispatcher, Event, Phase};
use bus_runtime::handler::{handler, random_word, sample_word, SAMPLE_WORDS, STATUS_OK};

fn dispatcher(mode: DeliveryMode, ack_on_handler_error: bool) -> Dispatcher {
    Dispatcher::new(mode, ack_on_handler_error, "proj".to_string(), "fn".to_string(), "v1".to_string())
}

fn received(subject: &str) -> Event {
    Event::Received { subject: subject.to_string() }
}

#[test]
fn simple_mode_publishes_one_response() {
    let mut d = dispatcher(DeliveryMode::Simple, false);
    assert_eq!(d.exec_subject(), "proj.fn.exec.v1.*");
    assert_eq!(d.step(received("proj.fn.exec.v1.req-42")), Action::Invoke { request_id: "req-42".to_string() });
    let body = b"req-42".to_vec();
    let mut published = 0;
    let a = d.step(Event::HandlerReturned { body: Some(body.clone()) });
    if let Action::Publish { subject, body: b } = &a {
        assert_eq!(subject, "proj.fn.res.v1.req-42");
        assert_eq!(b, &body);
        published += 1;
    }
    assert_eq!(d.step(Event::Published { ok: true }), Action::Next);
    assert_eq!(published, 1);
    assert_eq!(d.phase, Phase::Receiving);
}

#[test]
fn simple_mode_drops_message_without_request_id() {
    let mut d = dispatcher(DeliveryMode::Simple, false);
    assert_eq!(d.step(received("proj.fn.exec.v1.")), Action::Next);
    assert_eq!(d.phase, Phase::Receiving);
}

#[test]
fn simple_mode_handler_error_continues() {
    let mut d = dispatcher(DeliveryMode::Simple, true);
    d.step(received("proj.fn.exec.v1.r1"));
    assert_eq!(d.step(Event::HandlerReturned { body: None }), Action::Next);
    assert_eq!(d.phase, Phase::Receiving);
}

#[test]
fn publish_failure_stops_the_loop() {
    let mut d = dispatcher(DeliveryMode::Durable, false);
    d.step(received("proj.fn.exec.v1.r1"));
    d.step(Event::HandlerReturned { body: Some(vec![1]) });
    assert_eq!(d.step(Event::Published { ok: false }), Action::Fail);
    assert_eq!(d.phase, Phase::Stopped);
}

#[test]
fn durable_mode_acks_after_publish() {
    let mut d = dispatcher(DeliveryMode::Durable, false);
    assert_eq!(d.step(received("proj.fn.exec.v1.first")), Action::Invoke { request_id: "first".to_string() });
    let a = d.step(Event::HandlerReturned { body: Some(b"one".to_vec()) });
    assert_eq!(a, Action::Publish { subject: "proj.fn.res.v1.first".to_string(), body: b"one".to_vec() });
    assert_eq!(d.phase, Phase::Publishing);
    assert_eq!(d.step(Event::Published { ok: true }), Action::Ack);
    assert_eq!(d.step(Event::Acked { ok: true }), Action::Next);
}

#[test]
fn durable_mode_crash_before_ack_leaves_message_unacked() {
    // A crash after the first message is handled: the actions so far hold no
    // acknowledgment, so the server redelivers it to a new dispatcher.
    let mut d = dispatcher(DeliveryMode::Durable, false);
    let mut actions = vec![d.step(received("proj.fn.exec.v1.first"))];
    actions.push(d.step(Event::HandlerReturned { body: Some(b"one".to_vec()) }));
    assert!(!actions.contains(&Action::Ack));
    let mut restarted = dispatcher(DeliveryMode::Durable, false);
    assert_eq!(restarted.step(received("proj.fn.exec.v1.first")), Action::Invoke { request_id: "first".to_string() });
    restarted.step(Event::HandlerReturned { body: Some(b"one".to_vec()) });
    assert_eq!(restarted.step(Event::Published { ok: true }), Action::Ack);
    assert_eq!(restarted.step(Event::Acked { ok: true }), Action::Next);
    assert_eq!(restarted.step(received("proj.fn.exec.v1.second")), Action::Invoke { request_id: "second".to_string() });
}

#[test]
fn durable_mode_acks_message_without_request_id() {
    let mut d = dispatcher(DeliveryMode::Durable, false);
    assert_eq!(d.step(received("proj.fn.exec.v1.")), Action::Ack);
    assert_eq!(d.step(Event::Acked { ok: true }), Action::Next);
}

#[test]
fn durable_mode_handler_error_policy() {
    let mut acking = dispatcher(DeliveryMode::Durable, true);
    acking.step(received("proj.fn.exec.v1.r1"));
    assert_eq!(acking.step(Event::HandlerReturned { body: None }), Action::Ack);
    let mut leaving = dispatcher(DeliveryMode::Durable, false);
    leaving.step(received("proj.fn.exec.v1.r1"));
    assert_eq!(leaving.step(Event::HandlerReturned { body: None }), Action::Next);
}

#[test]
fn ack_failure_and_out_of_turn_events_fail() {
    let mut d = dispatcher(DeliveryMode::Durable, false);
    d.step(received("proj.fn.exec.v1."));
    assert_eq!(d.step(Event::Acked { ok: false }), Action::Fail);
    let mut e = dispatcher(DeliveryMode::Simple, false);
    assert_eq!(e.step(Event::Published { ok: true }), Action::Fail);
    assert_eq!(e.phase, Phase::Stopped);
}

#[test]
fn closed_source_finishes() {
    let mut d = dispatcher(DeliveryMode::Simple, false);
    assert_eq!(d.step(Event::Closed), Action::Finish);
    assert_eq!(d.phase, Phase::Stopped);
}

#[test]
fn handler_answers_with_token() {
    let (status, body) = handler(Some("req-42"), &b"hello".to_vec());
    assert_eq!(status, STATUS_OK);
    assert_eq!(body.len(), 36);
    for (i, b) in body.iter().enumerate() {
        if i == 8 || i == 13 || i == 18 || i == 23 {
            assert_eq!(*b, b'-');
        } else {
            assert!(b.is_ascii_digit() || (b'a'..=b'f').contains(b));
        }
    }
    assert_ne!(body, b"hello".to_vec());
    assert_eq!(body[14], b'4');
    assert!([b'8', b'9', b'a', b'b'].contains(&body[19]));
    let (_, other) = handler(None, &Vec::new());
    assert_ne!(body, other);
}

#[test]
fn random_word_is_a_sample_word() {
    let w = random_word();
    assert!(["apple", "banana", "cherry", "date", "elderberry"].contains(&w.as_str()));
}

#[test]
fn simple_mode_answers_each_message_in_order() {
    let mut d = dispatcher(DeliveryMode::Simple, false);
    let mut published = Vec::new();
    for id in ["r1", "r2", "r3"] {
        let subject = format!("proj.fn.exec.v1.{id}");
        assert_eq!(d.step(received(&subject)), Action::Invoke { request_id: id.to_string() });
        if let Action::Publish { subject, body } = d.step(Event::HandlerReturned { body: Some(id.as_bytes().to_vec()) }) {
            published.push((subject, body));
        }
        assert_eq!(d.step(Event::Published { ok: true }), Action::Next);
    }
    assert_eq!(
        published,
        vec![
            ("proj.fn.res.v1.r1".to_string(), b"r1".to_vec()),
            ("proj.fn.res.v1.r2".to_string(), b"r2".to_vec()),
            ("proj.fn.res.v1.r3".to_string(), b"r3".to_vec()),
        ]
    );
}

#[test]
fn sample_words_in_order() {
    let words: Vec<String> = (0..SAMPLE_WORDS).map(sample_word).collect();
    assert_eq!(words, vec!["apple", "banana", "cherry", "date", "elderberry"]);
}

#[test]
fn message_taken_mid_handling_stops() {
    let mut d = dispatcher(DeliveryMode::Simple, false);
    d.step(received("proj.fn.exec.v1.r1"));
    assert_eq!(d.step(received("proj.fn.exec.v1.r2")), Action::Fail);
}
