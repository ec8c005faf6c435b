use signal_only_server::field::Number;
use signal_only_server::server::{Flow, Message, Publication, ServerState, TransportError};
use signal_only_server::SignalOnlyServer;

/// A connection that records what is published on it and fails on demand.
struct FakeConnection {
    published: Vec<(String, String)>,
    failure: Option<TransportError>,
}

impl FakeConnection {
    fn new() -> FakeConnection {
        FakeConnection { published: Vec::new(), failure: None }
    }

    fn failing(error: TransportError) -> FakeConnection {
        FakeConnection { published: Vec::new(), failure: Some(error) }
    }

    fn publish(&mut self, topic: String, payload: String) -> Result<(), TransportError> {
        self.published.push((topic, payload));
        match self.failure {
            Some(error) => Err(error),
            None => Ok(()),
        }
    }
}

fn number_of(value: f32) -> Number {
    let number = json::number::Number::from(value);
    if number.is_nan() {
        Number::NotANumber
    } else {
        let (positive, mantissa, exponent) = number.as_parts();
        Number::Finite { positive, mantissa, exponent }
    }
}

fn frame(topic: &str, payload: &[u8]) -> Option<Message> {
    Some(Message { topic: topic.to_string(), payload: payload.to_vec() })
}

#[test]
fn new_server_is_idle() {
    assert_eq!(SignalOnlyServer::new().state(), ServerState::Idle);
}

#[test]
fn emit_another_signal_publishes_once_on_its_topic() {
    let mut connection = FakeConnection::new();
    let server = SignalOnlyServer::new();
    let outcome = server.emit_another_signal(
        number_of(3.14),
        true,
        "apples".to_string(),
        |publication: Publication| connection.publish(publication.topic, publication.payload),
    );
    assert_eq!(outcome, Ok(()));
    assert_eq!(connection.published.len(), 1);
    let (topic, payload) = &connection.published[0];
    assert_eq!(topic, "SignalOnly/signal/anotherSignal");
    let decoded = json::parse(payload).unwrap();
    assert!(decoded.is_object());
    assert_eq!(decoded.len(), 3);
    assert_eq!(decoded["one"].as_f32(), Some(3.14));
    assert_eq!(decoded["two"].as_bool(), Some(true));
    assert_eq!(decoded["three"].as_str(), Some("apples"));
}

#[test]
fn emit_another_signal_gives_the_exact_payload_of_a_decimal() {
    let mut connection = FakeConnection::new();
    let server = SignalOnlyServer::new();
    let one = Number::Finite { positive: true, mantissa: 314, exponent: -2 };
    let outcome = server.emit_another_signal(one, true, "apples".to_string(), |publication: Publication| {
        connection.publish(publication.topic, publication.payload)
    });
    assert_eq!(outcome, Ok(()));
    assert_eq!(
        connection.published,
        vec![(
            "SignalOnly/signal/anotherSignal".to_string(),
            r#"{"one":3.14,"two":true,"three":"apples"}"#.to_string()
        )]
    );
}

#[test]
fn another_signal_is_what_emit_publishes() {
    let one = Number::Finite { positive: false, mantissa: 5, exponent: -1 };
    let prepared = SignalOnlyServer::another_signal(one, false, "pears".to_string());
    assert_eq!(prepared.topic, "SignalOnly/signal/anotherSignal");
    assert_eq!(prepared.payload, r#"{"one":-0.5,"two":false,"three":"pears"}"#);
    let mut seen: Vec<Publication> = Vec::new();
    let server = SignalOnlyServer::new();
    let outcome = server.emit_another_signal(one, false, "pears".to_string(), |publication: Publication| {
        seen.push(publication);
        Ok(())
    });
    assert_eq!(outcome, Ok(()));
    assert_eq!(seen, vec![prepared]);
}

#[test]
fn topic_is_the_same_for_every_emit() {
    let first = SignalOnlyServer::another_signal(number_of(1.0), true, "a".to_string());
    let second = SignalOnlyServer::another_signal(number_of(-2.5), false, "b".to_string());
    assert_eq!(first.topic, second.topic);
    assert_ne!(first.payload, second.payload);
}

#[test]
fn emit_returns_the_error_of_a_rejected_publish_and_does_not_retry() {
    let mut connection = FakeConnection::failing(TransportError::Rejected);
    let server = SignalOnlyServer::new();
    let outcome = server.emit_another_signal(
        number_of(3.14),
        true,
        "apples".to_string(),
        |publication: Publication| connection.publish(publication.topic, publication.payload),
    );
    assert_eq!(outcome, Err(TransportError::Rejected));
    assert_eq!(connection.published.len(), 1);
}

#[test]
fn emit_returns_the_error_of_a_closed_session() {
    let mut connection = FakeConnection::failing(TransportError::SessionClosed);
    let server = SignalOnlyServer::new();
    let outcome = server.emit_another_signal(
        number_of(0.0),
        false,
        String::new(),
        |publication: Publication| connection.publish(publication.topic, publication.payload),
    );
    assert_eq!(outcome, Err(TransportError::SessionClosed));
    assert_eq!(connection.published.len(), 1);
}

#[test]
fn emits_reach_the_transport_in_call_order() {
    let mut connection = FakeConnection::new();
    let server = SignalOnlyServer::new();
    for text in ["first", "second", "third"] {
        let outcome = server.emit_another_signal(
            Number::Finite { positive: true, mantissa: 1, exponent: 0 },
            true,
            text.to_string(),
            |publication: Publication| connection.publish(publication.topic, publication.payload),
        );
        assert_eq!(outcome, Ok(()));
    }
    let payloads: Vec<&str> = connection.published.iter().map(|entry| entry.1.as_str()).collect();
    assert_eq!(
        payloads,
        vec![
            r#"{"one":1,"two":true,"three":"first"}"#,
            r#"{"one":1,"two":true,"three":"second"}"#,
            r#"{"one":1,"two":true,"three":"third"}"#,
        ]
    );
}

#[test]
fn process_returns_when_the_receive_sequence_is_exhausted() {
    let received = vec![None, frame("SignalOnly/signal/anotherSignal", b"{}"), None, frame("other", b"")];
    let mut server = SignalOnlyServer::new();
    let taken = server.process(&received);
    assert_eq!(taken, 4);
    assert_eq!(server.state(), ServerState::Closed);
}

#[test]
fn process_of_an_empty_sequence_closes_the_server() {
    let mut server = SignalOnlyServer::new();
    assert_eq!(server.process(&Vec::new()), 0);
    assert_eq!(server.state(), ServerState::Closed);
}

#[test]
fn process_on_a_closed_server_takes_nothing() {
    let mut server = SignalOnlyServer::new();
    server.process(&vec![None]);
    assert_eq!(server.process(&vec![None, None]), 0);
    assert_eq!(server.state(), ServerState::Closed);
}

#[test]
fn entering_the_loop_moves_an_idle_server_to_processing() {
    let mut server = SignalOnlyServer::new();
    server.enter();
    assert_eq!(server.state(), ServerState::Processing);
    server.enter();
    assert_eq!(server.state(), ServerState::Processing);
}

#[test]
fn entering_the_loop_leaves_a_closed_server_closed() {
    let mut server = SignalOnlyServer::new();
    server.process(&Vec::new());
    server.enter();
    assert_eq!(server.state(), ServerState::Closed);
}

#[test]
fn first_pull_moves_an_idle_server_to_processing() {
    let mut server = SignalOnlyServer::new();
    assert_eq!(server.on_pull(Some(&frame("t", b"x"))), Flow::Continue);
    assert_eq!(server.state(), ServerState::Processing);
}

#[test]
fn a_tick_leaves_the_server_processing() {
    let mut server = SignalOnlyServer::new();
    server.enter();
    assert_eq!(server.state(), ServerState::Processing);
    assert_eq!(server.on_pull(Some(&None)), Flow::Continue);
    assert_eq!(server.state(), ServerState::Processing);
    assert_eq!(server.on_pull(Some(&None)), Flow::Continue);
    assert_eq!(server.state(), ServerState::Processing);
}

#[test]
fn a_malformed_frame_does_not_stop_the_loop() {
    let mut server = SignalOnlyServer::new();
    assert_eq!(server.on_pull(Some(&frame("", &[0xff, 0xfe]))), Flow::Continue);
    assert_eq!(server.state(), ServerState::Processing);
}

#[test]
fn the_end_of_the_sequence_closes_the_server() {
    let mut server = SignalOnlyServer::new();
    assert_eq!(server.on_pull(Some(&None)), Flow::Continue);
    assert_eq!(server.on_pull(None), Flow::Stop);
    assert_eq!(server.state(), ServerState::Closed);
}

#[test]
fn an_idle_server_closes_when_the_sequence_ends_at_once() {
    let mut server = SignalOnlyServer::new();
    assert_eq!(server.on_pull(None), Flow::Stop);
    assert_eq!(server.state(), ServerState::Closed);
}

#[test]
fn nothing_leads_out_of_closed() {
    let mut server = SignalOnlyServer::new();
    server.on_pull(None);
    assert_eq!(server.on_pull(Some(&None)), Flow::Stop);
    assert_eq!(server.state(), ServerState::Closed);
    assert_eq!(server.on_pull(Some(&frame("t", b"x"))), Flow::Stop);
    assert_eq!(server.state(), ServerState::Closed);
}

#[test]
fn a_closed_server_still_publishes_and_surfaces_the_error() {
    let mut connection = FakeConnection::failing(TransportError::SessionClosed);
    let mut server = SignalOnlyServer::new();
    server.process(&Vec::new());
    let outcome = server.emit_another_signal(
        number_of(3.14),
        true,
        "apples".to_string(),
        |publication: Publication| connection.publish(publication.topic, publication.payload),
    );
    assert_eq!(outcome, Err(TransportError::SessionClosed));
    assert_eq!(connection.published.len(), 1);
    assert_eq!(server.state(), ServerState::Closed);
}
