use messenger_indexer::events::{parse_event, Event, EventKind, MessageId};
use messenger_indexer::hash::CryptoHash;

fn text(s: &str) -> String {
    s.to_string()
}

#[test]
fn test_event_format() {
    let sender = text("alice.near");
    let receiver = text("bob.near");
    let event = Event::pending_contact_request(&sender, &receiver);
    let log_output = event.to_log();
    assert_eq!(
        log_output,
        format!(
            r#"EVENT_JSON:{{"standard":"{}","version":"{}","event":"pending_contact_request","data":{{"sender":"{}","receiver":"{}"}}}}"#,
            Event::STANDARD,
            Event::VERSION,
            sender.as_str(),
            receiver.as_str()
        ),
    );
}

fn round_trip(event: &Event) -> Event {
    parse_event(&event.to_log()).expect("an encoded event reads back")
}

#[test]
fn round_trip_pending_contact_request() {
    let e = Event::pending_contact_request(&text("alice.near"), &text("bob.near"));
    let back = round_trip(&e);
    assert_eq!(back.to_json(), e.to_json());
    let p = back.as_pending_contact_request().unwrap();
    assert_eq!(p.sender, "alice.near");
    assert_eq!(p.receiver, "bob.near");
    assert!(matches!(back.event_kind, EventKind::PendingContactRequest(_)));
}

#[test]
fn round_trip_received_contact_request() {
    let e = Event::received_contact_request(&text("alice.near"), &text("bob.near"));
    let back = round_trip(&e);
    assert!(matches!(back.event_kind, EventKind::ReceivedContactRequest(_)));
    assert_eq!(back.to_json(), e.to_json());
    assert!(back.as_pending_contact_request().is_some());
    assert!(back.as_new_contact().is_none());
}

#[test]
fn round_trip_new_contact() {
    let e = Event::new_contact(&text("alice.near"), &text("bob.near"));
    let back = round_trip(&e);
    let c = back.as_new_contact().unwrap();
    assert_eq!(c.this, "alice.near");
    assert_eq!(c.contact, "bob.near");
    assert_eq!(
        e.to_json(),
        r#"{"standard":"NearMessenger","version":"1.0.0","event":"new_contact","data":{"this":"alice.near","contact":"bob.near"}}"#
    );
}

#[test]
fn round_trip_message_sent() {
    let e = Event::message_sent(&text("a"), &text("b"));
    let back = round_trip(&e);
    let m = back.as_message_sent().unwrap();
    assert_eq!(m.sender, "a");
    assert_eq!(m.receiver, "b");
    assert!(back.as_message_received().is_none());
}

#[test]
fn round_trip_message_received() {
    let mut bytes = [0u8; 32];
    for (i, b) in bytes.iter_mut().enumerate() {
        *b = (i as u8) * 7;
    }
    let id = MessageId(CryptoHash { bytes });
    let e = Event::message_received(&text("alice.near"), &text("bob.near"), &id);
    let back = round_trip(&e);
    let m = back.as_message_received().unwrap();
    assert_eq!(m.message_id.0.bytes, bytes);
    assert_eq!(m.sender, "alice.near");
    assert_eq!(back.to_json(), e.to_json());
    assert!(e.to_json().contains(&format!("\"message_id\":\"{}\"", id.to_base58())));
}

#[test]
fn message_id_base58_of_zero_bytes() {
    let id = MessageId(CryptoHash { bytes: [0u8; 32] });
    assert_eq!(id.to_base58(), "11111111111111111111111111111111");
    let back = MessageId::from_base58("11111111111111111111111111111111").unwrap();
    assert_eq!(back.0.bytes, [0u8; 32]);
}

#[test]
fn message_id_refuses_wrong_length_and_alphabet() {
    assert!(MessageId::from_base58("111").is_none());
    assert!(MessageId::from_base58("0OIl").is_none());
    assert!(MessageId::from_base58("").is_none());
}

#[test]
fn escaped_characters_are_written_like_json() {
    let e = Event {
        standard: text("a\"b\\c\nd\u{1}e/"),
        version: text("\t\r\u{8}\u{c}"),
        event_kind: Event::message_sent(&text("x"), &text("y")).event_kind,
    };
    let json = e.to_json();
    assert!(json.starts_with(r#"{"standard":"a\"b\\c\nd\u0001e/","version":"\t\r\b\f","#));
    let back = round_trip(&e);
    assert_eq!(back.standard, e.standard);
    assert_eq!(back.version, e.version);
}

#[test]
fn parse_accepts_white_space_and_any_member_order() {
    let line = "EVENT_JSON: { \"data\" : { \"receiver\" : \"b\" , \"sender\" : \"a\" } ,\n \"event\":\"message_sent\", \"extra\": \"x\", \"version\":\"1.0.0\",\"standard\":\"NearMessenger\" } ";
    let e = parse_event(line).unwrap();
    assert_eq!(e.standard, "NearMessenger");
    let m = e.as_message_sent().unwrap();
    assert_eq!(m.sender, "a");
    assert_eq!(m.receiver, "b");
}

#[test]
fn parse_reads_escapes() {
    let line = r#"EVENT_JSON:{"standard":"NA\/\"","version":"1","event":"new_contact","data":{"this":"t","contact":"c"}}"#;
    let e = parse_event(line).unwrap();
    assert_eq!(e.standard, "NA/\"");
}

#[test]
fn parse_skips_lines_that_are_not_events() {
    assert!(parse_event("hello world").is_none());
    assert!(parse_event("EVENT_JSON").is_none());
    assert!(parse_event("EVENT_JSON:").is_none());
    assert!(parse_event("EVENT_JSON:{}").is_none());
    assert!(parse_event("event_json:{\"standard\":\"s\",\"version\":\"v\",\"event\":\"message_sent\",\"data\":{\"sender\":\"a\",\"receiver\":\"b\"}}").is_none());
    // unknown event name
    assert!(parse_event(r#"EVENT_JSON:{"standard":"s","version":"v","event":"other","data":{"sender":"a","receiver":"b"}}"#).is_none());
    // missing payload member
    assert!(parse_event(r#"EVENT_JSON:{"standard":"s","version":"v","event":"message_sent","data":{"sender":"a"}}"#).is_none());
    // trailing text after the object
    assert!(parse_event(r#"EVENT_JSON:{"standard":"s","version":"v","event":"message_sent","data":{"sender":"a","receiver":"b"}} x"#).is_none());
    // unterminated string
    assert!(parse_event(r#"EVENT_JSON:{"standard":"s"#).is_none());
    // bad message id
    assert!(parse_event(r#"EVENT_JSON:{"standard":"s","version":"v","event":"message_received","data":{"sender":"a","receiver":"b","message_id":"xyz"}}"#).is_none());
}
