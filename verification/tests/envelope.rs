//! Creating, parsing, serializing and splitting envelopes.
use bytes::Bytes;
use envelope::{
    AttachmentType, ContentType, Dsn, Envelope, EventId, Item, ItemType, RequestMeta, Value,
};
use std::time::Instant;

fn request_meta() -> RequestMeta {
    let dsn = Dsn::parse("https://e12d836b15bb49d7bbf99e64295d995b:@sentry.io/42").unwrap();

    RequestMeta {
        dsn,
        client: Some("sentry/client".to_string()),
        version: 7,
        origin: Some("http://origin/".to_string()),
        remote_addr: Some("192.168.0.1".to_string()),
        forwarded_for: String::new(),
        user_agent: Some("sentry/agent".to_string()),
        start_time: Instant::now(),
    }
}

#[test]
fn test_item_empty() {
    let item = Item::new(ItemType::Attachment);

    assert_eq!(item.payload(), Bytes::new());
    assert_eq!(item.len(), 0);
    assert!(item.is_empty());

    assert_eq!(item.content_type(), None);
}

#[test]
fn test_item_set_payload() {
    let mut item = Item::new(ItemType::Event);

    let payload = Bytes::from(&br#"{"event_id":"3adcb99a1be84a5d8057f2eb9a0161ce"}"#[..]);
    item.set_payload(ContentType::Json, payload.clone());

    // Payload
    assert_eq!(item.payload(), payload);
    assert_eq!(item.len(), payload.len());
    assert!(!item.is_empty());

    // Meta data
    assert_eq!(item.content_type(), Some(&ContentType::Json));
}

#[test]
fn test_item_set_header() {
    let mut item = Item::new(ItemType::Event);
    item.set_header("custom", 42u64);

    assert_eq!(item.get_header("custom"), Some(&Value::from(42u64)));
    assert_eq!(item.get_header("anything"), None);
}

#[test]
fn test_envelope_empty() {
    let event_id = EventId::new();
    let envelope = Envelope::from_request(Some(event_id), request_meta());

    assert_eq!(envelope.event_id(), Some(event_id));
    assert_eq!(envelope.len(), 0);
    assert!(envelope.is_empty());

    assert!(envelope.items().next().is_none());
}

#[test]
fn test_envelope_add_item() {
    let event_id = EventId::new();
    let mut envelope = Envelope::from_request(Some(event_id), request_meta());
    envelope.add_item(Item::new(ItemType::Attachment));

    assert_eq!(envelope.len(), 1);
    assert!(!envelope.is_empty());

    let items: Vec<_> = envelope.items().collect();
    assert_eq!(items.len(), 1);
    assert_eq!(items[0].ty(), &ItemType::Attachment);
}

#[test]
fn test_envelope_take_item() {
    let event_id = EventId::new();
    let mut envelope = Envelope::from_request(Some(event_id), request_meta());

    let mut item1 = Item::new(ItemType::Attachment);
    item1.set_filename("item1");
    envelope.add_item(item1);

    let mut item2 = Item::new(ItemType::Attachment);
    item2.set_filename("item2");
    envelope.add_item(item2);

    let taken = envelope
        .take_item_by(|item| item.ty() == &ItemType::Attachment)
        .expect("should return some item");

    assert_eq!(taken.filename(), Some("item1"));

    assert!(envelope
        .take_item_by(|item| item.ty() == &ItemType::Event)
        .is_none());
}

#[test]
fn test_deserialize_envelope_empty() {
    // Without terminating newline after header
    let bytes = Bytes::from("{\"event_id\":\"9ec79c33ec9942ab8353589fcb2e04dc\",\"dsn\":\"https://e12d836b15bb49d7bbf99e64295d995b:@sentry.io/42\"}");
    let envelope = Envelope::parse_bytes(bytes).unwrap();

    let event_id = EventId::from_text("9ec79c33ec9942ab8353589fcb2e04dc").unwrap();
    assert_eq!(envelope.event_id(), Some(event_id));
    assert_eq!(envelope.len(), 0);
}

#[test]
fn test_deserialize_request_meta() {
    let bytes = Bytes::from("{\"event_id\":\"9ec79c33ec9942ab8353589fcb2e04dc\",\"dsn\":\"https://e12d836b15bb49d7bbf99e64295d995b:@other.sentry.io/42\",\"client\":\"sentry/javascript\",\"version\":6,\"origin\":\"http://localhost/\",\"remote_addr\":\"127.0.0.1\",\"forwarded_for\":\"8.8.8.8\",\"user_agent\":\"sentry-cli/1.0\"}");
    let envelope = Envelope::parse_bytes(bytes).unwrap();
    let meta = envelope.meta();

    let dsn = Dsn::parse("https://e12d836b15bb49d7bbf99e64295d995b:@other.sentry.io/42").unwrap();
    assert_eq!(*meta.dsn(), dsn);
    assert_eq!(meta.project_id(), Some(42));
    assert_eq!(
        meta.public_key(),
        "e12d836b15bb49d7bbf99e64295d995b"
    );
    assert_eq!(meta.client(), Some("sentry/javascript"));
    assert_eq!(meta.version(), 6);
    assert_eq!(meta.origin(), Some("http://localhost/"));
    assert_eq!(meta.remote_addr(), Some("127.0.0.1"));
    assert_eq!(meta.forwarded_for(), "8.8.8.8");
    assert_eq!(meta.user_agent(), Some("sentry-cli/1.0"));
}

#[test]
fn test_deserialize_envelope_empty_newline() {
    // With terminating newline after header
    let bytes = Bytes::from("{\"event_id\":\"9ec79c33ec9942ab8353589fcb2e04dc\",\"dsn\":\"https://e12d836b15bb49d7bbf99e64295d995b:@sentry.io/42\"}\n");
    let envelope = Envelope::parse_bytes(bytes).unwrap();
    assert_eq!(envelope.len(), 0);
}

#[test]
fn test_deserialize_envelope_empty_item_newline() {
    // With terminating newline after item payload
    let bytes = Bytes::from(
        "\
         {\"event_id\":\"9ec79c33ec9942ab8353589fcb2e04dc\",\"dsn\":\"https://e12d836b15bb49d7bbf99e64295d995b:@sentry.io/42\"}\n\
         {\"type\":\"attachment\",\"length\":0}\n\
         \n\
         {\"type\":\"attachment\",\"length\":0}\n\
         ",
    );

    let envelope = Envelope::parse_bytes(bytes).unwrap();
    assert_eq!(envelope.len(), 2);

    let items: Vec<_> = envelope.items().collect();
    assert_eq!(items[0].len(), 0);
    assert_eq!(items[1].len(), 0);
}

#[test]
fn test_deserialize_envelope_empty_item_eof() {
    // Without terminating newline after item payload
    let bytes = Bytes::from(
        "\
         {\"event_id\":\"9ec79c33ec9942ab8353589fcb2e04dc\",\"dsn\":\"https://e12d836b15bb49d7bbf99e64295d995b:@sentry.io/42\"}\n\
         {\"type\":\"attachment\",\"length\":0}\n\
         \n\
         {\"type\":\"attachment\",\"length\":0}\
         ",
    );

    let envelope = Envelope::parse_bytes(bytes).unwrap();
    assert_eq!(envelope.len(), 2);

    let items: Vec<_> = envelope.items().collect();
    assert_eq!(items[0].len(), 0);
    assert_eq!(items[1].len(), 0);
}

#[test]
fn test_deserialize_envelope_implicit_length() {
    // With terminating newline after item payload
    let bytes = Bytes::from(
        "\
         {\"event_id\":\"9ec79c33ec9942ab8353589fcb2e04dc\",\"dsn\":\"https://e12d836b15bb49d7bbf99e64295d995b:@sentry.io/42\"}\n\
         {\"type\":\"attachment\"}\n\
         helloworld\n\
         ",
    );

    let envelope = Envelope::parse_bytes(bytes).unwrap();
    assert_eq!(envelope.len(), 1);

    let items: Vec<_> = envelope.items().collect();
    assert_eq!(items[0].len(), 10);
}

#[test]
fn test_deserialize_envelope_implicit_length_eof() {
    // With item ending the envelope
    let bytes = Bytes::from(
        "\
         {\"event_id\":\"9ec79c33ec9942ab8353589fcb2e04dc\",\"dsn\":\"https://e12d836b15bb49d7bbf99e64295d995b:@sentry.io/42\"}\n\
         {\"type\":\"attachment\"}\n\
         helloworld\
         ",
    );

    let envelope = Envelope::parse_bytes(bytes).unwrap();
    assert_eq!(envelope.len(), 1);

    let items: Vec<_> = envelope.items().collect();
    assert_eq!(items[0].len(), 10);
}

#[test]
fn test_deserialize_envelope_implicit_length_empty_eof() {
    // Empty item with implicit length ending the envelope
    // Panic regression test.
    let bytes = Bytes::from(
        "\
         {\"event_id\":\"9ec79c33ec9942ab8353589fcb2e04dc\",\"dsn\":\"https://e12d836b15bb49d7bbf99e64295d995b:@sentry.io/42\"}\n\
         {\"type\":\"attachment\"}\
         ",
    );

    let envelope = Envelope::parse_bytes(bytes).unwrap();
    assert_eq!(envelope.len(), 1);

    let items: Vec<_> = envelope.items().collect();
    assert_eq!(items[0].len(), 0);
}

#[test]
fn test_deserialize_envelope_multiple_items() {
    // With terminating newline
    let bytes = Bytes::from(&b"\
        {\"event_id\":\"9ec79c33ec9942ab8353589fcb2e04dc\",\"dsn\":\"https://e12d836b15bb49d7bbf99e64295d995b:@sentry.io/42\"}\n\
        {\"type\":\"attachment\",\"length\":10,\"content_type\":\"text/plain\",\"filename\":\"hello.txt\"}\n\
        \xef\xbb\xbfHello\r\n\n\
        {\"type\":\"event\",\"length\":41,\"content_type\":\"application/json\",\"filename\":\"application.log\"}\n\
        {\"message\":\"hello world\",\"level\":\"error\"}\n\
    "[..]);

    let envelope = Envelope::parse_bytes(bytes).unwrap();

    assert_eq!(envelope.len(), 2);
    let items: Vec<_> = envelope.items().collect();

    assert_eq!(items[0].ty(), &ItemType::Attachment);
    assert_eq!(items[0].len(), 10);
    assert_eq!(
        items[0].payload(),
        Bytes::from(&b"\xef\xbb\xbfHello\r\n"[..])
    );
    assert_eq!(items[0].content_type(), Some(&ContentType::Text));

    assert_eq!(items[1].ty(), &ItemType::Event);
    assert_eq!(items[1].len(), 41);
    assert_eq!(
        items[1].payload(),
        Bytes::from("{\"message\":\"hello world\",\"level\":\"error\"}")
    );
    assert_eq!(items[1].content_type(), Some(&ContentType::Json));
    assert_eq!(items[1].filename(), Some("application.log"));
}

#[test]
fn test_deserialize_envelope_unknown_item() {
    // With terminating newline after item payload
    let bytes = Bytes::from(
        "\
         {\"event_id\":\"9ec79c33ec9942ab8353589fcb2e04dc\",\"dsn\":\"https://e12d836b15bb49d7bbf99e64295d995b:@sentry.io/42\"}\n\
         {\"type\":\"invalid_unknown\"}\n\
         helloworld\n\
         ",
    );

    let envelope = Envelope::parse_bytes(bytes).unwrap();
    assert_eq!(envelope.len(), 1);

    let items: Vec<_> = envelope.items().collect();
    assert_eq!(items[0].len(), 10);
}

#[test]
fn test_deserialize_envelope_replay_recording() {
    let bytes = Bytes::from(
        "\
         {\"event_id\":\"9ec79c33ec9942ab8353589fcb2e04dc\",\"dsn\":\"https://e12d836b15bb49d7bbf99e64295d995b:@sentry.io/42\"}\n\
         {\"type\":\"replay_recording\"}\n\
         helloworld\n\
         ",
    );

    let envelope = Envelope::parse_bytes(bytes).unwrap();
    assert_eq!(envelope.len(), 1);
    let items: Vec<_> = envelope.items().collect();
    assert_eq!(items[0].ty(), &ItemType::ReplayRecording);
}

#[test]
fn test_deserialize_envelope_view_hierarchy() {
    let bytes = Bytes::from(
        "\
         {\"event_id\":\"9ec79c33ec9942ab8353589fcb2e04dc\",\"dsn\":\"https://e12d836b15bb49d7bbf99e64295d995b:@sentry.io/42\"}\n\
         {\"type\":\"attachment\",\"length\":44,\"content_type\":\"application/json\",\"attachment_type\":\"event.view_hierarchy\"}\n\
         {\"rendering_system\":\"compose\",\"windows\":[]}\n\
         ",
    );

    let envelope = Envelope::parse_bytes(bytes).unwrap();
    assert_eq!(envelope.len(), 1);
    let items: Vec<_> = envelope.items().collect();
    assert_eq!(items[0].ty(), &ItemType::Attachment);
    assert_eq!(
        items[0].attachment_type(),
        Some(&AttachmentType::ViewHierarchy)
    );
}

#[test]
fn test_parse_request_envelope() {
    let bytes = Bytes::from("{\"event_id\":\"9ec79c33ec9942ab8353589fcb2e04dc\"}");
    let envelope = Envelope::parse_request(bytes, request_meta()).unwrap();
    let meta = envelope.meta();

    // This test asserts that all information from the envelope is overwritten with request
    // information. Note that the envelope's DSN points to "other.sentry.io", but all other
    // information matches the DSN.

    let dsn = Dsn::parse("https://e12d836b15bb49d7bbf99e64295d995b:@sentry.io/42").unwrap();
    assert_eq!(*meta.dsn(), dsn);
    assert_eq!(meta.project_id(), Some(42));
    assert_eq!(
        meta.public_key(),
        "e12d836b15bb49d7bbf99e64295d995b"
    );
    assert_eq!(meta.client(), Some("sentry/client"));
    assert_eq!(meta.version(), 7);
    assert_eq!(meta.origin(), Some("http://origin/"));
    assert_eq!(meta.remote_addr(), Some("192.168.0.1"));
    assert_eq!(meta.forwarded_for(), "");
    assert_eq!(meta.user_agent(), Some("sentry/agent"));
}

#[test]
fn test_parse_request_no_dsn() {
    let bytes = Bytes::from("{\"event_id\":\"9ec79c33ec9942ab8353589fcb2e04dc\"}");
    let envelope = Envelope::parse_request(bytes, request_meta()).unwrap();
    let meta = envelope.meta();

    // DSN should be assumed from the request.
    assert_eq!(meta.dsn(), request_meta().dsn());
}

#[test]
fn test_parse_request_sent_at() {
    let bytes = Bytes::from("{\"event_id\":\"9ec79c33ec9942ab8353589fcb2e04dc\", \"sent_at\": \"1970-01-01T00:02:03Z\"}");
    let envelope = Envelope::parse_request(bytes, request_meta()).unwrap();
    let sent_at = envelope.sent_at().unwrap();

    // DSN should be assumed from the request.
    assert_eq!(sent_at.timestamp(), 123);
}

#[test]
fn test_parse_request_sent_at_null() {
    let bytes =
        Bytes::from("{\"event_id\":\"9ec79c33ec9942ab8353589fcb2e04dc\", \"sent_at\": null}");
    let envelope = Envelope::parse_request(bytes, request_meta()).unwrap();
    assert!(envelope.sent_at().is_none());
}

#[test]
fn test_parse_request_no_origin() {
    let bytes = Bytes::from("{\"event_id\":\"9ec79c33ec9942ab8353589fcb2e04dc\",\"dsn\":\"https://e12d836b15bb49d7bbf99e64295d995b:@sentry.io/42\"}");
    let envelope = Envelope::parse_request(bytes, request_meta()).unwrap();
    let meta = envelope.meta();

    // Origin validation should skip a missing origin.
    assert_eq!(meta.origin(), Some("http://origin/"));
}

#[test]
#[should_panic(expected = "project id")]
fn test_parse_request_validate_project() {
    let bytes = Bytes::from("{\"event_id\":\"9ec79c33ec9942ab8353589fcb2e04dc\",\"dsn\":\"https://e12d836b15bb49d7bbf99e64295d995b:@sentry.io/99\"}");
    Envelope::parse_request(bytes, request_meta()).unwrap();
}

#[test]
#[should_panic(expected = "public key")]
fn test_parse_request_validate_key() {
    let bytes = Bytes::from("{\"event_id\":\"9ec79c33ec9942ab8353589fcb2e04dc\",\"dsn\":\"https://aaaaaaaaaaaaaaaaaaaaaaaaaaaaaaaa:@sentry.io/42\"}");
    Envelope::parse_request(bytes, request_meta()).unwrap();
}

#[test]
#[should_panic(expected = "origin")]
fn test_parse_request_validate_origin() {
    let bytes = Bytes::from("{\"event_id\":\"9ec79c33ec9942ab8353589fcb2e04dc\",\"dsn\":\"https://e12d836b15bb49d7bbf99e64295d995b:@sentry.io/42\",\"origin\":\"http://localhost/\"}");
    Envelope::parse_request(bytes, request_meta()).unwrap();
}

#[test]
fn test_serialize_envelope_empty() {
    let event_id = EventId::from_text("9ec79c33ec9942ab8353589fcb2e04dc").unwrap();
    let envelope = Envelope::from_request(Some(event_id), request_meta());

    let mut buffer = Vec::new();
    envelope.serialize(&mut buffer).unwrap();

    let stringified = String::from_utf8_lossy(&buffer);
    assert_eq!(
        stringified,
        "{\"event_id\":\"9ec79c33ec9942ab8353589fcb2e04dc\",\"dsn\":\"https://e12d836b15bb49d7bbf99e64295d995b:@sentry.io/42\",\"client\":\"sentry/client\",\"version\":7,\"origin\":\"http://origin/\",\"remote_addr\":\"192.168.0.1\",\"user_agent\":\"sentry/agent\"}\n"
    );
}

#[test]
fn test_serialize_envelope_attachments() {
    let event_id = EventId::from_text("9ec79c33ec9942ab8353589fcb2e04dc").unwrap();
    let mut envelope = Envelope::from_request(Some(event_id), request_meta());

    let mut item = Item::new(ItemType::Event);
    item.set_payload(
        ContentType::Json,
        "{\"message\":\"hello world\",\"level\":\"error\"}",
    );
    envelope.add_item(item);

    let mut item = Item::new(ItemType::Attachment);
    item.set_payload(ContentType::Text, &b"Hello\r\n"[..]);
    item.set_filename("application.log");
    envelope.add_item(item);

    let mut buffer = Vec::new();
    envelope.serialize(&mut buffer).unwrap();

    let stringified = String::from_utf8_lossy(&buffer);
    assert_eq!(
        stringified,
        "{\"event_id\":\"9ec79c33ec9942ab8353589fcb2e04dc\",\"dsn\":\"https://e12d836b15bb49d7bbf99e64295d995b:@sentry.io/42\",\"client\":\"sentry/client\",\"version\":7,\"origin\":\"http://origin/\",\"remote_addr\":\"192.168.0.1\",\"user_agent\":\"sentry/agent\"}\n\
         {\"type\":\"event\",\"length\":41,\"content_type\":\"application/json\"}\n\
         {\"message\":\"hello world\",\"level\":\"error\"}\n\
         {\"type\":\"attachment\",\"length\":7,\"content_type\":\"text/plain\",\"filename\":\"application.log\"}\n\
         Hello\r\n\n"
    );
}

#[test]
fn test_split_envelope_none() {
    let mut envelope = Envelope::from_request(Some(EventId::new()), request_meta());
    envelope.add_item(Item::new(ItemType::Attachment));
    envelope.add_item(Item::new(ItemType::Attachment));

    // Does not split when no item matches.
    let split_opt = envelope.split_by(|item| item.ty() == &ItemType::Session);
    assert!(split_opt.is_none());
}

#[test]
fn test_split_envelope_all() {
    let mut envelope = Envelope::from_request(Some(EventId::new()), request_meta());
    envelope.add_item(Item::new(ItemType::Session));
    envelope.add_item(Item::new(ItemType::Session));

    // Does not split when all items match.
    let split_opt = envelope.split_by(|item| item.ty() == &ItemType::Session);
    assert!(split_opt.is_none());
}

#[test]
fn test_split_envelope_some() {
    let mut envelope = Envelope::from_request(Some(EventId::new()), request_meta());
    envelope.add_item(Item::new(ItemType::Session));
    envelope.add_item(Item::new(ItemType::Attachment));

    let split_opt = envelope.split_by(|item| item.ty() == &ItemType::Session);
    let split_envelope = split_opt.expect("split_by returns an Envelope");

    assert_eq!(split_envelope.len(), 1);
    assert_eq!(split_envelope.event_id(), envelope.event_id());

    // Matching items have moved into the split envelope.
    for item in split_envelope.items() {
        assert_eq!(item.ty(), &ItemType::Session);
    }

    for item in envelope.items() {
        assert_eq!(item.ty(), &ItemType::Attachment);
    }
}
