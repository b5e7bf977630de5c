//! What is written, and reading it back.
use bytes::Bytes;
use envelope::{
    AttachmentType, ContentType, Dsn, DynamicSamplingContext, Envelope, EnvelopeError, EventId,
    Field, HeaderFault, Item, ItemType, RequestMeta, Segment, Timestamp, Value,
};
use std::time::Instant;

fn meta() -> RequestMeta {
    RequestMeta {
        dsn: Dsn::parse("https://e12d836b15bb49d7bbf99e64295d995b:@sentry.io/42").unwrap(),
        client: Some("client \"quoted\"".to_string()),
        version: 5,
        origin: None,
        remote_addr: Some("192.168.0.1".to_string()),
        forwarded_for: "8.8.8.8".to_string(),
        user_agent: None,
        start_time: Instant::now(),
    }
}

fn full_envelope() -> Envelope {
    let mut envelope = *Envelope::from_request(Some(EventId(0xabc)), meta());
    envelope.set_retention(30);
    envelope.set_sent_at(Timestamp::from_timestamp(123, 456_000_000).unwrap());
    let mut dsc = DynamicSamplingContext::new();
    dsc.insert("trace_id".to_string(), Value::String("t".to_string()));
    dsc.insert("a".to_string(), Value::from(1u64));
    envelope.set_dsc(dsc);
    envelope.set_header("z", -1i64);
    envelope.set_header("other", Value::Array(vec![Value::Null, Value::Bool(false)]));

    let mut item = Item::new(ItemType::Attachment);
    item.set_payload(ContentType::from("image/png"), Bytes::from_static(b"a\n\nb\n"));
    item.set_filename("f\u{fc}r.png");
    item.set_attachment_type(AttachmentType::Unknown("new".to_string()));
    item.set_metrics_extracted(true);
    item.set_sample_rates(Value::Array(vec![Value::from(1u64)]));
    item.set_header("extra", "x".to_string());
    envelope.add_item(item);
    envelope.add_item(Item::new(ItemType::Unknown("future".to_string())));
    envelope
}

fn text(envelope: &Envelope) -> String {
    String::from_utf8(envelope.to_vec().unwrap()).unwrap()
}

#[test]
fn everything_is_written() {
    assert_eq!(
        text(&full_envelope()),
        "{\"event_id\":\"00000000000000000000000000000abc\",\"dsn\":\"https://e12d836b15bb49d7bbf99e64295d995b:@sentry.io/42\",\"client\":\"client \\\"quoted\\\"\",\"version\":5,\"remote_addr\":\"192.168.0.1\",\"forwarded_for\":\"8.8.8.8\",\"retention\":30,\"sent_at\":\"1970-01-01T00:02:03.456Z\",\"trace\":{\"a\":1,\"trace_id\":\"t\"},\"other\":[null,false],\"z\":-1}\n\
         {\"type\":\"attachment\",\"length\":5,\"attachment_type\":\"new\",\"content_type\":\"image/png\",\"filename\":\"f\u{fc}r.png\",\"sample_rates\":[1],\"metrics_extracted\":true,\"extra\":\"x\"}\n\
         a\n\nb\n\n\
         {\"type\":\"future\",\"length\":0}\n\
         \n"
    );
}

#[test]
fn envelope_is_read_back() {
    let envelope = full_envelope();
    let written = envelope.to_vec().unwrap();
    let read = Envelope::parse_bytes(Bytes::from(written.clone())).unwrap();
    assert_eq!(read.to_vec().unwrap(), written);
    assert_eq!(read.event_id(), envelope.event_id());
    assert_eq!(read.meta().dsn(), envelope.meta().dsn());
    assert_eq!(read.meta().client(), envelope.meta().client());
    assert_eq!(read.meta().version(), 5);
    assert_eq!(read.meta().origin(), None);
    assert_eq!(read.meta().forwarded_for(), "8.8.8.8");
    assert_eq!(read.retention(), 30);
    assert_eq!(read.sent_at(), envelope.sent_at());
    assert_eq!(read.get_header("z"), envelope.get_header("z"));
    assert_eq!(read.get_header("other"), envelope.get_header("other"));
    assert_eq!(read.dsc().unwrap().get("a"), Some(&Value::from(1u64)));
    assert_eq!(read.len(), 2);
    for (a, b) in read.items().zip(envelope.items()) {
        assert_eq!(a.ty(), b.ty());
        assert_eq!(a.payload(), b.payload());
        assert_eq!(a.filename(), b.filename());
        assert_eq!(a.content_type(), b.content_type());
        assert_eq!(a.attachment_type(), b.attachment_type());
        assert_eq!(a.metrics_extracted(), b.metrics_extracted());
        assert_eq!(a.get_header("extra"), b.get_header("extra"));
        assert_eq!(a.clone().take_sample_rates(), b.clone().take_sample_rates());
    }
}

#[test]
fn last_line_break_can_be_missing() {
    for envelope in [full_envelope(), *Envelope::from_request(None, meta())] {
        let written = envelope.to_vec().unwrap();
        let cut = Bytes::from(written[..written.len() - 1].to_vec());
        assert_eq!(Envelope::parse_bytes(cut).unwrap().to_vec().unwrap(), written);
    }
}

#[test]
fn own_request_changes_nothing() {
    let written = full_envelope().to_vec().unwrap();
    let read = Envelope::parse_request(Bytes::from(written.clone()), meta()).unwrap();
    assert_eq!(read.to_vec().unwrap(), written);
}

#[test]
fn implicit_length_is_read_back() {
    let bytes = "{\"dsn\":\"https://e12d836b15bb49d7bbf99e64295d995b:@sentry.io/42\",\"version\":7}\n{\"type\":\"event\"}\nno break\n";
    let envelope = Envelope::parse_bytes(Bytes::from(bytes)).unwrap();
    assert_eq!(text(&envelope), bytes);
}

#[test]
fn every_time_of_sending_is_read_back() {
    for (secs, nanos) in [(253402300800, 5), (-8334601228800, 0), (59, 1_000_000_000)] {
        let mut envelope = *Envelope::from_request(None, meta());
        let time = Timestamp::from_timestamp(secs, nanos).unwrap();
        envelope.set_sent_at(time);
        let read = Envelope::parse_bytes(Bytes::from(text(&envelope))).unwrap();
        assert_eq!(read.sent_at(), Some(time));
    }
}

#[test]
fn fractions_are_read_back() {
    let bytes = "{\"dsn\":\"https://e12d836b15bb49d7bbf99e64295d995b:@sentry.io/42\",\"version\":7,\"x\":1e300}\n{\"type\":\"event\",\"sample_rates\":[{\"id\":\"a\",\"rate\":0.25}]}\n{}\n";
    let envelope = Envelope::parse_bytes(Bytes::from(bytes)).unwrap();
    let written = text(&envelope);
    let read = Envelope::parse_bytes(Bytes::from(written.clone())).unwrap();
    assert_eq!(read.get_header("x"), envelope.get_header("x"));
    assert_eq!(text(&read), written);
    assert!(written.contains("\"sample_rates\":[{\"id\":\"a\",\"rate\":0.25}]"));
}

#[test]
fn rate_limiting_is_not_written() {
    let mut envelope = full_envelope();
    let before = text(&envelope);
    for item in envelope.items_mut() {
        item.set_rate_limited(true);
    }
    assert_eq!(text(&envelope), before);
    let read = Envelope::parse_bytes(Bytes::from(before)).unwrap();
    assert!(read.items().all(|item| !item.rate_limited()));
}

#[test]
fn unreadable_trace_context_is_dropped() {
    let bytes = "{\"dsn\":\"https://e12d836b15bb49d7bbf99e64295d995b:@sentry.io/42\",\"version\":7,\"trace\":[]}";
    let envelope = Envelope::parse_bytes(Bytes::from(bytes)).unwrap();
    let written = text(&envelope);
    assert!(written.contains("\"trace\":null"));
    let read = Envelope::parse_bytes(Bytes::from(written)).unwrap();
    assert!(!text(&read).contains("trace"));
}

#[test]
fn attribute_with_the_name_of_a_field_is_not_read_back() {
    let mut envelope = *Envelope::from_request(None, meta());
    envelope.set_header("retention", 1u64);
    envelope.set_retention(2);
    match Envelope::parse_bytes(Bytes::from(text(&envelope))) {
        Err(EnvelopeError::InvalidHeader(error)) => {
            assert_eq!(error.fault, HeaderFault::Repeated(Field::Retention));
        }
        other => panic!("{:?}", other),
    }
}

#[test]
fn type_that_is_not_canonical_is_read_otherwise() {
    let mut envelope = *Envelope::from_request(None, meta());
    envelope.add_item(Item::new(ItemType::Unknown("event".to_string())));
    let read = Envelope::parse_bytes(Bytes::from(text(&envelope))).unwrap();
    assert_eq!(read.items().next().unwrap().ty(), &ItemType::Event);
}

#[test]
fn headers_have_no_line_breaks() {
    let mut item = Item::new(ItemType::Event);
    item.set_filename("a\nb\r\u{2028}");
    item.set_header("new\nline", "\n".to_string());
    let header = item.header_text();
    assert!(!header.contains(&b'\n'));
    let mut bytes = b"{}\n".to_vec();
    bytes.extend(header);
    let read = Envelope::parse_request(Bytes::from(bytes), meta()).unwrap();
    let item = read.items().next().unwrap();
    assert_eq!(item.filename(), Some("a\nb\r\u{2028}"));
    assert_eq!(item.get_header("new\nline"), Some(&Value::String("\n".to_string())));
}

#[test]
fn serialize_appends() {
    let envelope = full_envelope();
    let mut out = b"before".to_vec();
    envelope.serialize(&mut out).unwrap();
    let mut expected = b"before".to_vec();
    expected.extend(envelope.to_vec().unwrap());
    assert_eq!(out, expected);
}

#[test]
fn segments_are_the_text() {
    let envelope = full_envelope();
    let mut out: Vec<u8> = Vec::new();
    let mut kinds = String::new();
    for segment in envelope.segments() {
        match segment {
            Segment::Header(text) => {
                kinds.push('h');
                out.extend(text);
            }
            Segment::Payload(payload) => {
                kinds.push('p');
                out.extend(payload);
            }
            Segment::LineBreak => {
                kinds.push('|');
                out.push(b'\n');
            }
        }
    }
    assert_eq!(out, envelope.to_vec().unwrap());
    assert_eq!(kinds, "h|h|p|h|p|");
}

#[test]
fn times() {
    for (secs, nanos, text) in [
        (0, 0, "1970-01-01T00:00:00Z"),
        (123, 0, "1970-01-01T00:02:03Z"),
        (-1, 1, "1969-12-31T23:59:59.000000001Z"),
        (253402300799, 999_999_999, "9999-12-31T23:59:59.999999999Z"),
        (-62135596800, 0, "0001-01-01T00:00:00Z"),
        (59, 1_500_000_000, "1970-01-01T00:00:60.500Z"),
        (-62167219200, 0, "0000-01-01T00:00:00Z"),
        (-62167219201, 0, "-0001-12-31T23:59:59Z"),
        (253402300800, 0, "+10000-01-01T00:00:00Z"),
        (-8334601228800, 1, "-262143-01-01T00:00:00.000000001Z"),
        (-8334601228741, 1_000_000_000, "-262143-01-01T00:00:60Z"),
        (8210266876799, 1_999_999_999, "+262142-12-31T23:59:60.999999999Z"),
    ] {
        let time = Timestamp::from_timestamp(secs, nanos).unwrap();
        assert_eq!(time.to_text(), text);
        assert_eq!(Timestamp::from_text(text), Some(time));
        assert_eq!(time.timestamp(), secs);
        assert_eq!(time.timestamp_subsec_nanos(), nanos);
    }
    let offset = Timestamp::from_text("1970-01-01T01:00:00+01:00").unwrap();
    assert_eq!(offset.timestamp(), 0);
    assert_eq!(Timestamp::from_text("1970-01-01"), None);
}

#[test]
fn time_range() {
    assert!(Timestamp::from_timestamp(-8334601228800, 0).is_some());
    assert!(Timestamp::from_timestamp(-8334601228801, 0).is_none());
    assert!(Timestamp::from_timestamp(8210266876799, 999_999_999).is_some());
    assert!(Timestamp::from_timestamp(8210266876800, 0).is_none());
    assert!(Timestamp::from_timestamp(0, 1_000_000_000).is_none());
    assert!(Timestamp::from_timestamp(-1, 1_999_999_999).is_some());
    assert!(Timestamp::from_timestamp(59, 2_000_000_000).is_none());
    // The extremes can be written.
    assert_eq!(
        Timestamp::from_timestamp(-8334601228800, 0).unwrap().to_text(),
        "-262143-01-01T00:00:00Z"
    );
    assert_eq!(
        Timestamp::from_timestamp(8210266876799, 0).unwrap().to_text(),
        "+262142-12-31T23:59:59Z"
    );
}

#[test]
fn identifiers() {
    assert_eq!(EventId(0).to_text(), "00000000000000000000000000000000");
    assert_eq!(EventId(u128::MAX).to_text(), "ffffffffffffffffffffffffffffffff");
    assert_eq!(
        EventId::from_text("0123456789abcdef0123456789ABCDEF"),
        Some(EventId(0x0123456789abcdef0123456789abcdef))
    );
    assert_eq!(EventId::from_text("0123"), None);
    assert_ne!(EventId::new(), EventId::new());
}

#[test]
fn random_identifiers_are_marked() {
    for _ in 0..100 {
        let text = EventId::new().to_text();
        assert_eq!(&text[12..13], "4");
        assert!("89ab".contains(&text[16..17]));
    }
}
