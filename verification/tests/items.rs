//! Items and what their headers say.
use bytes::Bytes;
use envelope::item_headers::is_false;
use envelope::payload::cut_off;
use envelope::{AttachmentType, ContentType, DataCategory, Item, ItemType, Value};

fn header(item: &Item) -> String {
    String::from_utf8(item.header_text()).unwrap()
}

#[test]
fn quantity_of_attachments_is_their_size() {
    let mut item = Item::new(ItemType::Attachment);
    assert_eq!(item.quantity(), 0);
    item.set_payload(ContentType::OctetStream, vec![0u8; 1]);
    assert_eq!(item.quantity(), 1);
    item.set_payload(ContentType::OctetStream, vec![0u8; 12]);
    assert_eq!(item.quantity(), 12);

    let mut item = Item::new(ItemType::Event);
    item.set_payload(ContentType::Json, vec![0u8; 12]);
    assert_eq!(item.quantity(), 1);
}

#[test]
fn outcome_categories() {
    for (ty, plain, indexed) in [
        (ItemType::Event, Some(DataCategory::Error), Some(DataCategory::Error)),
        (
            ItemType::Transaction,
            Some(DataCategory::Transaction),
            Some(DataCategory::TransactionIndexed),
        ),
        (ItemType::Security, Some(DataCategory::Security), Some(DataCategory::Security)),
        (ItemType::RawSecurity, Some(DataCategory::Security), Some(DataCategory::Security)),
        (ItemType::UnrealReport, Some(DataCategory::Error), Some(DataCategory::Error)),
        (ItemType::Attachment, Some(DataCategory::Attachment), Some(DataCategory::Attachment)),
        (ItemType::Session, None, None),
        (ItemType::Sessions, None, None),
        (ItemType::Statsd, None, None),
        (ItemType::MetricBuckets, None, None),
        (ItemType::FormData, None, None),
        (ItemType::UserReport, None, None),
        (
            ItemType::Profile,
            Some(DataCategory::Profile),
            Some(DataCategory::ProfileIndexed),
        ),
        (ItemType::ReplayEvent, Some(DataCategory::Replay), Some(DataCategory::Replay)),
        (ItemType::ReplayRecording, Some(DataCategory::Replay), Some(DataCategory::Replay)),
        (ItemType::ClientReport, None, None),
        (ItemType::CheckIn, Some(DataCategory::Monitor), Some(DataCategory::Monitor)),
        (ItemType::Span, None, None),
        (ItemType::Unknown("new".to_string()), None, None),
    ] {
        let item = Item::new(ty);
        assert_eq!(item.outcome_category(false), plain);
        assert_eq!(item.outcome_category(true), indexed);
    }
}

#[test]
fn events_created_and_required() {
    for (ty, creates, requires) in [
        (ItemType::Event, true, true),
        (ItemType::Transaction, true, true),
        (ItemType::Security, true, true),
        (ItemType::RawSecurity, true, true),
        (ItemType::UnrealReport, true, true),
        (ItemType::Attachment, false, true),
        (ItemType::FormData, false, true),
        (ItemType::UserReport, false, true),
        (ItemType::ReplayEvent, false, true),
        (ItemType::Profile, false, true),
        (ItemType::Session, false, false),
        (ItemType::Sessions, false, false),
        (ItemType::Statsd, false, true),
        (ItemType::MetricBuckets, false, true),
        (ItemType::ClientReport, false, true),
        (ItemType::ReplayRecording, false, true),
        (ItemType::CheckIn, false, true),
        (ItemType::Span, false, true),
        (ItemType::Unknown("new".to_string()), false, false),
    ] {
        let item = Item::new(ty);
        assert_eq!(item.creates_event(), creates);
        assert_eq!(item.requires_event(), requires);
        assert!(!item.creates_event() || item.requires_event());
        assert!(!item.creates_event() || item.outcome_category(false).is_some());
    }
}

#[test]
fn attachments_that_create_events() {
    for (ty, creates) in [
        (AttachmentType::AppleCrashReport, true),
        (AttachmentType::Minidump, true),
        (AttachmentType::EventPayload, true),
        (AttachmentType::Breadcrumbs, true),
        (AttachmentType::Attachment, false),
        (AttachmentType::UnrealContext, false),
        (AttachmentType::UnrealLogs, false),
        (AttachmentType::ViewHierarchy, false),
        (AttachmentType::Unknown("new".to_string()), false),
    ] {
        let mut item = Item::new(ItemType::Attachment);
        item.set_attachment_type(ty.clone());
        assert_eq!(item.attachment_type(), Some(&ty));
        assert_eq!(item.creates_event(), creates);
        // The attachment type matters to attachments only.
        let mut item = Item::new(ItemType::Session);
        item.set_attachment_type(ty);
        assert!(!item.creates_event());
    }
}

#[test]
fn setters_are_read_back() {
    let mut item = Item::new(ItemType::Attachment);
    assert_eq!(item.filename(), None);
    assert_eq!(item.attachment_type(), None);
    assert!(!item.rate_limited());
    assert!(!item.metrics_extracted());

    item.set_filename("a.txt".to_string());
    item.set_rate_limited(true);
    item.set_metrics_extracted(true);
    assert_eq!(item.filename(), Some("a.txt"));
    assert!(item.rate_limited());
    assert!(item.metrics_extracted());

    item.set_filename("b.txt");
    item.set_rate_limited(false);
    item.set_metrics_extracted(false);
    assert_eq!(item.filename(), Some("b.txt"));
    assert!(!item.rate_limited());
    assert!(!item.metrics_extracted());
    assert_eq!(item.ty(), &ItemType::Attachment);
}

#[test]
fn payload_replaces_length_and_content_type() {
    let mut item = Item::new(ItemType::Event);
    item.set_filename("kept");
    item.set_payload(ContentType::Json, "{}");
    assert_eq!(header(&item), r#"{"type":"event","length":2,"content_type":"application/json","filename":"kept"}"#);
    item.set_payload(ContentType::Text, Bytes::from_static(b"a\nb"));
    assert_eq!(item.payload(), Bytes::from_static(b"a\nb"));
    assert_eq!(item.len(), 3);
    assert_eq!(header(&item), r#"{"type":"event","length":3,"content_type":"text/plain","filename":"kept"}"#);
}

#[test]
fn payloads_are_cut_off() {
    let payload = Bytes::from_static(b"abcdef");
    assert_eq!(cut_off(payload.clone(), 4), Bytes::from_static(b"abcd"));
    assert_eq!(cut_off(payload.clone(), 6), payload);
    assert_eq!(cut_off(payload.clone(), 7), payload);
    assert_eq!(cut_off(payload, 0), Bytes::new());
}

#[test]
fn sample_rates_must_be_an_array() {
    let mut item = Item::new(ItemType::Transaction);
    assert_eq!(item.take_sample_rates(), None);

    for ignored in [
        Value::Null,
        Value::Array(vec![]),
        Value::Object(vec![]),
        Value::from(1u64),
        Value::String("rates".to_string()),
    ] {
        item.set_sample_rates(ignored);
        assert_eq!(item.take_sample_rates(), None);
    }

    let rates = Value::Array(vec![Value::Object(vec![("id".to_string(), Value::from(1u64))])]);
    item.set_sample_rates(rates.clone());
    // What is ignored does not remove what is there.
    item.set_sample_rates(Value::Null);
    assert_eq!(header(&item), r#"{"type":"transaction","length":0,"sample_rates":[{"id":1}]}"#);
    assert_eq!(item.take_sample_rates(), Some(rates));
    assert_eq!(item.take_sample_rates(), None);
}

#[test]
fn headers_are_written_in_order() {
    let mut item = Item::new(ItemType::Attachment);
    assert_eq!(header(&item), r#"{"type":"attachment","length":0}"#);
    item.set_header("zebra", true);
    item.set_header("apple", -5i64);
    item.set_header("quote", "a\"\n".to_string());
    item.set_metrics_extracted(true);
    item.set_rate_limited(true);
    item.set_attachment_type(AttachmentType::Minidump);
    item.set_payload(ContentType::from("Image/PNG"), "x");
    item.set_filename("f");
    assert_eq!(
        header(&item),
        r#"{"type":"attachment","length":1,"attachment_type":"event.minidump","content_type":"image/png","filename":"f","metrics_extracted":true,"apple":-5,"quote":"a\"\n","zebra":true}"#
    );
}

#[test]
fn header_values_replace_each_other() {
    let mut item = Item::new(ItemType::Event);
    assert_eq!(item.set_header("b", 1u64), None);
    assert_eq!(item.set_header("a", 2u64), None);
    assert_eq!(item.set_header("b", 3u64), Some(Value::from(1u64)));
    assert_eq!(item.get_header("a"), Some(&Value::from(2u64)));
    assert_eq!(item.get_header("b"), Some(&Value::from(3u64)));
    assert_eq!(item.get_header("c"), None);
    // The fields that the format defines are not among them.
    assert_eq!(item.get_header("type"), None);
}

#[test]
fn clone_is_independent() {
    let mut item = Item::new(ItemType::Event);
    item.set_payload(ContentType::Json, "{}");
    let copy = item.clone();
    item.set_payload(ContentType::Text, "changed");
    item.set_header("x", 1u64);
    assert_eq!(copy.payload(), Bytes::from_static(b"{}"));
    assert_eq!(copy.content_type(), Some(&ContentType::Json));
    assert_eq!(copy.get_header("x"), None);
}

#[test]
fn flags_that_are_not_written() {
    assert!(is_false(&false));
    assert!(!is_false(&true));
}
