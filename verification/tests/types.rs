//! Item types, attachment types and content types.
use envelope::{AttachmentType, ContentType, EventType, ItemType, CONTENT_TYPE};

fn item_types() -> Vec<(ItemType, &'static str)> {
    vec![
        (ItemType::Event, "event"),
        (ItemType::Transaction, "transaction"),
        (ItemType::Security, "security"),
        (ItemType::Attachment, "attachment"),
        (ItemType::FormData, "form_data"),
        (ItemType::RawSecurity, "raw_security"),
        (ItemType::UnrealReport, "unreal_report"),
        (ItemType::UserReport, "user_report"),
        (ItemType::Session, "session"),
        (ItemType::Sessions, "sessions"),
        (ItemType::Statsd, "statsd"),
        (ItemType::MetricBuckets, "metric_buckets"),
        (ItemType::ClientReport, "client_report"),
        (ItemType::Profile, "profile"),
        (ItemType::ReplayEvent, "replay_event"),
        (ItemType::ReplayRecording, "replay_recording"),
        (ItemType::CheckIn, "check_in"),
        (ItemType::Span, "span"),
    ]
}

fn attachment_types() -> Vec<(AttachmentType, &'static str)> {
    vec![
        (AttachmentType::Attachment, "event.attachment"),
        (AttachmentType::Minidump, "event.minidump"),
        (AttachmentType::AppleCrashReport, "event.applecrashreport"),
        (AttachmentType::EventPayload, "event.payload"),
        (AttachmentType::Breadcrumbs, "event.breadcrumbs"),
        (AttachmentType::UnrealContext, "unreal.context"),
        (AttachmentType::UnrealLogs, "unreal.logs"),
        (AttachmentType::ViewHierarchy, "event.view_hierarchy"),
    ]
}

#[test]
fn item_types_have_names() {
    for (ty, name) in item_types() {
        assert_eq!(ty.as_str(), name);
        assert_eq!(ItemType::from_name(name), ty);
        assert_eq!(name.parse::<ItemType>().unwrap(), ty);
        assert_eq!(ty.clone(), ty);
    }
}

#[test]
fn item_types_differ() {
    let types = item_types();
    for (i, (a, _)) in types.iter().enumerate() {
        for (j, (b, _)) in types.iter().enumerate() {
            assert_eq!(a == b, i == j);
        }
        assert_ne!(a, &ItemType::Unknown(a.as_str().to_string()));
    }
}

#[test]
fn unknown_item_type_keeps_its_name() {
    for name in ["", "Event", "event ", "future_type"] {
        let ty = ItemType::from_name(name);
        assert_eq!(ty, ItemType::Unknown(name.to_string()));
        assert_eq!(ty.as_str(), name);
    }
}

#[test]
fn item_type_from_event_type() {
    assert_eq!(ItemType::from_event_type(EventType::Default), ItemType::Event);
    assert_eq!(ItemType::from_event_type(EventType::Error), ItemType::Event);
    assert_eq!(
        ItemType::from_event_type(EventType::Transaction),
        ItemType::Transaction
    );
    for event_type in [
        EventType::Csp,
        EventType::Hpkp,
        EventType::ExpectCt,
        EventType::ExpectStaple,
    ] {
        assert_eq!(ItemType::from_event_type(event_type), ItemType::Security);
    }
}

#[test]
fn attachment_types_have_names() {
    for (ty, name) in attachment_types() {
        assert_eq!(ty.as_str(), name);
        assert_eq!(AttachmentType::from_name(name), ty);
        assert_eq!(name.parse::<AttachmentType>().unwrap(), ty);
        assert_eq!(ty.clone(), ty);
    }
    let unknown = AttachmentType::from_name("event.future");
    assert_eq!(unknown, AttachmentType::Unknown("event.future".to_string()));
    assert_eq!(unknown.as_str(), "event.future");
}

#[test]
fn attachments_are_plain_by_default() {
    assert_eq!(AttachmentType::default(), AttachmentType::Attachment);
}

#[test]
fn content_types_have_texts() {
    for (ty, text) in [
        (ContentType::Text, "text/plain"),
        (ContentType::Json, "application/json"),
        (ContentType::MsgPack, "application/x-msgpack"),
        (ContentType::OctetStream, "application/octet-stream"),
        (ContentType::Minidump, "application/x-dmp"),
        (ContentType::Xml, "text/xml"),
        (ContentType::Envelope, "application/x-sentry-envelope"),
    ] {
        assert_eq!(ty.as_str(), text);
        assert_eq!(ContentType::from(text), ty);
        assert_eq!(ContentType::from(text.to_string()), ty);
        assert_eq!(text.parse::<ContentType>().unwrap(), ty);
        assert_eq!(ContentType::from_text(&text.to_ascii_uppercase()), ty);
    }
    assert_eq!(CONTENT_TYPE, "application/x-sentry-envelope");
}

#[test]
fn xml_has_two_content_types() {
    assert_eq!(ContentType::from("application/xml"), ContentType::Xml);
    assert_eq!(ContentType::from("Application/XML").as_str(), "text/xml");
    assert!(ContentType::Xml == "application/xml");
    assert!(ContentType::Xml == "TEXT/xml");
}

#[test]
fn other_content_type_is_lower_case() {
    assert_eq!(
        "Image/PNG".parse::<ContentType>().unwrap(),
        ContentType::Other("image/png".to_string())
    );
    assert_eq!(
        ContentType::from("Image/PNG"),
        ContentType::Other("image/png".to_string())
    );
    assert_eq!(ContentType::from("Image/PNG".to_string()).as_str(), "image/png");
    // Only ASCII letters are affected.
    assert_eq!(ContentType::from("A/\u{c4}").as_str(), "a/\u{c4}");
}

#[test]
fn content_type_compares_with_texts() {
    let text = "Text/Plain".to_string();
    assert!(ContentType::Text == *"text/plain");
    assert!(ContentType::Text == "TEXT/PLAIN");
    assert!(ContentType::Text == text);
    assert!("text/plain" == ContentType::Text);
    assert!(*"text/plain" == ContentType::Text);
    assert!(text == ContentType::Text);
    assert!(ContentType::Text != "application/json");
    assert!(ContentType::Other("image/png".to_string()) == "IMAGE/png");
    // A text that names a listed content type never names another one.
    assert!(ContentType::Other("text/plain".to_string()) != "text/plain");
}
