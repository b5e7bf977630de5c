//! Access to the items and headers of an envelope.
use envelope::{
    ContentType, Dsn, DynamicSamplingContext, Envelope, EventId, Item, ItemType, RequestMeta,
    Timestamp, Value,
};
use std::time::Instant;

fn meta() -> RequestMeta {
    RequestMeta {
        dsn: Dsn::parse("https://e12d836b15bb49d7bbf99e64295d995b:@sentry.io/42").unwrap(),
        client: None,
        version: 7,
        origin: None,
        remote_addr: None,
        forwarded_for: String::new(),
        user_agent: None,
        start_time: Instant::now(),
    }
}

fn with_names(names: &[&str]) -> Envelope {
    let mut envelope = *Envelope::from_request(Some(EventId(1)), meta());
    for name in names {
        let mut item = Item::new(ItemType::Attachment);
        item.set_filename(*name);
        envelope.add_item(item);
    }
    envelope
}

fn names(envelope: &Envelope) -> Vec<&str> {
    envelope.items().map(|item| item.filename().unwrap()).collect()
}

fn is(name: &'static str) -> impl FnMut(&Item) -> bool {
    move |item: &Item| item.filename() == Some(name)
}

#[test]
fn more_items_than_stand_in_place() {
    let envelope = with_names(&["a", "b", "c", "d", "e"]);
    assert_eq!(envelope.len(), 5);
    assert_eq!(names(&envelope), ["a", "b", "c", "d", "e"]);
}

#[test]
fn first_match_is_found() {
    let mut envelope = with_names(&["a", "b", "c", "b"]);
    assert!(envelope.get_item_by(is("x")).is_none());
    assert!(envelope.get_item_by_mut(is("x")).is_none());
    assert_eq!(envelope.get_item_by(is("b")).unwrap().filename(), Some("b"));
    envelope.get_item_by_mut(is("b")).unwrap().set_filename("changed");
    assert_eq!(names(&envelope), ["a", "changed", "c", "b"]);
}

#[test]
fn predicate_stops_at_the_first_match() {
    let envelope = with_names(&["a", "b", "c"]);
    let mut asked = 0;
    envelope.get_item_by(|item| {
        asked += 1;
        item.filename() == Some("b")
    });
    assert_eq!(asked, 2);
}

#[test]
fn last_item_takes_the_place_of_a_taken_one() {
    let mut envelope = with_names(&["a", "b", "c", "d"]);
    assert_eq!(envelope.take_item_by(is("b")).unwrap().filename(), Some("b"));
    assert_eq!(names(&envelope), ["a", "d", "c"]);
    assert_eq!(envelope.take_item_by(is("c")).unwrap().filename(), Some("c"));
    assert_eq!(names(&envelope), ["a", "d"]);
    assert!(envelope.take_item_by(is("c")).is_none());
    assert_eq!(names(&envelope), ["a", "d"]);
}

#[test]
fn items_are_taken_with_a_copy_of_the_headers() {
    let mut envelope = with_names(&["a", "b"]);
    envelope.set_retention(9);
    envelope.set_header("h", 1u64);
    let taken = envelope.take_items();
    assert!(envelope.is_empty());
    assert_eq!(envelope.retention(), 9);
    assert_eq!(names(&taken), ["a", "b"]);
    assert_eq!(taken.retention(), 9);
    assert_eq!(taken.event_id(), Some(EventId(1)));
    assert_eq!(taken.get_header("h"), Some(&Value::from(1u64)));
}

#[test]
fn split_keeps_order_and_headers() {
    let mut envelope = with_names(&["a", "b", "c", "d", "e"]);
    envelope.set_header("h", 1u64);
    let split = envelope
        .split_by(|item| matches!(item.filename(), Some("b") | Some("c") | Some("e")))
        .unwrap();
    assert_eq!(names(&split), ["b", "c", "e"]);
    assert_eq!(names(&envelope), ["a", "d"]);
    assert_eq!(split.get_header("h"), Some(&Value::from(1u64)));
    assert_eq!(envelope.get_header("h"), Some(&Value::from(1u64)));
}

#[test]
fn empty_envelope_is_not_split() {
    let mut envelope = with_names(&[]);
    assert!(envelope.split_by(|_| true).is_none());
    assert!(envelope.split_by(|_| false).is_none());
}

#[test]
fn unsplit_envelope_keeps_its_items() {
    let mut envelope = with_names(&["a", "b"]);
    assert!(envelope.split_by(|_| true).is_none());
    assert_eq!(names(&envelope), ["a", "b"]);
    assert!(envelope.split_by(|_| false).is_none());
    assert_eq!(names(&envelope), ["a", "b"]);
}

#[test]
fn split_asks_twice() {
    let mut envelope = with_names(&["a", "b"]);
    let mut asked: Vec<String> = Vec::new();
    envelope.split_by(|item| {
        asked.push(item.filename().unwrap().to_string());
        item.filename() == Some("a")
    });
    assert_eq!(asked, ["a", "b", "a", "b"]);
}

#[test]
fn retain_can_change_items() {
    let mut envelope = with_names(&["a", "b", "c", "d"]);
    let mut asked = 0;
    envelope.retain_items(|item| {
        asked += 1;
        let keep = item.filename() != Some("b");
        item.set_filename(format!("{}{}", item.filename().unwrap(), asked));
        keep
    });
    assert_eq!(names(&envelope), ["a1", "c3", "d4"]);
    envelope.retain_items(|_| false);
    assert!(envelope.is_empty());
}

#[test]
fn items_can_be_changed_in_place() {
    let mut envelope = with_names(&["a", "b"]);
    for item in envelope.items_mut() {
        item.set_payload(ContentType::Text, "x");
    }
    assert!(envelope.items().all(|item| item.len() == 1));
    assert_eq!(envelope.items_mut().len(), 2);
}

#[test]
fn headers_of_an_envelope() {
    let mut envelope = *Envelope::from_request(None, meta());
    assert_eq!(envelope.event_id(), None);
    assert_eq!(envelope.retention(), 90);
    assert!(envelope.sent_at().is_none());
    assert!(envelope.dsc().is_none());
    assert_eq!(envelope.get_header("h"), None);

    envelope.set_retention(1);
    assert_eq!(envelope.retention(), 1);
    let time = Timestamp::from_timestamp(5, 0).unwrap();
    envelope.set_sent_at(time);
    assert_eq!(envelope.sent_at(), Some(time));
    let mut dsc = DynamicSamplingContext::new();
    assert_eq!(dsc.insert("a".to_string(), Value::Null), None);
    assert_eq!(dsc.insert("a".to_string(), Value::Bool(true)), Some(Value::Null));
    envelope.set_dsc(dsc);
    assert_eq!(envelope.dsc().unwrap().get("a"), Some(&Value::Bool(true)));
    assert_eq!(envelope.set_header("h", 1u64), None);
    assert_eq!(envelope.set_header("h", true), Some(Value::from(1u64)));
    assert_eq!(envelope.get_header("h"), Some(&Value::Bool(true)));
}

#[test]
fn start_time_can_be_set() {
    let mut envelope = *Envelope::from_request(None, meta());
    let start = Instant::now();
    envelope.set_start_time(start);
    assert_eq!(envelope.meta().start_time(), start);
    envelope.meta_mut().client = Some("c".to_string());
    assert_eq!(envelope.meta().client(), Some("c"));
    assert_eq!(envelope.meta().start_time(), start);
}

#[test]
fn clone_has_its_own_items() {
    let mut envelope = with_names(&["a"]);
    let copy = envelope.clone();
    envelope.retain_items(|_| false);
    assert_eq!(names(&copy), ["a"]);
    assert_eq!(copy.event_id(), Some(EventId(1)));
}
