//! The type of an envelope item.
use crate::text::same_text;
use vstd::prelude::*;

verus! {

/// The type of an event.
#[derive(Clone, Copy, Debug, PartialEq, Eq, Structural)]
pub enum EventType {
    /// Events that carry an exception payload.
    Error,
    /// Events without a more specific type.
    Default,
    /// A CSP violation payload.
    Csp,
    /// An HPKP violation payload.
    Hpkp,
    /// An ExpectCT violation payload.
    ExpectCt,
    /// An ExpectStaple violation payload.
    ExpectStaple,
    /// Performance monitoring transactions.
    Transaction,
}

/// The category of data that an item counts towards.
#[derive(Clone, Copy, Debug, PartialEq, Eq, Structural)]
pub enum DataCategory {
    /// Error events.
    Error,
    /// Transaction events.
    Transaction,
    /// Indexed transaction events.
    TransactionIndexed,
    /// Events with security reports.
    Security,
    /// Attachment bytes stored (unused for rate limiting).
    Attachment,
    /// Profiles.
    Profile,
    /// Indexed profiles.
    ProfileIndexed,
    /// Session replays.
    Replay,
    /// Monitor check-ins.
    Monitor,
}

/// The type of an envelope item.
#[derive(Debug, Eq, Hash, Ord, PartialOrd)]
pub enum ItemType {
    /// Event payload encoded in JSON.
    Event,
    /// Transaction event payload encoded in JSON.
    Transaction,
    /// Security report event payload encoded in JSON.
    Security,
    /// Raw payload of an arbitrary attachment.
    Attachment,
    /// Multipart form data collected into a stream of JSON tuples.
    FormData,
    /// Security report as sent by the browser in JSON.
    RawSecurity,
    /// Raw compressed UE4 crash report.
    UnrealReport,
    /// User feedback encoded as JSON.
    UserReport,
    /// Session update data.
    Session,
    /// Aggregated session data.
    Sessions,
    /// Individual metrics in text encoding.
    Statsd,
    /// Buckets of preaggregated metrics encoded as JSON.
    MetricBuckets,
    /// Client internal report (eg: outcomes).
    ClientReport,
    /// Profile event payload encoded as JSON.
    Profile,
    /// Replay metadata and breadcrumb payload.
    ReplayEvent,
    /// Replay Recording data.
    ReplayRecording,
    /// Monitor check-in encoded as JSON.
    CheckIn,
    /// A standalone span.
    Span,
    /// A new item type that is yet unknown.
    ///
    /// By default, items of this type are forwarded without modification. This allows
    /// forward-compatibility with new item types.
    Unknown(String),
}

/// What an item type stands for.
pub enum ItemTypeView {
    /// See [`ItemType::Event`].
    Event,
    /// See [`ItemType::Transaction`].
    Transaction,
    /// See [`ItemType::Security`].
    Security,
    /// See [`ItemType::Attachment`].
    Attachment,
    /// See [`ItemType::FormData`].
    FormData,
    /// See [`ItemType::RawSecurity`].
    RawSecurity,
    /// See [`ItemType::UnrealReport`].
    UnrealReport,
    /// See [`ItemType::UserReport`].
    UserReport,
    /// See [`ItemType::Session`].
    Session,
    /// See [`ItemType::Sessions`].
    Sessions,
    /// See [`ItemType::Statsd`].
    Statsd,
    /// See [`ItemType::MetricBuckets`].
    MetricBuckets,
    /// See [`ItemType::ClientReport`].
    ClientReport,
    /// See [`ItemType::Profile`].
    Profile,
    /// See [`ItemType::ReplayEvent`].
    ReplayEvent,
    /// See [`ItemType::ReplayRecording`].
    ReplayRecording,
    /// See [`ItemType::CheckIn`].
    CheckIn,
    /// See [`ItemType::Span`].
    Span,
    /// See [`ItemType::Unknown`].
    Unknown(Seq<char>),
}

impl View for ItemType {
    type V = ItemTypeView;

    open spec fn view(&self) -> ItemTypeView {
        match self {
            ItemType::Event => ItemTypeView::Event,
            ItemType::Transaction => ItemTypeView::Transaction,
            ItemType::Security => ItemTypeView::Security,
            ItemType::Attachment => ItemTypeView::Attachment,
            ItemType::FormData => ItemTypeView::FormData,
            ItemType::RawSecurity => ItemTypeView::RawSecurity,
            ItemType::UnrealReport => ItemTypeView::UnrealReport,
            ItemType::UserReport => ItemTypeView::UserReport,
            ItemType::Session => ItemTypeView::Session,
            ItemType::Sessions => ItemTypeView::Sessions,
            ItemType::Statsd => ItemTypeView::Statsd,
            ItemType::MetricBuckets => ItemTypeView::MetricBuckets,
            ItemType::ClientReport => ItemTypeView::ClientReport,
            ItemType::Profile => ItemTypeView::Profile,
            ItemType::ReplayEvent => ItemTypeView::ReplayEvent,
            ItemType::ReplayRecording => ItemTypeView::ReplayRecording,
            ItemType::CheckIn => ItemTypeView::CheckIn,
            ItemType::Span => ItemTypeView::Span,
            ItemType::Unknown(name) => ItemTypeView::Unknown(name@),
        }
    }
}

/// The name of an item type.
pub open spec fn item_type_name(ty: ItemTypeView) -> Seq<char> {
    match ty {
        ItemTypeView::Event => "event"@,
        ItemTypeView::Transaction => "transaction"@,
        ItemTypeView::Security => "security"@,
        ItemTypeView::Attachment => "attachment"@,
        ItemTypeView::FormData => "form_data"@,
        ItemTypeView::RawSecurity => "raw_security"@,
        ItemTypeView::UnrealReport => "unreal_report"@,
        ItemTypeView::UserReport => "user_report"@,
        ItemTypeView::Session => "session"@,
        ItemTypeView::Sessions => "sessions"@,
        ItemTypeView::Statsd => "statsd"@,
        ItemTypeView::MetricBuckets => "metric_buckets"@,
        ItemTypeView::ClientReport => "client_report"@,
        ItemTypeView::Profile => "profile"@,
        ItemTypeView::ReplayEvent => "replay_event"@,
        ItemTypeView::ReplayRecording => "replay_recording"@,
        ItemTypeView::CheckIn => "check_in"@,
        ItemTypeView::Span => "span"@,
        ItemTypeView::Unknown(name) => name,
    }
}

/// The item type with the given name.
pub open spec fn item_type_of(name: Seq<char>) -> ItemTypeView {
    if name == "event"@ {
        ItemTypeView::Event
    } else if name == "transaction"@ {
        ItemTypeView::Transaction
    } else if name == "security"@ {
        ItemTypeView::Security
    } else if name == "attachment"@ {
        ItemTypeView::Attachment
    } else if name == "form_data"@ {
        ItemTypeView::FormData
    } else if name == "raw_security"@ {
        ItemTypeView::RawSecurity
    } else if name == "unreal_report"@ {
        ItemTypeView::UnrealReport
    } else if name == "user_report"@ {
        ItemTypeView::UserReport
    } else if name == "session"@ {
        ItemTypeView::Session
    } else if name == "sessions"@ {
        ItemTypeView::Sessions
    } else if name == "statsd"@ {
        ItemTypeView::Statsd
    } else if name == "metric_buckets"@ {
        ItemTypeView::MetricBuckets
    } else if name == "client_report"@ {
        ItemTypeView::ClientReport
    } else if name == "profile"@ {
        ItemTypeView::Profile
    } else if name == "replay_event"@ {
        ItemTypeView::ReplayEvent
    } else if name == "replay_recording"@ {
        ItemTypeView::ReplayRecording
    } else if name == "check_in"@ {
        ItemTypeView::CheckIn
    } else if name == "span"@ {
        ItemTypeView::Span
    } else {
        ItemTypeView::Unknown(name)
    }
}

/// Whether no known item type hides behind [`ItemType::Unknown`].
pub open spec fn item_type_canonical(ty: ItemTypeView) -> bool {
    ty matches ItemTypeView::Unknown(name) ==> item_type_of(name) == ty
}

/// The item type made from a name has that name.
pub proof fn lemma_item_type_name_of(name: Seq<char>)
    ensures
        item_type_name(item_type_of(name)) == name,
        item_type_canonical(item_type_of(name)),
{
}

/// A canonical item type is made from its name.
pub proof fn lemma_item_type_of_name(ty: ItemTypeView)
    requires
        item_type_canonical(ty),
    ensures
        item_type_of(item_type_name(ty)) == ty,
{
    reveal_strlit("event");
    reveal_strlit("transaction");
    reveal_strlit("security");
    reveal_strlit("attachment");
    reveal_strlit("form_data");
    reveal_strlit("raw_security");
    reveal_strlit("unreal_report");
    reveal_strlit("user_report");
    reveal_strlit("session");
    reveal_strlit("sessions");
    reveal_strlit("statsd");
    reveal_strlit("metric_buckets");
    reveal_strlit("client_report");
    reveal_strlit("profile");
    reveal_strlit("replay_event");
    reveal_strlit("replay_recording");
    reveal_strlit("check_in");
    reveal_strlit("span");
    assert("event"@.len() == 5);
    assert("transaction"@.len() == 11);
    assert("security"@.len() == 8);
    assert("attachment"@.len() == 10);
    assert("form_data"@.len() == 9);
    assert("raw_security"@.len() == 12);
    assert("unreal_report"@.len() == 13);
    assert("user_report"@.len() == 11);
    assert("session"@.len() == 7);
    assert("sessions"@.len() == 8);
    assert("statsd"@.len() == 6);
    assert("metric_buckets"@.len() == 14);
    assert("client_report"@.len() == 13);
    assert("profile"@.len() == 7);
    assert("replay_event"@.len() == 12);
    assert("replay_recording"@.len() == 16);
    assert("check_in"@.len() == 8);
    assert("span"@.len() == 4);
    assert("transaction"@[0] != "user_report"@[0]);
    assert("security"@[2] != "sessions"@[2]);
    assert("security"@[0] != "check_in"@[0]);
    assert("raw_security"@[1] != "replay_event"@[1]);
    assert("unreal_report"@[0] != "client_report"@[0]);
    assert("session"@[0] != "profile"@[0]);
    assert("sessions"@[0] != "check_in"@[0]);
}

impl ItemType {
    /// The name of this item type.
    pub fn as_str(&self) -> (r: &str)
        ensures
            r@ == item_type_name(self@),
    {
        match self {
            ItemType::Event => "event",
            ItemType::Transaction => "transaction",
            ItemType::Security => "security",
            ItemType::Attachment => "attachment",
            ItemType::FormData => "form_data",
            ItemType::RawSecurity => "raw_security",
            ItemType::UnrealReport => "unreal_report",
            ItemType::UserReport => "user_report",
            ItemType::Session => "session",
            ItemType::Sessions => "sessions",
            ItemType::Statsd => "statsd",
            ItemType::MetricBuckets => "metric_buckets",
            ItemType::ClientReport => "client_report",
            ItemType::Profile => "profile",
            ItemType::ReplayEvent => "replay_event",
            ItemType::ReplayRecording => "replay_recording",
            ItemType::CheckIn => "check_in",
            ItemType::Span => "span",
            ItemType::Unknown(name) => name.as_str(),
        }
    }

    /// The item type with the given name.
    pub fn from_name(name: &str) -> (r: Self)
        ensures
            r@ == item_type_of(name@),
    {
        if same_text(name, "event") {
            ItemType::Event
        } else if same_text(name, "transaction") {
            ItemType::Transaction
        } else if same_text(name, "security") {
            ItemType::Security
        } else if same_text(name, "attachment") {
            ItemType::Attachment
        } else if same_text(name, "form_data") {
            ItemType::FormData
        } else if same_text(name, "raw_security") {
            ItemType::RawSecurity
        } else if same_text(name, "unreal_report") {
            ItemType::UnrealReport
        } else if same_text(name, "user_report") {
            ItemType::UserReport
        } else if same_text(name, "session") {
            ItemType::Session
        } else if same_text(name, "sessions") {
            ItemType::Sessions
        } else if same_text(name, "statsd") {
            ItemType::Statsd
        } else if same_text(name, "metric_buckets") {
            ItemType::MetricBuckets
        } else if same_text(name, "client_report") {
            ItemType::ClientReport
        } else if same_text(name, "profile") {
            ItemType::Profile
        } else if same_text(name, "replay_event") {
            ItemType::ReplayEvent
        } else if same_text(name, "replay_recording") {
            ItemType::ReplayRecording
        } else if same_text(name, "check_in") {
            ItemType::CheckIn
        } else if same_text(name, "span") {
            ItemType::Span
        } else {
            ItemType::Unknown(name.to_owned())
        }
    }
}

impl Clone for ItemType {
    fn clone(&self) -> (r: Self)
        ensures
            r@ == self@,
    {
        match self {
            ItemType::Event => ItemType::Event,
            ItemType::Transaction => ItemType::Transaction,
            ItemType::Security => ItemType::Security,
            ItemType::Attachment => ItemType::Attachment,
            ItemType::FormData => ItemType::FormData,
            ItemType::RawSecurity => ItemType::RawSecurity,
            ItemType::UnrealReport => ItemType::UnrealReport,
            ItemType::UserReport => ItemType::UserReport,
            ItemType::Session => ItemType::Session,
            ItemType::Sessions => ItemType::Sessions,
            ItemType::Statsd => ItemType::Statsd,
            ItemType::MetricBuckets => ItemType::MetricBuckets,
            ItemType::ClientReport => ItemType::ClientReport,
            ItemType::Profile => ItemType::Profile,
            ItemType::ReplayEvent => ItemType::ReplayEvent,
            ItemType::ReplayRecording => ItemType::ReplayRecording,
            ItemType::CheckIn => ItemType::CheckIn,
            ItemType::Span => ItemType::Span,
            ItemType::Unknown(name) => ItemType::Unknown(name.clone()),
        }
    }
}

impl PartialEq for ItemType {
    fn eq(&self, other: &Self) -> (r: bool) {
        match (self, other) {
            (ItemType::Event, ItemType::Event) => true,
            (ItemType::Transaction, ItemType::Transaction) => true,
            (ItemType::Security, ItemType::Security) => true,
            (ItemType::Attachment, ItemType::Attachment) => true,
            (ItemType::FormData, ItemType::FormData) => true,
            (ItemType::RawSecurity, ItemType::RawSecurity) => true,
            (ItemType::UnrealReport, ItemType::UnrealReport) => true,
            (ItemType::UserReport, ItemType::UserReport) => true,
            (ItemType::Session, ItemType::Session) => true,
            (ItemType::Sessions, ItemType::Sessions) => true,
            (ItemType::Statsd, ItemType::Statsd) => true,
            (ItemType::MetricBuckets, ItemType::MetricBuckets) => true,
            (ItemType::ClientReport, ItemType::ClientReport) => true,
            (ItemType::Profile, ItemType::Profile) => true,
            (ItemType::ReplayEvent, ItemType::ReplayEvent) => true,
            (ItemType::ReplayRecording, ItemType::ReplayRecording) => true,
            (ItemType::CheckIn, ItemType::CheckIn) => true,
            (ItemType::Span, ItemType::Span) => true,
            (ItemType::Unknown(a), ItemType::Unknown(b)) => *a == *b,
            _ => false,
        }
    }
}

impl vstd::std_specs::cmp::PartialEqSpecImpl for ItemType {
    open spec fn obeys_eq_spec() -> bool {
        true
    }

    open spec fn eq_spec(&self, other: &Self) -> bool {
        self@ == other@
    }
}

impl std::str::FromStr for ItemType {
    type Err = std::convert::Infallible;

    fn from_str(name: &str) -> (r: Result<Self, Self::Err>)
        ensures
            r matches Ok(ty) && ty@ == item_type_of(name@),
    {
        Ok(ItemType::from_name(name))
    }
}

impl ItemType {
    /// Returns the event item type corresponding to the given `EventType`.
    pub fn from_event_type(event_type: EventType) -> (r: Self)
        ensures
            r@ == (match event_type {
                EventType::Default | EventType::Error => ItemTypeView::Event,
                EventType::Transaction => ItemTypeView::Transaction,
                _ => ItemTypeView::Security,
            }),
    {
        match event_type {
            EventType::Default | EventType::Error => ItemType::Event,
            EventType::Transaction => ItemType::Transaction,
            EventType::Csp | EventType::Hpkp | EventType::ExpectCt | EventType::ExpectStaple => {
                ItemType::Security
            },
        }
    }
}

} // verus!
