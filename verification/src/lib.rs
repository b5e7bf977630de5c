//! Event envelopes.
//!
//! Envelopes are containers for payloads related to events. Similar to multipart form data
//! requests, each envelope has global headers and a set of items, such as the event payload, an
//! attachment, or intermediate payloads.
//!
//! Envelopes have a well-defined serialization format. It is roughly:
//!
//! ```plain
//! <json headers>\n
//! <item headers>\n
//! payload\n
//! ...
//! ```
//!
//! JSON headers and item headers must not contain line breaks, and are written without them.
//! Payloads can be any binary encoding. This is enabled by declaring an explicit length in the item
//! headers. Example:
//!
//! ```plain
//! {"event_id":"9ec79c33ec9942ab8353589fcb2e04dc","dsn": "https://e12d836b15bb49d7bbf99e64295d995b:@sentry.io/42"}
//! {"type":"event","length":41,"content_type":"application/json"}
//! {"message":"hello world","level":"error"}
//! {"type":"attachment","length":7,"content_type":"text/plain","filename":"application.log"}
//! Hello
//!
//! ```
//!
//! What is read from given bytes is stated in [`wire`], up to the JSON values in headers, which
//! `serde_json` reads. That an envelope is read back from what is written for it is part of the
//! contract of [`Envelope::to_vec`]. What else holds of the operations, each by itself and one
//! after another, is stated in the modules of laws: [`read_laws`], [`write_laws`], [`wire_laws`],
//! [`type_laws`], [`meta_laws`], [`item_laws`] and [`envelope_laws`].
use vstd::prelude::*;

pub mod attachment_type;
pub mod content_name;
pub mod content_type;
pub mod convert;
pub mod dsc;
pub mod dsn;
pub mod envelope;
pub mod envelope_laws;
pub mod error;
pub mod event_id;
pub mod fault;
pub mod fields;
pub mod header_map;
pub mod headers;
pub mod item;
pub mod item_headers;
pub mod item_laws;
pub mod item_type;
pub mod items;
pub mod json;
pub mod layout;
pub mod meta;
pub mod meta_laws;
pub mod object;
pub mod payload;
pub mod read_laws;
pub mod split;
pub mod stated;
pub mod text;
pub mod timestamp;
pub mod type_laws;
pub mod views;
pub mod wire;
pub mod wire_laws;
pub mod write;
pub mod write_laws;

pub use crate::attachment_type::AttachmentType;
pub use crate::content_type::{ContentType, CONTENT_TYPE};
pub use crate::dsc::DynamicSamplingContext;
pub use crate::dsn::Dsn;
pub use crate::envelope::Envelope;
pub use crate::error::EnvelopeError;
pub use crate::event_id::EventId;
pub use crate::fault::{Field, HeaderError, HeaderFault};
pub use crate::headers::EnvelopeHeaders;
pub use crate::item::Item;
pub use crate::item_headers::ItemHeaders;
pub use crate::item_type::{DataCategory, EventType, ItemType};
pub use crate::items::{ItemIter, ItemIterMut, Items};
pub use crate::json::Value;
pub use crate::meta::{PartialMeta, RequestMeta};
pub use crate::timestamp::Timestamp;
pub use crate::write::Segment;
