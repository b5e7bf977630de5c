//! Finding the content type that a text names.
use crate::content_type::{content_type_of, is_named, listed, ContentType};
use vstd::prelude::*;

verus! {

impl ContentType {
    /// The listed content type that `ct` names in any case, if there is one.
    ///
    /// Outside of this module `from_str` is that of `std::str::FromStr`.
    fn from_str(ct: &str) -> (r: Option<Self>)
        ensures
            match r {
                Some(ty) => listed(ct@) == Some(ty@),
                None => listed(ct@) is None,
            },
    {
        if ct.eq_ignore_ascii_case(ContentType::Text.as_str()) {
            Some(ContentType::Text)
        } else if ct.eq_ignore_ascii_case(ContentType::Json.as_str()) {
            Some(ContentType::Json)
        } else if ct.eq_ignore_ascii_case(ContentType::MsgPack.as_str()) {
            Some(ContentType::MsgPack)
        } else if ct.eq_ignore_ascii_case(ContentType::OctetStream.as_str()) {
            Some(ContentType::OctetStream)
        } else if ct.eq_ignore_ascii_case(ContentType::Minidump.as_str()) {
            Some(ContentType::Minidump)
        } else if ct.eq_ignore_ascii_case(ContentType::Xml.as_str())
            || ct.eq_ignore_ascii_case("application/xml")
        {
            Some(ContentType::Xml)
        } else if ct.eq_ignore_ascii_case(ContentType::Envelope.as_str()) {
            Some(ContentType::Envelope)
        } else {
            None
        }
    }

    /// The content type that `content_type` names.
    pub fn from_text(content_type: &str) -> (r: Self)
        ensures
            r@ == content_type_of(content_type@),
    {
        match ContentType::from_str(content_type) {
            Some(ty) => ty,
            None => ContentType::Other(content_type.to_ascii_lowercase()),
        }
    }

    /// Whether `text` names this content type, in any case and under any alias.
    pub fn is_named(&self, text: &str) -> (r: bool)
        ensures
            r == is_named(self@, text@),
    {
        // Take an indirection via `from_str` to also check aliases. Do not allocate in case there
        // is no mapping.
        match ContentType::from_str(text) {
            Some(ty) => ty == *self,
            None => text.eq_ignore_ascii_case(self.as_str()),
        }
    }
}

} // verus!
