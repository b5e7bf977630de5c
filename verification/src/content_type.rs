//! Payload content types.
use vstd::prelude::*;

verus! {

/// The content type of an envelope.
pub const CONTENT_TYPE: &'static str = "application/x-sentry-envelope";

/// Payload content types.
///
/// This is an optimized enum intended to reduce allocations for common content types.
#[derive(Debug, Eq, Hash, Ord, PartialOrd)]
pub enum ContentType {
    /// text/plain
    Text,
    /// application/json
    Json,
    /// application/x-msgpack
    MsgPack,
    /// application/octet-stream
    OctetStream,
    /// application/x-dmp
    Minidump,
    /// text/xml and application/xml
    Xml,
    /// application/x-sentry-envelope
    Envelope,
    /// Any arbitrary content type not listed explicitly.
    Other(String),
}

/// What a content type stands for.
pub enum ContentTypeView {
    /// See [`ContentType::Text`].
    Text,
    /// See [`ContentType::Json`].
    Json,
    /// See [`ContentType::MsgPack`].
    MsgPack,
    /// See [`ContentType::OctetStream`].
    OctetStream,
    /// See [`ContentType::Minidump`].
    Minidump,
    /// See [`ContentType::Xml`].
    Xml,
    /// See [`ContentType::Envelope`].
    Envelope,
    /// See [`ContentType::Other`].
    Other(Seq<char>),
}

impl View for ContentType {
    type V = ContentTypeView;

    open spec fn view(&self) -> ContentTypeView {
        match self {
            ContentType::Text => ContentTypeView::Text,
            ContentType::Json => ContentTypeView::Json,
            ContentType::MsgPack => ContentTypeView::MsgPack,
            ContentType::OctetStream => ContentTypeView::OctetStream,
            ContentType::Minidump => ContentTypeView::Minidump,
            ContentType::Xml => ContentTypeView::Xml,
            ContentType::Envelope => ContentTypeView::Envelope,
            ContentType::Other(text) => ContentTypeView::Other(text@),
        }
    }
}

/// `c` in lower case, if it is an ASCII letter.
pub open spec fn ascii_lower_char(c: char) -> char {
    if 'A' <= c <= 'Z' {
        ((c as u8) + 32) as char
    } else {
        c
    }
}

/// `text` with its ASCII letters in lower case.
pub open spec fn ascii_lower(text: Seq<char>) -> Seq<char> {
    text.map_values(|c: char| ascii_lower_char(c))
}

/// Whether two texts differ at most in the case of ASCII letters.
pub open spec fn same_ignoring_case(a: Seq<char>, b: Seq<char>) -> bool {
    ascii_lower(a) == ascii_lower(b)
}

/// `str::eq_ignore_ascii_case` of std: whether two strings are the same but for the case of ASCII
/// letters.
pub assume_specification[ str::eq_ignore_ascii_case ](a: &str, b: &str) -> (r: bool)
    ensures
        r == same_ignoring_case(a@, b@),
;

/// `str::to_ascii_lowercase` of std: a copy in which each ASCII letter is in lower case.
pub assume_specification[ str::to_ascii_lowercase ](text: &str) -> (r: String)
    ensures
        r@ == ascii_lower(text@),
;

/// The text of a content type.
pub open spec fn content_type_text(ty: ContentTypeView) -> Seq<char> {
    match ty {
        ContentTypeView::Text => "text/plain"@,
        ContentTypeView::Json => "application/json"@,
        ContentTypeView::MsgPack => "application/x-msgpack"@,
        ContentTypeView::OctetStream => "application/octet-stream"@,
        ContentTypeView::Minidump => "application/x-dmp"@,
        ContentTypeView::Xml => "text/xml"@,
        ContentTypeView::Envelope => "application/x-sentry-envelope"@,
        ContentTypeView::Other(text) => text,
    }
}

/// The listed content type that `text` names in any case, if there is one.
pub open spec fn listed(text: Seq<char>) -> Option<ContentTypeView> {
    if same_ignoring_case(text, "text/plain"@) {
        Some(ContentTypeView::Text)
    } else if same_ignoring_case(text, "application/json"@) {
        Some(ContentTypeView::Json)
    } else if same_ignoring_case(text, "application/x-msgpack"@) {
        Some(ContentTypeView::MsgPack)
    } else if same_ignoring_case(text, "application/octet-stream"@) {
        Some(ContentTypeView::OctetStream)
    } else if same_ignoring_case(text, "application/x-dmp"@) {
        Some(ContentTypeView::Minidump)
    } else if same_ignoring_case(text, "text/xml"@) || same_ignoring_case(
        text,
        "application/xml"@,
    ) {
        Some(ContentTypeView::Xml)
    } else if same_ignoring_case(text, "application/x-sentry-envelope"@) {
        Some(ContentTypeView::Envelope)
    } else {
        None
    }
}

/// The content type that `text` names.
pub open spec fn content_type_of(text: Seq<char>) -> ContentTypeView {
    match listed(text) {
        Some(ty) => ty,
        None => ContentTypeView::Other(ascii_lower(text)),
    }
}

/// Whether `text` names the content type `ty`, in any case and under any alias.
pub open spec fn is_named(ty: ContentTypeView, text: Seq<char>) -> bool {
    match listed(text) {
        Some(other) => other == ty,
        None => same_ignoring_case(text, content_type_text(ty)),
    }
}

/// Whether no listed content type, nor an upper case letter, hides behind [`ContentType::Other`].
pub open spec fn content_type_canonical(ty: ContentTypeView) -> bool {
    ty matches ContentTypeView::Other(text) ==> content_type_of(text) == ty
}

/// Lower case stays as it is.
pub proof fn lemma_ascii_lower_idempotent(text: Seq<char>)
    ensures
        ascii_lower(ascii_lower(text)) == ascii_lower(text),
{
    assert(ascii_lower(ascii_lower(text)) =~= ascii_lower(text));
}

/// Case does not matter to which content type a text names.
pub proof fn lemma_content_type_ignores_case(a: Seq<char>, b: Seq<char>)
    requires
        same_ignoring_case(a, b),
    ensures
        content_type_of(a) == content_type_of(b),
{
}

/// The content type made from a text is named by that text, and is canonical.
pub proof fn lemma_content_type_is_named(text: Seq<char>)
    ensures
        is_named(content_type_of(text), text),
        content_type_canonical(content_type_of(text)),
{
    lemma_ascii_lower_idempotent(text);
}

/// A canonical content type is made from its text.
pub proof fn lemma_content_type_of_text(ty: ContentTypeView)
    requires
        content_type_canonical(ty),
    ensures
        content_type_of(content_type_text(ty)) == ty,
        is_named(ty, content_type_text(ty)),
{
    reveal_strlit("text/plain");
    reveal_strlit("application/json");
    reveal_strlit("application/x-msgpack");
    reveal_strlit("application/octet-stream");
    reveal_strlit("application/x-dmp");
    reveal_strlit("text/xml");
    reveal_strlit("application/x-sentry-envelope");
    reveal_strlit("application/xml");
    assert(ascii_lower("text/plain"@) =~= "text/plain"@);
    assert("text/plain"@.len() == 10);
    assert(ascii_lower("application/json"@) =~= "application/json"@);
    assert("application/json"@.len() == 16);
    assert(ascii_lower("application/x-msgpack"@) =~= "application/x-msgpack"@);
    assert("application/x-msgpack"@.len() == 21);
    assert(ascii_lower("application/octet-stream"@) =~= "application/octet-stream"@);
    assert("application/octet-stream"@.len() == 24);
    assert(ascii_lower("application/x-dmp"@) =~= "application/x-dmp"@);
    assert("application/x-dmp"@.len() == 17);
    assert(ascii_lower("text/xml"@) =~= "text/xml"@);
    assert("text/xml"@.len() == 8);
    assert(ascii_lower("application/x-sentry-envelope"@) =~= "application/x-sentry-envelope"@);
    assert("application/x-sentry-envelope"@.len() == 29);
    assert(ascii_lower("application/xml"@) =~= "application/xml"@);
    assert("application/xml"@.len() == 15);
}

impl ContentType {
    /// The text of this content type.
    #[inline]
    pub fn as_str(&self) -> (r: &str)
        ensures
            r@ == content_type_text(self@),
    {
        match self {
            ContentType::Text => "text/plain",
            ContentType::Json => "application/json",
            ContentType::MsgPack => "application/x-msgpack",
            ContentType::OctetStream => "application/octet-stream",
            ContentType::Minidump => "application/x-dmp",
            ContentType::Xml => "text/xml",
            ContentType::Envelope => CONTENT_TYPE,
            ContentType::Other(text) => text.as_str(),
        }
    }
}

impl PartialEq for ContentType {
    fn eq(&self, other: &Self) -> (r: bool) {
        match (self, other) {
            (ContentType::Text, ContentType::Text) => true,
            (ContentType::Json, ContentType::Json) => true,
            (ContentType::MsgPack, ContentType::MsgPack) => true,
            (ContentType::OctetStream, ContentType::OctetStream) => true,
            (ContentType::Minidump, ContentType::Minidump) => true,
            (ContentType::Xml, ContentType::Xml) => true,
            (ContentType::Envelope, ContentType::Envelope) => true,
            (ContentType::Other(a), ContentType::Other(b)) => *a == *b,
            _ => false,
        }
    }
}

impl vstd::std_specs::cmp::PartialEqSpecImpl for ContentType {
    open spec fn obeys_eq_spec() -> bool {
        true
    }

    open spec fn eq_spec(&self, other: &Self) -> bool {
        self@ == other@
    }
}

impl PartialEq<str> for ContentType {
    fn eq(&self, other: &str) -> (r: bool) {
        self.is_named(other)
    }
}

impl vstd::std_specs::cmp::PartialEqSpecImpl<str> for ContentType {
    open spec fn obeys_eq_spec() -> bool {
        true
    }

    open spec fn eq_spec(&self, other: &str) -> bool {
        is_named(self@, other@)
    }
}

impl<'a> PartialEq<&'a str> for ContentType {
    fn eq(&self, other: &&'a str) -> (r: bool) {
        self.is_named(*other)
    }
}

impl<'a> vstd::std_specs::cmp::PartialEqSpecImpl<&'a str> for ContentType {
    open spec fn obeys_eq_spec() -> bool {
        true
    }

    open spec fn eq_spec(&self, other: &&'a str) -> bool {
        is_named(self@, other@)
    }
}

impl PartialEq<String> for ContentType {
    fn eq(&self, other: &String) -> (r: bool) {
        self.is_named(other.as_str())
    }
}

impl vstd::std_specs::cmp::PartialEqSpecImpl<String> for ContentType {
    open spec fn obeys_eq_spec() -> bool {
        true
    }

    open spec fn eq_spec(&self, other: &String) -> bool {
        is_named(self@, other@)
    }
}

impl<'a> PartialEq<ContentType> for &'a str {
    fn eq(&self, other: &ContentType) -> (r: bool) {
        other.is_named(*self)
    }
}

impl<'a> vstd::std_specs::cmp::PartialEqSpecImpl<ContentType> for &'a str {
    open spec fn obeys_eq_spec() -> bool {
        true
    }

    open spec fn eq_spec(&self, other: &ContentType) -> bool {
        is_named(other@, self@)
    }
}

impl PartialEq<ContentType> for str {
    fn eq(&self, other: &ContentType) -> (r: bool) {
        other.is_named(self)
    }
}

impl vstd::std_specs::cmp::PartialEqSpecImpl<ContentType> for str {
    open spec fn obeys_eq_spec() -> bool {
        true
    }

    open spec fn eq_spec(&self, other: &ContentType) -> bool {
        is_named(other@, self@)
    }
}

impl PartialEq<ContentType> for String {
    fn eq(&self, other: &ContentType) -> (r: bool) {
        other.is_named(self.as_str())
    }
}

impl vstd::std_specs::cmp::PartialEqSpecImpl<ContentType> for String {
    open spec fn obeys_eq_spec() -> bool {
        true
    }

    open spec fn eq_spec(&self, other: &ContentType) -> bool {
        is_named(other@, self@)
    }
}

impl From<String> for ContentType {
    fn from(content_type: String) -> (r: Self)
        ensures
            r@ == content_type_of(content_type@),
    {
        ContentType::from_text(content_type.as_str())
    }
}

impl vstd::std_specs::convert::FromSpecImpl<String> for ContentType {
    open spec fn obeys_from_spec() -> bool {
        false
    }

    open spec fn from_spec(content_type: String) -> Self {
        arbitrary()
    }
}

impl<'a> From<&'a str> for ContentType {
    fn from(content_type: &'a str) -> (r: Self)
        ensures
            r@ == content_type_of(content_type@),
    {
        ContentType::from_text(content_type)
    }
}

impl<'a> vstd::std_specs::convert::FromSpecImpl<&'a str> for ContentType {
    open spec fn obeys_from_spec() -> bool {
        false
    }

    open spec fn from_spec(content_type: &'a str) -> Self {
        arbitrary()
    }
}

impl std::str::FromStr for ContentType {
    type Err = std::convert::Infallible;

    fn from_str(s: &str) -> (r: Result<Self, Self::Err>)
        ensures
            r matches Ok(ty) && ty@ == content_type_of(s@),
    {
        Ok(ContentType::from_text(s))
    }
}

impl Clone for ContentType {
    fn clone(&self) -> (r: Self)
        ensures
            r@ == self@,
    {
        match self {
            ContentType::Text => ContentType::Text,
            ContentType::Json => ContentType::Json,
            ContentType::MsgPack => ContentType::MsgPack,
            ContentType::OctetStream => ContentType::OctetStream,
            ContentType::Minidump => ContentType::Minidump,
            ContentType::Xml => ContentType::Xml,
            ContentType::Envelope => ContentType::Envelope,
            ContentType::Other(text) => ContentType::Other(text.clone()),
        }
    }
}

} // verus!
