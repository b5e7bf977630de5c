//! Laws of names: of item types, attachment types and content types, and of their order.
use crate::attachment_type::{
    attachment_type_name, lemma_attachment_type_name_of, lemma_attachment_type_of_name,
    AttachmentType, AttachmentTypeView,
};
use crate::content_type::{
    ascii_lower, content_type_canonical, content_type_of, content_type_text, is_named,
    lemma_ascii_lower_idempotent, lemma_content_type_of_text, ContentType, ContentTypeView,
};
use crate::item_type::{
    item_type_name, lemma_item_type_name_of, lemma_item_type_of_name, ItemType,
    ItemTypeView,
};
use crate::text::before;
use vstd::prelude::*;
use vstd::std_specs::cmp::PartialEqSpec;

verus! {

proof fn lemma_listed_texts()
    ensures
        ascii_lower("text/plain"@) == "text/plain"@,
        ascii_lower("application/json"@) == "application/json"@,
        ascii_lower("application/x-msgpack"@) == "application/x-msgpack"@,
        ascii_lower("application/octet-stream"@) == "application/octet-stream"@,
        ascii_lower("application/x-dmp"@) == "application/x-dmp"@,
        ascii_lower("text/xml"@) == "text/xml"@,
        ascii_lower("application/x-sentry-envelope"@) == "application/x-sentry-envelope"@,
        ascii_lower("application/xml"@) == "application/xml"@,
        "text/plain"@.len() == 10,
        "application/json"@.len() == 16,
        "application/x-msgpack"@.len() == 21,
        "application/octet-stream"@.len() == 24,
        "application/x-dmp"@.len() == 17,
        "text/xml"@.len() == 8,
        "application/x-sentry-envelope"@.len() == 29,
        "application/xml"@.len() == 15,
{
    reveal_strlit("text/plain");
    reveal_strlit("application/json");
    reveal_strlit("application/x-msgpack");
    reveal_strlit("application/octet-stream");
    reveal_strlit("application/x-dmp");
    reveal_strlit("text/xml");
    reveal_strlit("application/x-sentry-envelope");
    reveal_strlit("application/xml");
    assert(ascii_lower("text/plain"@) =~= "text/plain"@);
    assert(ascii_lower("application/json"@) =~= "application/json"@);
    assert(ascii_lower("application/x-msgpack"@) =~= "application/x-msgpack"@);
    assert(ascii_lower("application/octet-stream"@) =~= "application/octet-stream"@);
    assert(ascii_lower("application/x-dmp"@) =~= "application/x-dmp"@);
    assert(ascii_lower("text/xml"@) =~= "text/xml"@);
    assert(ascii_lower("application/x-sentry-envelope"@) =~= "application/x-sentry-envelope"@);
    assert(ascii_lower("application/xml"@) =~= "application/xml"@);
}

/// Whether a text in lower case is one of those that content types of their own stand for.
pub open spec fn is_listed_text(text: Seq<char>) -> bool {
    ||| text == "text/plain"@
    ||| text == "application/json"@
    ||| text == "application/x-msgpack"@
    ||| text == "application/octet-stream"@
    ||| text == "application/x-dmp"@
    ||| text == "text/xml"@
    ||| text == "application/x-sentry-envelope"@
}

/// The text of the content type that a text names is that text in lower case. The one exception is
/// `application/xml`, which becomes `text/xml`.
pub proof fn law_content_type_text(text: Seq<char>)
    ensures
        content_type_text(content_type_of(text)) == (if ascii_lower(text) == "application/xml"@ {
            "text/xml"@
        } else {
            ascii_lower(text)
        }),
{
    lemma_listed_texts();
}

/// A content type is of the kind for other ones exactly where its text, in lower case, is neither
/// one of the listed texts nor `application/xml`.
pub proof fn law_content_type_other(text: Seq<char>)
    ensures
        content_type_of(text) is Other <==> !is_listed_text(ascii_lower(text)) && ascii_lower(text)
            != "application/xml"@,
{
    lemma_listed_texts();
}

/// A content type equals a text exactly where the text names it. One that no text names equals the
/// texts that differ from its own only in case, and are no listed ones.
pub proof fn law_content_type_equals_text(ty: ContentTypeView, text: Seq<char>)
    ensures
        content_type_canonical(ty) ==> (is_named(ty, text) <==> content_type_of(text) == ty),
        !content_type_canonical(ty) ==> (is_named(ty, text) <==> content_type_of(text) is Other
            && ascii_lower(text) == ascii_lower(content_type_text(ty))),
{
    lemma_ascii_lower_idempotent(text);
    lemma_ascii_lower_idempotent(content_type_text(ty));
    lemma_listed_texts();
    law_content_type_text(text);
    if content_type_canonical(ty) {
        lemma_content_type_of_text(ty);
        law_content_type_text(content_type_text(ty));
    }
}

/// Reading a text as a content type and asking for its text gives the text in lower case, whichever
/// conversion is used.
pub proof fn law_content_type_calls(
    text: &str,
    string: String,
    a: ContentType,
    b: ContentType,
    c: ContentType,
    out: &str,
)
    requires
        call_ensures(ContentType::from_text, (text,), a),
        call_ensures(<ContentType as From<&str>>::from, (text,), b),
        call_ensures(<ContentType as From<String>>::from, (string,), c),
        call_ensures(ContentType::as_str, (&a,), out),
        string@ == text@,
    ensures
        a@ == b@,
        a@ == c@,
        ascii_lower(text@) != "application/xml"@ ==> out@ == ascii_lower(text@),
        ascii_lower(text@) == "application/xml"@ ==> out@ == "text/xml"@,
{
    law_content_type_text(text@);
}

/// Asking a content type whether a text names it agrees with reading the text.
pub proof fn law_content_type_named_calls(
    text: &str,
    other: &str,
    ty: ContentType,
    read: ContentType,
    named: bool,
)
    requires
        call_ensures(ContentType::from_text, (other,), ty),
        call_ensures(ContentType::from_text, (text,), read),
        call_ensures(ContentType::is_named, (&ty, text), named),
    ensures
        named <==> ty@ == read@,
        named <==> ty.eq_spec(text),
        named <==> text.eq_spec(&ty),
        ty.eq_spec(&read) <==> ty@ == read@,
{
    crate::content_type::lemma_content_type_is_named(other@);
    law_content_type_equals_text(ty@, text@);
}

/// Two content types are equal exactly where their texts are, and both or neither are of the kind
/// for other ones.
pub proof fn law_content_type_equality(a: ContentType, b: ContentType)
    ensures
        a.eq_spec(&b) <==> content_type_text(a@) == content_type_text(b@) && (a@ is Other
            <==> b@ is Other),
{
    if !(a@ is Other) && !(b@ is Other) {
        lemma_content_type_of_text(a@);
        lemma_content_type_of_text(b@);
    }
}

/// An item type read from a name has that name, and is of the unknown kind only where no known one
/// has it.
pub proof fn law_item_type_calls(name: &str, known: ItemTypeView, ty: ItemType, out: &str)
    requires
        call_ensures(ItemType::from_name, (name,), ty),
        call_ensures(ItemType::as_str, (&ty,), out),
    ensures
        out@ == name@,
        !(known is Unknown) && item_type_name(known) == name@ ==> ty@ == known,
{
    lemma_item_type_name_of(name@);
    if !(known is Unknown) {
        lemma_item_type_of_name(known);
    }
}

/// Two item types are equal exactly where their names are, and both or neither are of the unknown
/// kind.
pub proof fn law_item_type_equality(a: ItemType, b: ItemType)
    ensures
        a.eq_spec(&b) <==> item_type_name(a@) == item_type_name(b@) && (a@ is Unknown
            <==> b@ is Unknown),
{
    if !(a@ is Unknown) && !(b@ is Unknown) {
        lemma_item_type_of_name(a@);
        lemma_item_type_of_name(b@);
    }
}

/// An attachment type read from a name has that name, and is of the unknown kind only where no
/// known one has it.
pub proof fn law_attachment_type_calls(
    name: &str,
    known: AttachmentTypeView,
    ty: AttachmentType,
    out: &str,
)
    requires
        call_ensures(AttachmentType::from_name, (name,), ty),
        call_ensures(AttachmentType::as_str, (&ty,), out),
    ensures
        out@ == name@,
        !(known is Unknown) && attachment_type_name(known) == name@ ==> ty@ == known,
{
    lemma_attachment_type_name_of(name@);
    if !(known is Unknown) {
        lemma_attachment_type_of_name(known);
    }
}

/// Two attachment types are equal exactly where their names are, and both or neither are of the
/// unknown kind.
pub proof fn law_attachment_type_equality(a: AttachmentType, b: AttachmentType)
    ensures
        a.eq_spec(&b) <==> attachment_type_name(a@) == attachment_type_name(b@) && (a@ is Unknown
            <==> b@ is Unknown),
{
    if !(a@ is Unknown) && !(b@ is Unknown) {
        lemma_attachment_type_of_name(a@);
        lemma_attachment_type_of_name(b@);
    }
}

/// Names are ordered by the first character in which they differ, and a name that another one
/// starts with comes first.
pub proof fn law_order(start: Seq<char>, c: char, d: char, x: Seq<char>, y: Seq<char>)
    ensures
        c != d ==> (before(start + seq![c] + x, start + seq![d] + y) <==> c < d),
        before(start, start + seq![c] + x),
        !before(start + x, start),
    decreases start.len(),
{
    if start.len() == 0 {
        assert((start + seq![c] + x)[0] == c);
        assert((start + seq![d] + y)[0] == d);
    } else {
        let rest = start.drop_first();
        law_order(rest, c, d, x, y);
        assert((start + seq![c] + x).drop_first() =~= rest + seq![c] + x);
        assert((start + seq![d] + y).drop_first() =~= rest + seq![d] + y);
        assert((start + x).drop_first() =~= rest + x);
        assert((start + seq![c] + x)[0] == start[0]);
        assert((start + seq![d] + y)[0] == start[0]);
        assert((start + x)[0] == start[0]);
    }
}

/// A content type equals a text the same way whichever form the text has and on whichever side it
/// stands.
pub proof fn law_content_type_equality_forms(ty: ContentType, text: &str, string: String)
    requires
        string@ == text@,
    ensures
        <ContentType as PartialEqSpec<str>>::eq_spec(&ty, text) == is_named(ty@, text@),
        <ContentType as PartialEqSpec<&str>>::eq_spec(&ty, &text) == is_named(ty@, text@),
        <ContentType as PartialEqSpec<String>>::eq_spec(&ty, &string) == is_named(ty@, text@),
        <str as PartialEqSpec<ContentType>>::eq_spec(text, &ty) == is_named(ty@, text@),
        <&str as PartialEqSpec<ContentType>>::eq_spec(&text, &ty) == is_named(ty@, text@),
        <String as PartialEqSpec<ContentType>>::eq_spec(&string, &ty) == is_named(ty@, text@),
{
}

} // verus!
