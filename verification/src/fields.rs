//! Finding the fields that the envelope format defines among the members of a header.
use crate::fault::{Field, HeaderFault};
use crate::header_map::{
    find, lemma_find_at, lemma_find_none, lemma_place_last, place, HeaderMap,
};
use crate::json::{ascending, members_view, MemberView, Value, ValueView};
use crate::text::same_text;
use vstd::prelude::*;

verus! {

/// Whether two of `members` are named `name`.
pub open spec fn repeated(members: Seq<MemberView>, name: Seq<char>) -> bool {
    exists|i: int, j: int|
        0 <= i < j < members.len() && (#[trigger] members[i]).0 == name && (
        #[trigger] members[j]).0 == name
}

/// The value of a field, which may occur once.
pub open spec fn value_of(members: Seq<MemberView>, field: Field) -> Result<
    Option<ValueView>,
    HeaderFault,
> {
    if repeated(members, field.spec_name()) {
        Err(HeaderFault::Repeated(field))
    } else {
        Ok(find(members, field.spec_name()))
    }
}

/// An optional field that holds a text. `null` counts as absent.
pub open spec fn text_of(members: Seq<MemberView>, field: Field) -> Result<
    Option<Seq<char>>,
    HeaderFault,
> {
    match value_of(members, field) {
        Err(fault) => Err(fault),
        Ok(None) => Ok(None),
        Ok(Some(ValueView::Null)) => Ok(None),
        Ok(Some(ValueView::String(text))) => Ok(Some(text)),
        Ok(Some(_)) => Err(HeaderFault::Invalid(field)),
    }
}

/// A required field that holds a text.
pub open spec fn name_of(members: Seq<MemberView>, field: Field) -> Result<
    Seq<char>,
    HeaderFault,
> {
    match value_of(members, field) {
        Err(fault) => Err(fault),
        Ok(None) => Err(HeaderFault::Missing(field)),
        Ok(Some(ValueView::String(text))) => Ok(text),
        Ok(Some(_)) => Err(HeaderFault::Invalid(field)),
    }
}

/// A field that holds a boolean, `false` where the field is absent.
pub open spec fn flag_of(members: Seq<MemberView>, field: Field) -> Result<bool, HeaderFault> {
    match value_of(members, field) {
        Err(fault) => Err(fault),
        Ok(None) => Ok(false),
        Ok(Some(ValueView::Bool(flag))) => Ok(flag),
        Ok(Some(_)) => Err(HeaderFault::Invalid(field)),
    }
}

/// The integer from zero to `max` that `v` is, if it is one.
pub open spec fn count_in(v: ValueView, max: u64) -> Option<u64> {
    match v {
        ValueView::U64(n) => if n <= max {
            Some(n)
        } else {
            None
        },
        ValueView::I64(n) => if 0 <= n <= max {
            Some(n as u64)
        } else {
            None
        },
        _ => None,
    }
}

/// An optional field that holds an integer from zero to `max`. `null` counts as absent.
pub open spec fn count_of(members: Seq<MemberView>, field: Field, max: u64) -> Result<
    Option<u64>,
    HeaderFault,
> {
    match value_of(members, field) {
        Err(fault) => Err(fault),
        Ok(None) => Ok(None),
        Ok(Some(ValueView::Null)) => Ok(None),
        Ok(Some(v)) => match count_in(v, max) {
            Some(n) => Ok(Some(n)),
            None => Err(HeaderFault::Invalid(field)),
        },
    }
}

/// Whether one of `fields` is named `name`.
pub open spec fn names(fields: Seq<Field>, name: Seq<char>) -> bool {
    exists|i: int| 0 <= i < fields.len() && (#[trigger] fields[i]).spec_name() == name
}

/// The members that are none of `fields`, by name. Of several with one name the last one counts.
pub open spec fn others_of(members: Seq<MemberView>, fields: Seq<Field>) -> Seq<MemberView>
    decreases members.len(),
{
    if members.len() == 0 {
        Seq::empty()
    } else {
        let earlier = others_of(members.drop_last(), fields);
        if names(fields, members.last().0) {
            earlier
        } else {
            place(earlier, members.last().0, members.last().1)
        }
    }
}

/// Finds the value of a field, which may occur once.
pub fn find_value(members: &Vec<(String, Value)>, field: Field) -> (r: Result<
    Option<&Value>,
    HeaderFault,
>)
    ensures
        match r {
            Ok(Some(value)) => value_of(members_view(members@), field) == Ok::<_, HeaderFault>(
                Some(value@),
            ),
            Ok(None) => value_of(members_view(members@), field) == Ok::<_, HeaderFault>(
                None::<ValueView>,
            ),
            Err(fault) => value_of(members_view(members@), field) == Err::<Option<ValueView>, _>(
                fault,
            ),
        },
{
    let ghost all = members_view(members@);
    let ghost name = field.spec_name();
    let mut found: Option<usize> = None;
    let mut i: usize = 0;
    while i < members.len()
        invariant
            i <= members@.len(),
            all == members_view(members@),
            name == field.spec_name(),
            match found {
                None => forall|j: int| 0 <= j < i ==> (#[trigger] all[j]).0 != name,
                Some(at) => at < i && all[at as int].0 == name && forall|j: int|
                    0 <= j < i && j != at ==> (#[trigger] all[j]).0 != name,
            },
        decreases members@.len() - i,
    {
        if same_text(members[i].0.as_str(), field.name()) {
            if let Some(at) = found {
                assert(all[at as int].0 == name && all[i as int].0 == name);
                return Err(HeaderFault::Repeated(field));
            }
            found = Some(i);
        }
        i += 1;
    }
    assert(!repeated(all, name));
    match found {
        None => {
            proof {
                lemma_find_none(all, name);
            }
            Ok(None)
        },
        Some(at) => {
            proof {
                lemma_find_at(all, name, at as int);
            }
            Ok(Some(&members[at].1))
        },
    }
}

/// Reads an optional field that holds a text.
pub fn find_text(members: &Vec<(String, Value)>, field: Field) -> (r: Result<
    Option<String>,
    HeaderFault,
>)
    ensures
        match r {
            Ok(Some(text)) => text_of(members_view(members@), field) == Ok::<_, HeaderFault>(
                Some(text@),
            ),
            Ok(None) => text_of(members_view(members@), field) == Ok::<_, HeaderFault>(
                None::<Seq<char>>,
            ),
            Err(fault) => text_of(members_view(members@), field) == Err::<Option<Seq<char>>, _>(
                fault,
            ),
        },
{
    match find_value(members, field) {
        Err(fault) => Err(fault),
        Ok(None) => Ok(None),
        Ok(Some(Value::Null)) => Ok(None),
        Ok(Some(Value::String(text))) => Ok(Some(text.clone())),
        Ok(Some(_)) => Err(HeaderFault::Invalid(field)),
    }
}

/// Reads a required field that holds a text.
pub fn find_name(members: &Vec<(String, Value)>, field: Field) -> (r: Result<String, HeaderFault>)
    ensures
        match r {
            Ok(text) => name_of(members_view(members@), field) == Ok::<_, HeaderFault>(text@),
            Err(fault) => name_of(members_view(members@), field) == Err::<Seq<char>, _>(fault),
        },
{
    match find_value(members, field) {
        Err(fault) => Err(fault),
        Ok(None) => Err(HeaderFault::Missing(field)),
        Ok(Some(Value::String(text))) => Ok(text.clone()),
        Ok(Some(_)) => Err(HeaderFault::Invalid(field)),
    }
}

/// Reads a field that holds a boolean.
pub fn find_flag(members: &Vec<(String, Value)>, field: Field) -> (r: Result<bool, HeaderFault>)
    ensures
        r == flag_of(members_view(members@), field),
{
    match find_value(members, field) {
        Err(fault) => Err(fault),
        Ok(None) => Ok(false),
        Ok(Some(Value::Bool(flag))) => Ok(*flag),
        Ok(Some(_)) => Err(HeaderFault::Invalid(field)),
    }
}

/// Reads an optional field that holds an integer from zero to `max`.
pub fn find_count(members: &Vec<(String, Value)>, field: Field, max: u64) -> (r: Result<
    Option<u64>,
    HeaderFault,
>)
    ensures
        r == count_of(members_view(members@), field, max),
{
    match find_value(members, field) {
        Err(fault) => Err(fault),
        Ok(None) => Ok(None),
        Ok(Some(Value::Null)) => Ok(None),
        Ok(Some(Value::U64(n))) => {
            if *n <= max {
                Ok(Some(*n))
            } else {
                Err(HeaderFault::Invalid(field))
            }
        },
        Ok(Some(Value::I64(n))) => {
            if *n >= 0 && *n as u64 <= max {
                Ok(Some(*n as u64))
            } else {
                Err(HeaderFault::Invalid(field))
            }
        },
        Ok(Some(_)) => Err(HeaderFault::Invalid(field)),
    }
}

/// Whether one of `fields` is named `name`.
fn is_named(fields: &[Field], name: &str) -> (r: bool)
    ensures
        r == names(fields@, name@),
{
    let mut i: usize = 0;
    while i < fields.len()
        invariant
            i <= fields@.len(),
            forall|j: int| 0 <= j < i ==> (#[trigger] fields@[j]).spec_name() != name@,
        decreases fields@.len() - i,
    {
        if same_text(fields[i].name(), name) {
            assert(fields@[i as int].spec_name() == name@);
            return true;
        }
        i += 1;
    }
    false
}

/// Collects the members that are none of `fields`.
pub fn find_others(members: &Vec<(String, Value)>, fields: &[Field]) -> (r: HeaderMap)
    ensures
        r@ == others_of(members_view(members@), fields@),
{
    let ghost all = members_view(members@);
    let mut others = HeaderMap::new();
    let mut i: usize = 0;
    assert(all.take(0) =~= Seq::<MemberView>::empty());
    while i < members.len()
        invariant
            i <= members@.len(),
            all == members_view(members@),
            others@ == others_of(all.take(i as int), fields@),
        decreases members@.len() - i,
    {
        proof {
            assert(all.take(i + 1).drop_last() =~= all.take(i as int));
            assert(all.take(i + 1).last() == all[i as int]);
        }
        if !is_named(fields, members[i].0.as_str()) {
            let _ = others.insert(members[i].0.clone(), members[i].1.clone());
        }
        i += 1;
    }
    assert(all.take(all.len() as int) =~= all);
    others
}

/// Nothing is left over of members that are all among `fields`.
pub proof fn lemma_others_none(members: Seq<MemberView>, fields: Seq<Field>)
    requires
        forall|i: int| 0 <= i < members.len() ==> names(fields, (#[trigger] members[i]).0),
    ensures
        others_of(members, fields) == Seq::<MemberView>::empty(),
    decreases members.len(),
{
    if members.len() > 0 {
        let earlier = members.drop_last();
        assert forall|i: int| 0 <= i < earlier.len() implies names(
            fields,
            (#[trigger] earlier[i]).0,
        ) by {
            assert(earlier[i] == members[i]);
        }
        lemma_others_none(earlier, fields);
        assert(names(fields, members[members.len() - 1].0));
    }
}

/// Ascending members behind those among `fields` are what is left over.
pub proof fn lemma_others_split(
    known: Seq<MemberView>,
    other: Seq<MemberView>,
    fields: Seq<Field>,
)
    requires
        forall|i: int| 0 <= i < known.len() ==> names(fields, (#[trigger] known[i]).0),
        forall|i: int| 0 <= i < other.len() ==> !names(fields, (#[trigger] other[i]).0),
        ascending(other),
    ensures
        others_of(known + other, fields) == other,
    decreases other.len(),
{
    if other.len() == 0 {
        assert(known + other =~= known);
        lemma_others_none(known, fields);
        assert(other =~= Seq::empty());
    } else {
        let earlier = other.drop_last();
        let last = other.last();
        assert((known + other).drop_last() =~= known + earlier);
        assert((known + other).last() == last);
        assert(last == other[other.len() - 1]);
        assert forall|i: int| 0 <= i < earlier.len() implies !names(
            fields,
            (#[trigger] earlier[i]).0,
        ) by {
            assert(earlier[i] == other[i]);
        }
        assert forall|i: int, j: int| 0 <= i < j < earlier.len() implies crate::text::before(
            (#[trigger] earlier[i]).0,
            (#[trigger] earlier[j]).0,
        ) by {
            assert(earlier[i] == other[i] && earlier[j] == other[j]);
        }
        lemma_others_split(known, earlier, fields);
        assert forall|i: int| 0 <= i < earlier.len() implies crate::text::before(
            (#[trigger] earlier[i]).0,
            last.0,
        ) by {
            assert(earlier[i] == other[i]);
        }
        lemma_place_last(earlier, last.0, last.1);
        assert(earlier.push((last.0, last.1)) =~= other);
    }
}

} // verus!
