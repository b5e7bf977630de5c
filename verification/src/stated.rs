//! What the members of a header state, and how it is read.
use crate::fault::{Field, HeaderFault};
use crate::fields::{names, others_of, repeated, value_of};
use crate::header_map::{find, lemma_find_at, lemma_find_none, lemma_find_placed};
use crate::json::{MemberView, ValueView};
use crate::layout::lemma_field_names;
use vstd::prelude::*;

verus! {

/// Whether the member at `at` is named `name`, and no other one is.
pub open spec fn once(members: Seq<MemberView>, name: Seq<char>, at: int) -> bool {
    &&& 0 <= at < members.len()
    &&& members[at].0 == name
    &&& forall|j: int| 0 <= j < members.len() && j != at ==> (#[trigger] members[j]).0 != name
}

/// Whether the member at `at` is named `name`, and none behind it is.
pub open spec fn last(members: Seq<MemberView>, name: Seq<char>, at: int) -> bool {
    &&& 0 <= at < members.len()
    &&& members[at].0 == name
    &&& forall|j: int| at < j < members.len() ==> (#[trigger] members[j]).0 != name
}

/// Whether no member is named `name`.
pub open spec fn absent(members: Seq<MemberView>, name: Seq<char>) -> bool {
    forall|j: int| 0 <= j < members.len() ==> (#[trigger] members[j]).0 != name
}

/// Whether the members at `i` and behind it at `j` are both named `name`.
pub open spec fn twice(members: Seq<MemberView>, name: Seq<char>, i: int, j: int) -> bool {
    0 <= i < j < members.len() && members[i].0 == name && members[j].0 == name
}

/// A field has the value of the one member that has its name.
pub proof fn lemma_value_once(members: Seq<MemberView>, field: Field, at: int)
    requires
        once(members, field.spec_name(), at),
    ensures
        value_of(members, field) == Ok::<_, HeaderFault>(Some(members[at].1)),
{
    assert(!repeated(members, field.spec_name()));
    lemma_find_at(members, field.spec_name(), at);
}

/// A field that no member has the name of has no value.
pub proof fn lemma_value_absent(members: Seq<MemberView>, field: Field)
    requires
        absent(members, field.spec_name()),
    ensures
        value_of(members, field) == Ok::<_, HeaderFault>(None::<ValueView>),
{
    assert(!repeated(members, field.spec_name()));
    lemma_find_none(members, field.spec_name());
}

/// A field that two members have the name of is refused.
pub proof fn lemma_value_twice(members: Seq<MemberView>, field: Field, i: int, j: int)
    requires
        twice(members, field.spec_name(), i, j),
    ensures
        value_of(members, field) == Err::<Option<ValueView>, _>(HeaderFault::Repeated(field)),
{
    assert(members[i].0 == field.spec_name() && members[j].0 == field.spec_name());
}

/// Of members, either none has a name, or just one has it, or two have it.
pub proof fn lemma_occurrences(members: Seq<MemberView>, name: Seq<char>)
    ensures
        absent(members, name) || (exists|at: int| once(members, name, at)) || (exists|
            i: int,
            j: int,
        |
            twice(members, name, i, j)),
    decreases members.len(),
{
    if !absent(members, name) {
        let at = choose|at: int| 0 <= at < members.len() && (#[trigger] members[at]).0 == name;
        if !once(members, name, at) {
            let j = choose|j: int|
                0 <= j < members.len() && j != at && (#[trigger] members[j]).0 == name;
            if at < j {
                assert(twice(members, name, at, j));
            } else {
                assert(twice(members, name, j, at));
            }
        }
    }
}

/// A field that is not refused is stated once or not at all.
pub proof fn lemma_value_read(members: Seq<MemberView>, field: Field) -> (at: int)
    requires
        value_of(members, field) is Ok,
    ensures
        once(members, field.spec_name(), at) || absent(members, field.spec_name()),
{
    let name = field.spec_name();
    lemma_occurrences(members, name);
    if absent(members, name) {
        0
    } else if exists|at: int| once(members, name, at) {
        choose|at: int| once(members, name, at)
    } else {
        let (i, j) = choose|i: int, j: int| twice(members, name, i, j);
        lemma_value_twice(members, field, i, j);
        0
    }
}

/// What is left over of members beside fields: under every name that is no field's, the value of
/// the last member with that name, wherever it stands. Under the name of a field there is nothing.
pub proof fn lemma_left_over(members: Seq<MemberView>, fields: Seq<Field>, name: Seq<char>, at: int)
    ensures
        !names(fields, name) && last(members, name, at) ==> find(others_of(members, fields), name)
            == Some(members[at].1),
        !names(fields, name) && absent(members, name) ==> find(others_of(members, fields), name)
            is None,
        names(fields, name) ==> find(others_of(members, fields), name) is None,
    decreases members.len(),
{
    if members.len() > 0 {
        let first = members.drop_last();
        let end = members.last();
        lemma_left_over(first, fields, name, at);
        lemma_find_placed(others_of(first, fields), end.0, end.1, name);
        assert(end == members[members.len() - 1]);
        assert forall|j: int| 0 <= j < first.len() implies first[j] == members[j] by {}
        if last(members, name, at) && end.0 != name {
            assert(last(first, name, at)) by {
                assert forall|j: int| at < j < first.len() implies (#[trigger] first[j]).0
                    != name by {
                    assert(first[j] == members[j]);
                }
            }
        }
        if last(members, name, at) && end.0 == name {
            assert(at == members.len() - 1);
        }
        if absent(members, name) {
            assert(absent(first, name)) by {
                assert forall|j: int| 0 <= j < first.len() implies (#[trigger] first[j]).0
                    != name by {
                    assert(first[j] == members[j]);
                }
            }
        }
    }
}

/// Which other attributes are left over does not depend on where the fields stand between them:
/// taking a field out anywhere leaves the same.
pub proof fn lemma_left_over_without(
    before: Seq<MemberView>,
    field: MemberView,
    behind: Seq<MemberView>,
    fields: Seq<Field>,
)
    requires
        names(fields, field.0),
    ensures
        others_of(before + seq![field] + behind, fields) == others_of(before + behind, fields),
    decreases behind.len(),
{
    if behind.len() == 0 {
        assert((before + seq![field] + behind).drop_last() =~= before);
        assert(before + behind =~= before);
    } else {
        lemma_left_over_without(before, field, behind.drop_last(), fields);
        assert((before + seq![field] + behind).drop_last() =~= before + seq![field]
            + behind.drop_last());
        assert((before + behind).drop_last() =~= before + behind.drop_last());
        assert((before + seq![field] + behind).last() == behind.last());
        assert((before + behind).last() == behind.last());
    }
}

/// One of some fields is named like one of them, and like no other one.
pub proof fn lemma_named(fields: Seq<Field>, field: Field)
    ensures
        names(fields, field.spec_name()) <==> fields.contains(field),
{
    if names(fields, field.spec_name()) {
        let i = choose|i: int|
            0 <= i < fields.len() && (#[trigger] fields[i]).spec_name() == field.spec_name();
        lemma_field_names(fields[i], field);
    }
    if fields.contains(field) {
        let i = choose|i: int| 0 <= i < fields.len() && fields[i] == field;
        assert(fields[i].spec_name() == field.spec_name());
    }
}

} // verus!
