//! JSON values, and reading and writing one of them.
use crate::text::before;
use serde_json::Value as Json;
use vstd::prelude::*;

verus! {

/// A JSON value.
///
/// A number is held as `U64` when it is an integer from zero on, as `I64` when it is a negative
/// integer, and as `Float` otherwise. A value made from an `i64` is an `I64` whatever its sign.
#[derive(Debug, PartialEq)]
pub enum Value {
    /// `null`.
    Null,
    /// `true` or `false`.
    Bool(bool),
    /// A signed integer.
    I64(i64),
    /// An unsigned integer.
    U64(u64),
    /// A number with a fraction or an exponent, or outside the range of the integers above.
    Float(serde_json::Number),
    /// A string.
    String(String),
    /// An array.
    Array(Vec<Value>),
    /// An object, as a list of its members.
    Object(Vec<(String, Value)>),
}

/// What a [`Value`] stands for.
pub enum ValueView {
    /// See [`Value::Null`].
    Null,
    /// See [`Value::Bool`].
    Bool(bool),
    /// See [`Value::I64`].
    I64(i64),
    /// See [`Value::U64`].
    U64(u64),
    /// See [`Value::Float`].
    Float(serde_json::Number),
    /// See [`Value::String`].
    String(Seq<char>),
    /// See [`Value::Array`].
    Array(Seq<ValueView>),
    /// See [`Value::Object`].
    Object(Seq<MemberView>),
}

/// What a member of an object stands for: its name and its value.
pub type MemberView = (Seq<char>, ValueView);

/// Declares `serde_json::Number`, which holds a number that is no integer.
#[verifier::external_type_specification]
#[verifier::external_body]
pub struct ExNumber(serde_json::Number);

/// Declares `serde_json::Error`, with which reading malformed JSON fails.
#[verifier::external_type_specification]
#[verifier::external_body]
pub struct ExJsonError(serde_json::Error);

/// Declares `serde_json::Value`, the form in which `serde_json` hands a value over.
#[verifier::external_type_specification]
#[verifier::external_body]
pub struct ExJson(Json);

impl View for Value {
    type V = ValueView;

    open spec fn view(&self) -> ValueView
        decreases self,
    {
        match self {
            Value::Null => ValueView::Null,
            Value::Bool(b) => ValueView::Bool(*b),
            Value::I64(n) => ValueView::I64(*n),
            Value::U64(n) => ValueView::U64(*n),
            Value::Float(n) => ValueView::Float(*n),
            Value::String(s) => ValueView::String(s@),
            Value::Array(v) => ValueView::Array(
                Seq::new(
                    v@.len(),
                    |i: int|
                        if 0 <= i < v@.len() {
                            v@[i].view()
                        } else {
                            ValueView::Null
                        },
                ),
            ),
            Value::Object(v) => ValueView::Object(
                Seq::new(
                    v@.len(),
                    |i: int|
                        if 0 <= i < v@.len() {
                            (v@[i].0@, v@[i].1.view())
                        } else {
                            (Seq::empty(), ValueView::Null)
                        },
                ),
            ),
        }
    }
}

/// What a list of members stands for.
pub open spec fn members_view(members: Seq<(String, Value)>) -> Seq<MemberView> {
    Seq::new(members.len(), |i: int| (members[i].0@, members[i].1@))
}

/// What the items of an array stand for.
pub open spec fn values_view(items: Seq<Value>) -> Seq<ValueView> {
    Seq::new(items.len(), |i: int| items[i]@)
}

/// An array stands for its items.
pub proof fn lemma_array_view(items: Vec<Value>)
    ensures
        Value::Array(items)@ == ValueView::Array(values_view(items@)),
{
    reveal_with_fuel(<Value as View>::view, 2);
    assert(Value::Array(items)@->Array_0 =~= values_view(items@));
}

/// An object stands for its members.
pub proof fn lemma_object_view(members: Vec<(String, Value)>)
    ensures
        Value::Object(members)@ == ValueView::Object(members_view(members@)),
{
    reveal_with_fuel(<Value as View>::view, 2);
    assert(Value::Object(members)@->Object_0 =~= members_view(members@));
}

/// Whether arrays and objects are nested at most `limit` deep in `v`.
pub open spec fn within(v: ValueView, limit: nat) -> bool
    decreases limit,
{
    match v {
        ValueView::Array(items) => limit > 0 && forall|i: int|
            0 <= i < items.len() ==> within(#[trigger] items[i], (limit - 1) as nat),
        ValueView::Object(members) => limit > 0 && forall|i: int|
            0 <= i < members.len() ==> within((#[trigger] members[i]).1, (limit - 1) as nat),
        _ => true,
    }
}

proof fn lemma_within_item(items: Seq<ValueView>, limit: nat, i: int)
    requires
        within(ValueView::Array(items), limit),
        0 <= i < items.len(),
    ensures
        within(items[i], (limit - 1) as nat),
{
    let v = ValueView::Array(items);
    assert(within(v->Array_0[i], (limit - 1) as nat));
}

proof fn lemma_within_member(members: Seq<MemberView>, limit: nat, i: int)
    requires
        within(ValueView::Object(members), limit),
        0 <= i < members.len(),
    ensures
        within(members[i].1, (limit - 1) as nat),
{
    let v = ValueView::Object(members);
    assert(within(v->Object_0[i].1, (limit - 1) as nat));
}

/// What fits a limit fits a larger one.
pub proof fn lemma_within_weaken(v: ValueView, limit: nat, larger: nat)
    requires
        limit <= larger,
        within(v, limit),
    ensures
        within(v, larger),
    decreases limit,
{
    match v {
        ValueView::Array(items) => {
            assert forall|i: int| 0 <= i < items.len() implies within(
                #[trigger] items[i],
                (larger - 1) as nat,
            ) by {
                lemma_within_item(items, limit, i);
                lemma_within_weaken(items[i], (limit - 1) as nat, (larger - 1) as nat);
            }
        },
        ValueView::Object(members) => {
            assert forall|i: int| 0 <= i < members.len() implies within(
                (#[trigger] members[i]).1,
                (larger - 1) as nat,
            ) by {
                lemma_within_member(members, limit, i);
                lemma_within_weaken(members[i].1, (limit - 1) as nat, (larger - 1) as nat);
            }
        },
        _ => {},
    }
}

/// Whether the names of `members` ascend strictly.
pub open spec fn ascending(members: Seq<MemberView>) -> bool {
    forall|i: int, j: int|
        0 <= i < j < members.len() ==> before((#[trigger] members[i]).0, (#[trigger] members[j]).0)
}

/// Whether `v` is what reading a JSON text can produce, and holds no floating point number.
///
/// Integers from zero on are unsigned, and the names in each object ascend strictly.
pub open spec fn settled(v: ValueView) -> bool
    decreases v,
{
    match v {
        ValueView::I64(n) => n < 0,
        ValueView::Float(_) => false,
        ValueView::Array(items) => forall|i: int|
            0 <= i < items.len() ==> settled(#[trigger] items[i]),
        ValueView::Object(members) => {
            &&& ascending(members)
            &&& forall|i: int| 0 <= i < members.len() ==> settled((#[trigger] members[i]).1)
        },
        _ => true,
    }
}

/// Clones a `serde_json::Number`: the clone is the same number.
pub assume_specification[ <serde_json::Number as Clone>::clone ](
    n: &serde_json::Number,
) -> (r: serde_json::Number)
    ensures
        r == *n,
;

impl Clone for Value {
    fn clone(&self) -> (r: Self)
        ensures
            r@ == self@,
        decreases self,
    {
        match self {
            Value::Null => Value::Null,
            Value::Bool(b) => Value::Bool(*b),
            Value::I64(n) => Value::I64(*n),
            Value::U64(n) => Value::U64(*n),
            Value::Float(n) => Value::Float(n.clone()),
            Value::String(s) => Value::String(s.clone()),
            Value::Array(items) => {
                let copy = clone_values(items);
                proof {
                    lemma_array_view(*items);
                    lemma_array_view(copy);
                }
                Value::Array(copy)
            },
            Value::Object(members) => {
                let copy = clone_members(members);
                proof {
                    lemma_object_view(*members);
                    lemma_object_view(copy);
                }
                Value::Object(copy)
            },
        }
    }
}

fn clone_values(items: &Vec<Value>) -> (r: Vec<Value>)
    ensures
        values_view(r@) == values_view(items@),
    decreases items,
{
    let mut r: Vec<Value> = Vec::new();
    let mut i: usize = 0;
    while i < items.len()
        invariant
            i <= items@.len(),
            r@.len() == i,
            forall|j: int| 0 <= j < i ==> (#[trigger] r@[j])@ == items@[j]@,
        decreases items@.len() - i,
    {
        r.push(items[i].clone());
        i += 1;
    }
    assert(values_view(r@) =~= values_view(items@));
    r
}

/// Clones a list of members.
pub fn clone_members(members: &Vec<(String, Value)>) -> (r: Vec<(String, Value)>)
    ensures
        members_view(r@) == members_view(members@),
    decreases members,
{
    let mut r: Vec<(String, Value)> = Vec::new();
    let mut i: usize = 0;
    while i < members.len()
        invariant
            i <= members@.len(),
            r@.len() == i,
            forall|j: int|
                0 <= j < i ==> (#[trigger] r@[j]).0@ == members@[j].0@ && r@[j].1@
                    == members@[j].1@,
        decreases members@.len() - i,
    {
        r.push((members[i].0.clone(), members[i].1.clone()));
        i += 1;
    }
    assert(members_view(r@) =~= members_view(members@));
    r
}

impl Value {
    /// Whether arrays and objects are nested at most `limit` deep.
    pub fn fits(&self, limit: usize) -> (r: bool)
        ensures
            r == within(self@, limit as nat),
        decreases limit,
    {
        match self {
            Value::Array(items) => {
                proof {
                    lemma_array_view(*items);
                }
                if limit == 0 {
                    return false;
                }
                let mut i: usize = 0;
                while i < items.len()
                    invariant
                        limit > 0,
                        i <= items@.len(),
                        self@ == ValueView::Array(values_view(items@)),
                        forall|j: int|
                            0 <= j < i ==> within(
                                #[trigger] values_view(items@)[j],
                                (limit - 1) as nat,
                            ),
                    decreases items@.len() - i,
                {
                    if !items[i].fits(limit - 1) {
                        proof {
                            if within(self@, limit as nat) {
                                lemma_within_item(values_view(items@), limit as nat, i as int);
                            }
                        }
                        return false;
                    }
                    i += 1;
                }
                true
            },
            Value::Object(members) => {
                proof {
                    lemma_object_view(*members);
                }
                if limit == 0 {
                    return false;
                }
                let mut i: usize = 0;
                while i < members.len()
                    invariant
                        limit > 0,
                        i <= members@.len(),
                        self@ == ValueView::Object(members_view(members@)),
                        forall|j: int|
                            0 <= j < i ==> within(
                                (#[trigger] members_view(members@)[j]).1,
                                (limit - 1) as nat,
                            ),
                    decreases members@.len() - i,
                {
                    if !members[i].1.fits(limit - 1) {
                        proof {
                            if within(self@, limit as nat) {
                                lemma_within_member(members_view(members@), limit as nat, i as int);
                            }
                        }
                        return false;
                    }
                    i += 1;
                }
                true
            },
            _ => true,
        }
    }
}

impl vstd::std_specs::convert::FromSpecImpl<u64> for Value {
    open spec fn obeys_from_spec() -> bool {
        true
    }

    open spec fn from_spec(value: u64) -> Self {
        Value::U64(value)
    }
}

impl From<u64> for Value {
    fn from(value: u64) -> Self {
        Value::U64(value)
    }
}

impl vstd::std_specs::convert::FromSpecImpl<i64> for Value {
    open spec fn obeys_from_spec() -> bool {
        true
    }

    open spec fn from_spec(value: i64) -> Self {
        Value::I64(value)
    }
}

impl From<i64> for Value {
    fn from(value: i64) -> Self {
        Value::I64(value)
    }
}

impl vstd::std_specs::convert::FromSpecImpl<bool> for Value {
    open spec fn obeys_from_spec() -> bool {
        true
    }

    open spec fn from_spec(value: bool) -> Self {
        Value::Bool(value)
    }
}

impl From<bool> for Value {
    fn from(value: bool) -> Self {
        Value::Bool(value)
    }
}

impl vstd::std_specs::convert::FromSpecImpl<String> for Value {
    open spec fn obeys_from_spec() -> bool {
        true
    }

    open spec fn from_spec(value: String) -> Self {
        Value::String(value)
    }
}

impl From<String> for Value {
    fn from(value: String) -> Self {
        Value::String(value)
    }
}

/// What reading one JSON value from the start of some bytes comes to.
pub enum JsonPrefix {
    /// There is nothing but whitespace.
    Missing,
    /// What comes first is not a JSON value.
    Malformed,
    /// A value, and the number of bytes up to its end, whitespace before it included.
    Parsed(ValueView, nat),
}

/// What `serde_json` reads first from `bytes`.
pub uninterp spec fn json_prefix(bytes: Seq<u8>) -> JsonPrefix;

/// The compact text that `serde_json` writes for `v`.
pub uninterp spec fn json_text(v: ValueView) -> Seq<u8>;

/// Whether a JSON value that stands before `rest` ends there: nothing follows, or a `,`, `:` or
/// `}` does.
pub open spec fn delimited(rest: Seq<u8>) -> bool {
    rest.len() == 0 || rest[0] == 0x2c || rest[0] == 0x3a || rest[0] == 0x7d
}

/// Whether reading `text`, whatever follows it, gives `v` and ends where `text` ends.
pub open spec fn reads_as(text: Seq<u8>, v: ValueView) -> bool {
    forall|rest: Seq<u8>|
        delimited(rest) ==> #[trigger] json_prefix(text + rest) == JsonPrefix::Parsed(v, text.len())
}

/// Moves a `serde_json::Value` into a [`Value`], variant by variant.
#[verifier::external_body]
fn from_json(json: Json) -> Value {
    match json {
        Json::Null => Value::Null,
        Json::Bool(b) => Value::Bool(b),
        Json::Number(n) => match (n.as_u64(), n.as_i64()) {
            (Some(u), _) => Value::U64(u),
            (None, Some(i)) => Value::I64(i),
            (None, None) => Value::Float(n),
        },
        Json::String(s) => Value::String(s),
        Json::Array(v) => Value::Array(v.into_iter().map(from_json).collect()),
        Json::Object(m) => Value::Object(m.into_iter().map(|(k, v)| (k, from_json(v))).collect()),
    }
}

/// Copies a [`Value`] into a `serde_json::Value`, variant by variant.
#[verifier::external_body]
fn to_json(value: &Value) -> Json {
    match value {
        Value::Null => Json::Null,
        Value::Bool(b) => Json::Bool(*b),
        Value::I64(n) => Json::from(*n),
        Value::U64(n) => Json::from(*n),
        Value::Float(n) => Json::Number(n.clone()),
        Value::String(s) => Json::String(s.clone()),
        Value::Array(v) => Json::Array(v.iter().map(to_json).collect()),
        Value::Object(m) => Json::Object(m.iter().map(|(k, v)| (k.clone(), to_json(v))).collect()),
    }
}

/// Reads the first JSON value of `slice`, with `next` and `byte_offset` of
/// `serde_json::StreamDeserializer`.
///
/// `None` says that there is nothing but whitespace. Otherwise the value comes with the offset of
/// the byte behind it, which lies within `slice`. What a given text reads as is left to the name
/// [`json_prefix`]; which error comes of a malformed text is left open.
#[verifier::external_body]
pub(crate) fn read_value(slice: &[u8]) -> (r: Option<Result<(Value, usize), serde_json::Error>>)
    ensures
        match r {
            None => json_prefix(slice@) == JsonPrefix::Missing,
            Some(Err(_)) => json_prefix(slice@) == JsonPrefix::Malformed,
            Some(Ok((value, end))) => {
                &&& json_prefix(slice@) == JsonPrefix::Parsed(value@, end as nat)
                &&& end <= slice@.len()
            },
        },
{
    let mut stream = serde_json::Deserializer::from_slice(slice).into_iter::<Json>();
    match stream.next() {
        None => None,
        Some(Err(error)) => Some(Err(error)),
        Some(Ok(json)) => Some(Ok((from_json(json), stream.byte_offset()))),
    }
}

/// Writes `value` as compact JSON, with `serde_json::to_vec`, which does not fail on a
/// `serde_json::Value`.
///
/// The text has no line break: compact JSON has no whitespace between tokens, and control
/// characters in strings are escaped. The text of a string starts with a quote. A value that is
/// [`settled`] and that the reader's limit on nesting admits is read back from its text.
#[verifier::external_body]
pub(crate) fn write_value(value: &Value) -> (r: Vec<u8>)
    ensures
        r@ == json_text(value@),
        !r@.contains(0x0a),
        value@ is String ==> r@.len() > 0 && r@[0] == 0x22,
        settled(value@) && within(value@, 127) ==> reads_as(r@, value@),
{
    serde_json::to_vec(&to_json(value)).unwrap_or_default()
}

} // verus!
