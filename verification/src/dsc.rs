//! The trace context that dynamic sampling decides by.
use crate::fault::{Field, HeaderFault};
use crate::fields::{find_others, lemma_others_split, others_of, value_of};
use crate::header_map::{find, place, HeaderMap};
use crate::json::{
    ascending, clone_members, lemma_object_view, members_view, MemberView, Value, ValueView,
};
use crate::views::opt_view;
use vstd::prelude::*;

verus! {

/// A dynamic sampling context: values by name, which describe the trace of an event.
///
/// The context is carried along. What its values must be is up to whoever samples by it.
#[derive(Debug)]
pub struct DynamicSamplingContext {
    values: HeaderMap,
}

impl View for DynamicSamplingContext {
    type V = Seq<MemberView>;

    closed spec fn view(&self) -> Seq<MemberView> {
        self.values@
    }
}

/// A trace context that was read, or why it could not be.
///
/// A failure stays within these bounds: it does not keep the headers around it from being read.
pub type Trace = Result<DynamicSamplingContext, HeaderFault>;

/// What a trace context in the headers of an envelope stands for.
pub type TraceView = Option<Result<Seq<MemberView>, HeaderFault>>;

/// What a trace context stands for.
pub open spec fn trace_view(trace: Option<Trace>) -> TraceView {
    match trace {
        None => None,
        Some(Err(fault)) => Some(Err(fault)),
        Some(Ok(dsc)) => Some(Ok(dsc@)),
    }
}

/// The trace context that `members` state. `null` counts as absent. Anything but an object is
/// faulty, which does not make the headers faulty.
pub open spec fn trace_of(members: Seq<MemberView>) -> Result<TraceView, HeaderFault> {
    match value_of(members, Field::Trace) {
        Err(fault) => Err(fault),
        Ok(None) => Ok(None),
        Ok(Some(ValueView::Null)) => Ok(None),
        Ok(Some(ValueView::Object(values))) => Ok(Some(Ok(others_of(values, Seq::empty())))),
        Ok(Some(_)) => Ok(Some(Err(HeaderFault::Invalid(Field::Trace)))),
    }
}

/// What is written for a trace context. One that could not be read is written as `null`.
pub open spec fn trace_value(trace: TraceView) -> Option<ValueView> {
    match trace {
        None => None,
        Some(Err(_)) => Some(ValueView::Null),
        Some(Ok(values)) => Some(ValueView::Object(values)),
    }
}

/// Values by ascending names are read back as they are.
pub proof fn lemma_context_read(values: Seq<MemberView>)
    requires
        ascending(values),
    ensures
        others_of(values, Seq::empty()) == values,
{
    lemma_others_split(Seq::empty(), values, Seq::empty());
    assert(Seq::<MemberView>::empty() + values =~= values);
}

impl DynamicSamplingContext {
    /// A context without values.
    pub fn new() -> (r: Self)
        ensures
            r@ == Seq::<MemberView>::empty(),
    {
        DynamicSamplingContext { values: HeaderMap::new() }
    }

    /// A context with the members of a JSON object. Of several with one name the last one counts.
    pub fn from_members(members: &Vec<(String, Value)>) -> (r: Self)
        ensures
            r@ == others_of(members_view(members@), Seq::empty()),
    {
        let none: Vec<Field> = Vec::new();
        assert(none@ =~= Seq::empty());
        DynamicSamplingContext { values: find_others(members, none.as_slice()) }
    }

    /// The value under `name`, if there is one.
    pub fn get(&self, name: &str) -> (r: Option<&Value>)
        ensures
            opt_view(r) == find(self@, name@),
    {
        self.values.get(name)
    }

    /// Sets the value under `name`, and returns the previous one if there was one.
    pub fn insert(&mut self, name: String, value: Value) -> (r: Option<Value>)
        ensures
            opt_view(r) == find(old(self)@, name@),
            final(self)@ == place(old(self)@, name@, value@),
    {
        self.values.insert(name, value)
    }

    /// The context as a JSON object. The names in it ascend.
    pub fn to_value(&self) -> (r: Value)
        ensures
            r@ == ValueView::Object(self@),
            ascending(self@),
    {
        let members = clone_members(self.values.entries());
        proof {
            lemma_object_view(members);
        }
        Value::Object(members)
    }
}

impl Clone for DynamicSamplingContext {
    fn clone(&self) -> (r: Self)
        ensures
            r@ == self@,
    {
        DynamicSamplingContext { values: self.values.clone() }
    }
}

/// Clones a trace context.
pub fn clone_trace(trace: &Option<Trace>) -> (r: Option<Trace>)
    ensures
        trace_view(r) == trace_view(*trace),
{
    match trace {
        None => None,
        Some(Err(fault)) => Some(Err(*fault)),
        Some(Ok(dsc)) => Some(Ok(dsc.clone())),
    }
}

} // verus!
