//! What optional values stand for.
use vstd::prelude::*;

verus! {

/// What an optional value stands for.
pub open spec fn opt_view<T: View>(value: Option<T>) -> Option<T::V> {
    match value {
        Some(value) => Some(value@),
        None => None,
    }
}

/// Borrows an optional text.
pub fn opt_str(text: &Option<String>) -> (r: Option<&str>)
    ensures
        opt_view(r) == opt_view(*text),
{
    match text {
        Some(text) => Some(text.as_str()),
        None => None,
    }
}

/// Whether two optional texts are the same.
pub fn same_opt(a: &Option<String>, b: &Option<String>) -> (r: bool)
    ensures
        r == (opt_view(*a) == opt_view(*b)),
{
    match (a, b) {
        (Some(a), Some(b)) => *a == *b,
        (None, None) => true,
        _ => false,
    }
}

} // verus!
