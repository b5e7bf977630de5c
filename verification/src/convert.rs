//! Conversions of the standard library that arguments go through.
use vstd::prelude::*;

verus! {

/// `From` of a type for itself: the value stays as it is. Arguments that already have the type
/// that a setter converts them to go through it.
pub assume_specification<Same>[ <Same as From<Same>>::from ](value: Same) -> (r: Same)
    ensures
        r == value,
;

/// `From<&str>` of `String`: the same text.
pub assume_specification<'a>[ <std::string::String as From<&'a str>>::from ](
    text: &str,
) -> (r: std::string::String)
    ensures
        r@ == text@,
;

} // verus!
