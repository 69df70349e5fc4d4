//! What std's own `From` impls do, for arguments that are taken as `impl Into<..>`.

use vstd::prelude::*;

verus! {

/// `String::from(&str)` gives an owned string of the same characters.
pub assume_specification<'a>[ <std::string::String as From<&'a str>>::from ](s: &str) -> (r:
    std::string::String)
    ensures
        r@ == s@,
;

/// The reflexive `From` impl gives its argument back.
pub assume_specification<Same>[ <Same as From<Same>>::from ](t: Same) -> (r: Same)
    ensures
        r == t,
;

} // verus!
