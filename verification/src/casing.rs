//! Case conversion for emitted identifiers.
//!
//! The conversions themselves are performed by the `heck` crate; their
//! results are pure functions of the input characters and are given names
//! here so that contracts can speak of them exactly.

use vstd::prelude::*;

verus! {

/// The snake_case form of a name, as `heck` computes it.
pub uninterp spec fn snake_of(s: Seq<char>) -> Seq<char>;

/// The UpperCamelCase form of a name, as `heck` computes it.
pub uninterp spec fn camel_of(s: Seq<char>) -> Seq<char>;

/// Relies on `heck::ToSnakeCase` for `str`: converts a name to snake_case;
/// the result depends on the input characters alone.
#[verifier::external_body]
pub(crate) fn to_snake_case(s: &str) -> (r: String)
    ensures
        r@ == snake_of(s@),
{
    heck::ToSnakeCase::to_snake_case(s)
}

/// Relies on `heck::ToUpperCamelCase` for `str`: converts a name to
/// UpperCamelCase; the result depends on the input characters alone.
#[verifier::external_body]
pub(crate) fn to_camel_case(s: &str) -> (r: String)
    ensures
        r@ == camel_of(s@),
{
    heck::ToUpperCamelCase::to_upper_camel_case(s)
}

} // verus!
