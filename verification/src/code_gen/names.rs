use vstd::prelude::*;

use heck::{CamelCase, SnakeCase};

verus! {

/// What `heck` makes of a name in snake case (`CountryId` becomes `country_id`).
pub uninterp spec fn snake_case(name: Seq<char>) -> Seq<char>;

/// What `heck` makes of a name in upper camel case (`home_country` becomes `HomeCountry`).
pub uninterp spec fn camel_case(name: Seq<char>) -> Seq<char>;

/// The name in snake case.
///
/// Calls `heck::SnakeCase::to_snake_case`; the contract names its result and says nothing more
/// of it.
#[verifier::external_body]
pub(crate) fn to_snake_case(name: &str) -> (snake: String)
    ensures
        snake@ == snake_case(name@),
{
    name.to_snake_case()
}

/// The name in upper camel case.
///
/// Calls `heck::CamelCase::to_camel_case`; the contract names its result and says nothing more
/// of it.
#[verifier::external_body]
pub(crate) fn to_camel_case(name: &str) -> (camel: String)
    ensures
        camel@ == camel_case(name@),
{
    name.to_camel_case()
}

/// `given` when there is one, otherwise the snake case form of `name`.
pub open spec fn given_or_snake_case(given: Option<Seq<char>>, name: Seq<char>) -> Seq<char> {
    match given {
        Some(given) => given,
        None => snake_case(name),
    }
}

/// `given` when there is one, otherwise `fallback`.
pub open spec fn given_or(given: Option<Seq<char>>, fallback: Seq<char>) -> Seq<char> {
    match given {
        Some(given) => given,
        None => fallback,
    }
}

/// The view of an optional string.
pub open spec fn view_of(given: Option<String>) -> Option<Seq<char>> {
    match given {
        Some(s) => Some(s@),
        None => None,
    }
}

/// A copy of a string.
pub fn copy_of(s: &String) -> (copy: String)
    ensures
        copy@ == s@,
{
    s.clone()
}

/// `given` when there is one, otherwise `fallback`.
pub fn given_or_else(given: &Option<String>, fallback: &str) -> (name: String)
    ensures
        name@ == given_or(view_of(*given), fallback@),
{
    match given {
        Some(given) => copy_of(given),
        None => String::from_str(fallback),
    }
}

/// `given` when there is one, otherwise the snake case form of `name`.
pub fn given_or_snake_cased(given: &Option<String>, name: &String) -> (r: String)
    ensures
        r@ == given_or_snake_case(view_of(*given), name@),
{
    match given {
        Some(given) => copy_of(given),
        None => to_snake_case(name.as_str()),
    }
}

/// The two names one after the other.
pub fn joined(first: &str, second: &str) -> (r: String)
    ensures
        r@ == first@ + second@,
{
    let mut r = String::from_str(first);
    r.append(second);
    r
}

/// The name of the struct that tells apart the `EagerLoadChildrenOfType` impl of one field:
/// `EagerLoadingContext{struct}For{field in camel case}`.
pub open spec fn impl_context_name_spec(struct_name: Seq<char>, field_name: Seq<char>) -> Seq<char> {
    "EagerLoadingContext"@ + struct_name + "For"@ + camel_case(field_name)
}

/// The name of the struct that tells apart the `EagerLoadChildrenOfType` impl of one field.
pub fn impl_context_name(struct_name: &String, field_name: &String) -> (r: String)
    ensures
        r@ == impl_context_name_spec(struct_name@, field_name@),
{
    let camel_name = to_camel_case(field_name.as_str());
    let mut r = String::from_str("EagerLoadingContext");
    r.append(struct_name.as_str());
    r.append("For");
    r.append(camel_name.as_str());
    proof {
        reveal_strlit("EagerLoadingContext");
        reveal_strlit("For");
    }
    r
}

/// The name of the method on a query trail that gives the arguments of a field: `{field}_args`.
pub fn field_args_name(field_name: &String) -> (r: String)
    ensures
        r@ == field_name@ + "_args"@,
{
    joined(field_name.as_str(), "_args")
}

} // verus!
