//! The acknowledgment that a successful action hands back: a
//! `cosmwasm_std::Response` that carries the action's name as its only
//! attribute.

use cosmwasm_std::{Empty, Response};
use vstd::prelude::*;

verus! {

/// `cosmwasm_std::Empty`, the message type of a response that sends nothing on.
#[verifier::external_type_specification]
#[verifier::external_body]
pub struct ExEmpty(Empty);

/// `cosmwasm_std::Response`, carried through as an opaque value.
#[verifier::external_type_specification]
#[verifier::external_body]
#[verifier::reject_recursive_types(T)]
pub struct ExResponse<T>(Response<T>);

/// The attributes of a response, each as key and value, in the order in
/// which they were added.
pub uninterp spec fn response_attributes(response: Response<Empty>) -> Seq<(Seq<char>, Seq<char>)>;

/// The attribute list of the acknowledgment of `action`.
pub open spec fn action_attributes(action: Seq<char>) -> Seq<(Seq<char>, Seq<char>)> {
    seq![("action"@, action)]
}

/// Calls `Response::new`. Trusted: the new response has no attribute.
#[verifier::external_body]
fn new_response() -> (response: Response<Empty>)
    ensures
        response_attributes(response) == Seq::<(Seq<char>, Seq<char>)>::empty(),
{
    Response::new()
}

/// Calls `Response::add_attribute`. Trusted: the response that comes back
/// has the attributes of the one that went in, followed by one with the
/// given key and value. A key that begins with an underscore is left out: in
/// a build with debug assertions the call panics on it.
#[verifier::external_body]
fn with_attribute(response: Response<Empty>, key: &str, value: &str) -> (extended: Response<Empty>)
    requires
        key@.len() == 0 || key@[0] != '_',
    ensures
        response_attributes(extended) == response_attributes(response).push((key@, value@)),
{
    response.add_attribute(key, value)
}

/// The acknowledgment of `action`: a response whose only attribute has the
/// key `action` and the action's name as its value.
pub fn action_response(action: &str) -> (response: Response<Empty>)
    ensures
        response_attributes(response) == action_attributes(action@),
{
    proof {
        reveal_strlit("action");
    }
    with_attribute(new_response(), "action", action)
}

} // verus!
