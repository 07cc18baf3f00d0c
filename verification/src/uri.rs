//! The generic URI kind.
//!
//! This is the fall-through case before opaque strings: most identifier
//! kinds are themselves URIs, so this recogniser is greedy and relies on
//! being tried after all of the specific kinds.

use crate::identifiers::{IdSpec, Identifier, IdentifierParseInput, UriViewSpec};
use vstd::prelude::*;

verus! {

/// What URI recognition yields: the URI's own normalised rendering, for any
/// input with a URI view.
pub open spec fn uri_parse_spec(v: UriViewSpec) -> Option<IdSpec> {
    if v.ok {
        Some(IdSpec::Uri(v.norm))
    } else {
        None
    }
}

/// The payload of a URI identifier.
pub open spec fn uri_value_spec(id: IdSpec) -> Option<Seq<char>> {
    match id {
        IdSpec::Uri(v) => Some(v),
        _ => None,
    }
}

/// Parse an input as a generic URI, relying on the pre-computed URI view.
pub fn try_parse(input: &IdentifierParseInput) -> (r: Option<Identifier>)
    ensures
        r.deep_view() == uri_parse_spec(input.uri_view()),
{
    match &input.uri {
        Some(parts) => Some(Identifier::Uri(parts.normalized.clone())),
        None => None,
    }
}

/// Represent a URI identifier as a URI string.
pub fn to_uri(input: &Identifier) -> (r: Option<String>)
    ensures
        r.deep_view() == uri_value_spec(input@),
{
    match input {
        Identifier::Uri(value) => Some(value.clone()),
        _ => None,
    }
}

/// Encode a URI identifier as a stable string: the URI itself.
pub fn to_stable_string(input: &Identifier) -> (r: Option<String>)
    ensures
        r.deep_view() == uri_value_spec(input@),
{
    to_uri(input)
}

} // verus!
