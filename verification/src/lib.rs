//! Recognition and normalisation of scholarly identifiers: DOI, ORCID, ROR,
//! ISBN, with generic URIs and opaque strings as fall-through kinds.
//!
//! Free-form input (raw codes, resolver URLs, URNs) is dispatched through a
//! fixed-precedence list of recognisers, each owning one checksum and
//! normalisation discipline, and the recognised identifier can be rendered
//! back to a resolvable URI or to a stable key string that parses back to the
//! same identifier.

pub mod doi;
pub mod identifiers;
pub mod isbn;
pub mod laws;
pub mod orcid;
pub mod pct;
pub mod ror;
pub mod text;
pub mod uri;
