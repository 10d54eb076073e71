//! Models and tools for OGC technologies.
//!
//! The heart of the crate is a verified parser for a subset of the OGC
//! Common Query Language filter grammar: identifiers (quoted and unquoted),
//! signed and unsigned numeric literals, binary arithmetic expressions with
//! optional parenthesization, and single-level function calls.  Every parsing
//! entry point is a total function from a text slice and a start position to
//! either a typed value plus the position of the unconsumed remainder, or a
//! typed failure carrying the offending position — it can never abort.
//!
//! The surrounding service plumbing (capability documents, map requests,
//! link attribute bundles) is modelled here as plain data; talking to a
//! remote endpoint is left to callers.

pub mod cql;
pub mod wms;
pub mod xlink;
