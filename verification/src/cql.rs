//! A verified parser for a subset of the OGC Common Query Language
//! filter grammar.
//!
//! The grammar is specified once, as spec functions over sequences of
//! characters (`grammar`), and implemented once, as executable functions
//! over `&str` (`parse`); the contract of every executable parser says
//! that it returns exactly what the specification does.  General facts
//! about the parser are stated and proved in `laws`.

pub mod ast;
pub mod grammar;
pub mod laws;
pub mod parse;
