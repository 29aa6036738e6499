//! Query parameters derived from a description of a record type.
//!
//! A record is described field by field: its name, the shape of its declared
//! type and the annotations attached to it ([`descriptor`]). The analyzer
//! settles for each field whether it is mandatory, optional or left out and
//! under which key it appears ([`analyzer`]); the assembler turns the fields
//! that take part into a plan, or says why the record has none
//! ([`assembler`], [`error`]). A plan and the field values of one instance
//! give the instance's ordered `(key, value)` pairs ([`params`]), which can be
//! percent-encoded ([`encoding`]). What holds of all of this is proved in
//! [`laws`].

pub mod analyzer;
pub mod assembler;
pub mod descriptor;
pub mod encoding;
pub mod error;
pub mod laws;
pub mod params;
pub mod text;

pub use params::ToQueryParams;
