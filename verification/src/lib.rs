//! Build-time symbol and module extraction for an embedded MicroPython.
//!
//! The interpreter interns its strings: every symbol that its C sources name
//! as `MP_QSTR_...` gets an entry of the generated symbol table, with a hash,
//! a length and an identifier. Likewise every module that the sources register
//! gets an entry of the generated module table. This library computes both
//! tables from the preprocessed text of the sources:
//!
//! - [`qstr`] computes the record of one symbol and collects the symbols of
//!   scanned text, each once, in the order in which they are first seen;
//! - [`module`] collects the module registrations under their three
//!   categories;
//! - [`extract`] runs both over all translation units and puts the results
//!   together with the symbols that the configuration adds;
//! - [`config`] and [`data`] hold the settings of a run and its static
//!   configuration;
//! - [`fresh`] states what keeping the first of each identifier means, and
//!   proves what follows from it;
//! - [`vm`] is the memory that an interpreter instance runs in.
//!
//! Every function is verified against its contract, with these exceptions,
//! whose contracts are taken on trust: compiling and matching regular
//! expressions ([`pattern`], the `regex` crate), reading JSON5 ([`data`], the
//! `json5` crate), and two functions of the standard library, `String::push`
//! ([`text`]) and `str::to_uppercase` ([`module`]). Which patterns compile,
//! which text a pattern matches, what a JSON5 text holds and what the upper
//! case of a text is are not stated anywhere: the contracts give these
//! outcomes a name.

pub mod config;
pub mod data;
pub mod error;
pub mod extract;
pub mod fresh;
pub mod module;
pub mod pattern;
pub mod qstr;
pub mod text;
pub mod vm;

pub use config::{BytesIn, Config};
pub use data::{Data, TranslationTable};
pub use error::{ConfigSource, ExtractError};
pub use extract::{extract_data, ExtractedData, TranslationUnit};
pub use vm::VmState;
