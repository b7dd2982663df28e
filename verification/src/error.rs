//! The ways a generation run can fail. Every one of them ends the run.

use vstd::prelude::*;

verus! {

/// The configuration texts that are read when a run starts.
#[derive(Debug, Clone, Copy, PartialEq, Eq)]
pub enum ConfigSource {
    /// The table that replaces characters in identifiers.
    IdentTranslations,
    /// The list of symbols that are known before any scan.
    StaticQstrs,
    /// The list of built-in symbols that open the discovered pool.
    UnsortedQstrs,
}

/// A fatal error of the extraction engine.
#[derive(Debug, PartialEq, Eq)]
pub enum ExtractError {
    /// A configuration text is not JSON5 of the shape that its use asks for.
    ConfigLoad { config: ConfigSource, message: String },
    /// A symbol value holds a control character, which asks for escaping, and
    /// a character outside ASCII, which cannot be escaped.
    Encoding { value: String },
    /// A scanning pattern did not compile, or one of its matches lacks a
    /// capture group that the pattern is written to fill.
    Pattern { message: String },
}

} // verus!
