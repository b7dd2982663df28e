//! Run configuration: the width of the stored hash and string length, and
//! the extra symbols to intern.

use vstd::prelude::*;

use crate::text::{str_equal, views};

verus! {

/// How many bytes a stored quantity occupies.
#[derive(Debug, Clone, Copy)]
pub enum BytesIn {
    One,
    Two,
}

impl BytesIn {
    /// The largest value that fits in this many bytes.
    pub open spec fn spec_mask(self) -> u32 {
        match self {
            BytesIn::One => 0xff,
            BytesIn::Two => 0xffff,
        }
    }

    /// The bit mask that keeps this many low bytes of a value.
    pub fn mask(&self) -> (m: u32)
        ensures
            m == self.spec_mask(),
    {
        match self {
            Self::One => 0xff,
            Self::Two => 0xffff,
        }
    }
}

impl Default for BytesIn {
    fn default() -> (width: Self)
        ensures
            width == BytesIn::Two,
    {
        Self::Two
    }
}

/// The settings of one generation run.
#[derive(Debug)]
pub struct Config {
    /// The width of the hash that is stored with each symbol.
    pub bytes_in_hash: BytesIn,
    /// The width of the length that is stored with each symbol.
    pub bytes_in_string: BytesIn,
    /// Symbols to intern besides those that the scan finds, in this order.
    pub extra_qstrs: Vec<String>,
}

impl Default for Config {
    fn default() -> (config: Self)
        ensures
            config.bytes_in_hash == BytesIn::Two,
            config.bytes_in_string == BytesIn::Two,
            config.extra_qstrs@.len() == 0,
    {
        Config { bytes_in_hash: BytesIn::Two, bytes_in_string: BytesIn::Two, extra_qstrs: Vec::new() }
    }
}

/// What the build does with a file of the interpreter's source directory.
#[derive(Debug, Clone, Copy, PartialEq, Eq, Structural)]
pub enum FileUse {
    /// A header that the bindings are generated from.
    Header,
    /// A source file that is scanned and compiled.
    Source,
    /// Neither.
    Unused,
}

/// Whether a path, given by its components, ends in `py` and then one of
/// the headers that are no input of the bindings: they are meant to be
/// included under conditions that the build does not set up.
pub open spec fn is_excluded_header(path: Seq<Seq<char>>) -> bool {
    let n = path.len();
    &&& n >= 2
    &&& path[n - 2] == "py"@
    &&& (path[n - 1] == "dynruntime.h"@ || path[n - 1] == "grammar.h"@ || path[n - 1]
        == "qstrdefs.h"@ || path[n - 1] == "vmentrytable.h"@)
}

/// The use of a file by its path and extension: a `.h` file that is not
/// excluded is a header, a `.c` file is a source.
pub open spec fn spec_file_use(path: Seq<Seq<char>>, extension: Seq<char>) -> FileUse {
    if extension == "h"@ && !is_excluded_header(path) {
        FileUse::Header
    } else if extension == "c"@ {
        FileUse::Source
    } else {
        FileUse::Unused
    }
}

impl Config {
    /// Whether the header at `path`, given by its components, is an input of
    /// the bindings.
    pub fn is_header_used(&self, path: &Vec<String>) -> (used: bool)
        ensures
            used == !is_excluded_header(views(path@)),
    {
        let n = path.len();
        if n < 2 {
            return true;
        }
        if !str_equal(path[n - 2].as_str(), "py") {
            return true;
        }
        let name = path[n - 1].as_str();
        !(str_equal(name, "dynruntime.h") || str_equal(name, "grammar.h") || str_equal(
            name,
            "qstrdefs.h",
        ) || str_equal(name, "vmentrytable.h"))
    }

    /// What the build does with the file at `path`, given by its components,
    /// that has the extension `extension`.
    pub fn file_use(&self, path: &Vec<String>, extension: &str) -> (uses: FileUse)
        ensures
            uses == spec_file_use(views(path@), extension@),
    {
        if str_equal(extension, "h") && self.is_header_used(path) {
            FileUse::Header
        } else if str_equal(extension, "c") {
            FileUse::Source
        } else {
            FileUse::Unused
        }
    }

    /// Adds one more symbol to intern, behind those already asked for.
    pub fn qstr(self, qstr: &str) -> (config: Self)
        ensures
            config.bytes_in_hash == self.bytes_in_hash,
            config.bytes_in_string == self.bytes_in_string,
            views(config.extra_qstrs@) == views(self.extra_qstrs@).push(qstr@),
    {
        let mut config = self;
        config.extra_qstrs.push(qstr.to_string());
        config
    }
}

} // verus!
