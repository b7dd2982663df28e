//! The static configuration of a run: the table that makes symbol values fit
//! for identifiers, and the two lists of built-in symbols.

use std::collections::HashMap;

use vstd::prelude::*;
use vstd::utf8::char_u32_cast;

use crate::error::{ConfigSource, ExtractError};
use crate::text::views;

verus! {

/// The error type of the JSON5 reader, carried through as it comes.
#[verifier::external_type_specification]
#[verifier::external_body]
pub struct ExJson5Error(json5::Error);

/// The map that `json5::from_str` reads from a text when it is asked for a
/// map from characters to strings and succeeds.
pub uninterp spec fn json5_char_map(text: Seq<char>) -> Map<char, Seq<char>>;

/// The list that `json5::from_str` reads from a text when it is asked for a
/// list of strings and succeeds.
pub uninterp spec fn json5_string_list(text: Seq<char>) -> Seq<Seq<char>>;

/// Maps single characters to the names that stand for them in identifiers.
pub struct TranslationTable {
    entries: HashMap<u32, String>,
}

impl View for TranslationTable {
    type V = Map<char, Seq<char>>;

    closed spec fn view(&self) -> Map<char, Seq<char>> {
        Map::new(
            |c: char| self.entries@.contains_key(c as u32),
            |c: char| self.entries@[c as u32]@,
        )
    }
}

impl TranslationTable {
    /// A table that translates no character.
    pub fn new() -> (table: Self)
        ensures
            table@ == Map::<char, Seq<char>>::empty(),
    {
        TranslationTable { entries: HashMap::new() }
    }

    /// Sets the replacement of `c`, in place of an earlier one if there is any.
    pub fn insert(&mut self, c: char, replacement: String)
        ensures
            final(self)@ == old(self)@.insert(c, replacement@),
    {
        self.entries.insert(c as u32, replacement);
        proof {
            let goal = old(self)@.insert(c, replacement@);
            assert forall|d: char| self@.contains_key(d) == goal.contains_key(d) by {
                char_u32_cast(d, d as u32);
                char_u32_cast(c, c as u32);
            }
            assert forall|d: char| self@.contains_key(d) implies self@[d] == goal[d] by {
                char_u32_cast(d, d as u32);
                char_u32_cast(c, c as u32);
            }
        }
    }

    /// The replacement of `c`, if the table has one.
    pub fn get(&self, c: char) -> (found: Option<&String>)
        ensures
            match found {
                Some(replacement) => self@.contains_key(c) && replacement@ == self@[c],
                None => !self@.contains_key(c),
            },
    {
        let code = c as u32;
        self.entries.get(&code)
    }
}

/// Reads a translation table from JSON5 text.
///
/// Trusted: calls `json5::from_str` for a `HashMap<char, String>` and moves
/// each entry, unchanged, under the code point of its key. Whether the call
/// succeeds is left open: besides the text, the parser looks at the stack
/// that is left to it. Where it succeeds, what it read is a matter of the
/// text alone, and the contract gives that a name.
#[verifier::external_body]
fn parse_translations(text: &str) -> (parsed: Result<TranslationTable, json5::Error>)
    ensures
        parsed matches Ok(table) ==> table@ == json5_char_map(text@),
{
    let map: HashMap<char, String> = json5::from_str(text)?;
    Ok(TranslationTable { entries: map.into_iter().map(|(c, s)| (c as u32, s)).collect() })
}

/// Reads a list of strings from JSON5 text.
///
/// Trusted: calls `json5::from_str` for a `Vec<String>`. Whether the call
/// succeeds is left open, as for the translation table. Where it succeeds,
/// what it read is a matter of the text alone, and the contract gives that a
/// name.
#[verifier::external_body]
fn parse_string_list(text: &str) -> (parsed: Result<Vec<String>, json5::Error>)
    ensures
        parsed matches Ok(list) ==> views(list@) == json5_string_list(text@),
{
    json5::from_str(text)
}

/// The static configuration, as plain values.
pub struct DataView {
    pub qstr_ident_translations: Map<char, Seq<char>>,
    pub static_qstrs: Seq<Seq<char>>,
    pub unsorted_qstrs: Seq<Seq<char>>,
}

/// The static configuration of a run. It is loaded once and never changed.
pub struct Data {
    /// Replacements for the characters that an identifier cannot hold.
    pub qstr_ident_translations: TranslationTable,
    /// The symbols of the static pool, in table order.
    pub static_qstrs: Vec<String>,
    /// The built-in symbols that open the discovered pool, in table order.
    pub unsorted_qstrs: Vec<String>,
}

impl View for Data {
    type V = DataView;

    open spec fn view(&self) -> DataView {
        DataView {
            qstr_ident_translations: self.qstr_ident_translations@,
            static_qstrs: views(self.static_qstrs@),
            unsorted_qstrs: views(self.unsorted_qstrs@),
        }
    }
}

/// What loading makes of the three readings: the configuration where all
/// three succeeded, else the first text, in reading order, that failed.
pub open spec fn spec_load(
    translations: Option<Map<char, Seq<char>>>,
    static_qstrs: Option<Seq<Seq<char>>>,
    unsorted_qstrs: Option<Seq<Seq<char>>>,
) -> Result<DataView, ConfigSource> {
    match (translations, static_qstrs, unsorted_qstrs) {
        (None, _, _) => Err(ConfigSource::IdentTranslations),
        (Some(_), None, _) => Err(ConfigSource::StaticQstrs),
        (Some(_), Some(_), None) => Err(ConfigSource::UnsortedQstrs),
        (Some(t), Some(s), Some(u)) => Ok(
            DataView { qstr_ident_translations: t, static_qstrs: s, unsorted_qstrs: u },
        ),
    }
}

/// What a reading gave, if it gave anything.
pub open spec fn read_table(parsed: Result<TranslationTable, json5::Error>) -> Option<
    Map<char, Seq<char>>,
> {
    match parsed {
        Ok(table) => Some(table@),
        Err(_) => None,
    }
}

/// What a reading gave, if it gave anything.
pub open spec fn read_list(parsed: Result<Vec<String>, json5::Error>) -> Option<Seq<Seq<char>>> {
    match parsed {
        Ok(list) => Some(views(list@)),
        Err(_) => None,
    }
}

impl Data {
    /// Puts the configuration together from the readings of its three
    /// texts: the translation table, the static symbols and the built-in
    /// discovered symbols. The first reading, in that order, that failed
    /// makes a `ConfigLoad` error that names its text and carries the
    /// reader's message.
    pub fn from_parsed(
        translations: Result<TranslationTable, json5::Error>,
        static_qstrs: Result<Vec<String>, json5::Error>,
        unsorted_qstrs: Result<Vec<String>, json5::Error>,
    ) -> (loaded: Result<Data, ExtractError>)
        ensures
            match spec_load(
                read_table(translations),
                read_list(static_qstrs),
                read_list(unsorted_qstrs),
            ) {
                Ok(view) => loaded matches Ok(data) && data@ == view,
                Err(failed) => loaded matches Err(ExtractError::ConfigLoad { config, .. })
                    && config == failed,
            },
    {
        let qstr_ident_translations = match translations {
            Ok(table) => table,
            Err(e) => {
                return Err(
                    ExtractError::ConfigLoad {
                        config: ConfigSource::IdentTranslations,
                        message: e.to_string(),
                    },
                );
            },
        };
        let static_qstrs = match static_qstrs {
            Ok(list) => list,
            Err(e) => {
                return Err(
                    ExtractError::ConfigLoad {
                        config: ConfigSource::StaticQstrs,
                        message: e.to_string(),
                    },
                );
            },
        };
        let unsorted_qstrs = match unsorted_qstrs {
            Ok(list) => list,
            Err(e) => {
                return Err(
                    ExtractError::ConfigLoad {
                        config: ConfigSource::UnsortedQstrs,
                        message: e.to_string(),
                    },
                );
            },
        };
        Ok(Data { qstr_ident_translations, static_qstrs, unsorted_qstrs })
    }

    /// Loads the configuration from its three JSON5 texts: the translation
    /// table, the static symbols and the built-in discovered symbols.
    ///
    /// Whether a text can be read is for the JSON5 reader to say. Where all
    /// three can, the configuration holds what was read from them; otherwise
    /// the result is the `ConfigLoad` error of `from_parsed`.
    pub fn new(translations: &str, static_qstrs: &str, unsorted_qstrs: &str) -> (loaded: Result<
        Data,
        ExtractError,
    >)
        ensures
            match loaded {
                Ok(data) => data@ == (DataView {
                    qstr_ident_translations: json5_char_map(translations@),
                    static_qstrs: json5_string_list(static_qstrs@),
                    unsorted_qstrs: json5_string_list(unsorted_qstrs@),
                }),
                Err(error) => error is ConfigLoad,
            },
    {
        Self::from_parsed(
            parse_translations(translations),
            parse_string_list(static_qstrs),
            parse_string_list(unsorted_qstrs),
        )
    }
}

} // verus!
