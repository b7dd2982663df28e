//! Interned strings: the record that is computed for a symbol value, and the
//! extractor that collects symbols from scanned text.

use regex::Regex;
use vstd::hash_set::StringHashSet;
use vstd::prelude::*;
use vstd::string::*;
use vstd::utf8::*;

use crate::config::{BytesIn, Config};
use crate::data::{Data, DataView};
use crate::error::ExtractError;
use crate::fresh::{
    distinct_idents,
    first_seen,
    fresh_positions,
    fresh_records,
    idents_of,
    lemma_fresh_records_cover,
    lemma_fresh_records_push,
    lemma_idents_of_concat,
    lemma_idents_of_push,
    lemma_fresh_records_order,
    lemma_fresh_records_unique,
};
use crate::pattern::{
    captures_in,
    compile,
    groups_view,
    regex_captures,
    regex_compiles,
    regex_source,
};
use crate::text::{push_char, views};

verus! {

/// The pool of the symbols that are known before any scan. The built-in
/// symbols that open the discovered list carry this tag too.
pub const POOL_STATIC: u8 = 0;

/// The pool of the symbols that a scan, or the configuration, adds.
pub const POOL_DISCOVERED: u8 = 1;

/// The namespace that every identifier starts with.
pub open spec fn ident_prefix() -> Seq<char> {
    "MP_QSTR_"@
}

/// Whether `c` is an ASCII control character: below U+0020, or U+007F.
pub open spec fn is_ascii_control(c: char) -> bool {
    (c as u32) < 0x20 || c as u32 == 0x7f
}

/// Whether a value holds an ASCII control character.
pub open spec fn has_control(val: Seq<char>) -> bool {
    exists|i: int| 0 <= i < val.len() && is_ascii_control(#[trigger] val[i])
}

/// Whether a value can be written into a generated literal: it needs no
/// escaping, or it is all ASCII.
pub open spec fn encodable(val: Seq<char>) -> bool {
    !has_control(val) || is_ascii_chars(val)
}

/// The lowercase hexadecimal digit for a number below sixteen.
pub open spec fn spec_hex_digit(n: u8) -> char {
    if n < 10 {
        (0x30 + n) as char
    } else {
        (0x57 + n) as char
    }
}

/// The escape of one ASCII character: a backslash, `x`, and the two
/// hexadecimal digits of its byte value.
pub open spec fn escape_char(c: char) -> Seq<char> {
    seq!['\\', 'x', spec_hex_digit(c as u8 / 16), spec_hex_digit(c as u8 % 16)]
}

/// A value with every character escaped.
pub open spec fn escape_all(val: Seq<char>) -> Seq<char> {
    val.map_values(|c: char| escape_char(c)).flatten()
}

/// The text that stands for a value in a generated literal: the value itself
/// where it holds no control character, else every character escaped.
pub open spec fn escaped_value(val: Seq<char>) -> Seq<char> {
    if has_control(val) {
        escape_all(val)
    } else {
        val
    }
}

/// The number that a lowercase hexadecimal digit stands for.
pub open spec fn hex_value(digit: char) -> int {
    if '0' <= digit <= '9' {
        digit as int - 0x30
    } else {
        digit as int - 0x57
    }
}

/// An escaped text read back: every group of four characters, which are
/// `\x` and two hexadecimal digits, gives the character with that number.
pub open spec fn unescape(text: Seq<char>) -> Seq<char>
    decreases text.len(),
{
    if text.len() < 4 {
        Seq::empty()
    } else {
        seq![(hex_value(text[2]) * 16 + hex_value(text[3])) as char] + unescape(text.skip(4))
    }
}

/// Escaping loses nothing: an all-ASCII value that holds a control character
/// is read back from its escaped form, and a value without control
/// characters is its own escaped form.
pub proof fn lemma_escape_round_trip(val: Seq<char>)
    ensures
        has_control(val) && is_ascii_chars(val) ==> unescape(escaped_value(val)) == val,
        !has_control(val) ==> escaped_value(val) == val,
{
    if is_ascii_chars(val) {
        lemma_unescape_escape_all(val);
    }
}

/// Every character of an all-ASCII text is read back from its escape.
proof fn lemma_unescape_escape_all(val: Seq<char>)
    requires
        is_ascii_chars(val),
    ensures
        unescape(escape_all(val)) == val,
    decreases val.len(),
{
    if val.len() > 0 {
        let escape = |c: char| escape_char(c);
        let rest = val.drop_first();
        assert(val.map_values(escape).drop_first() =~= rest.map_values(escape));
        assert(escape_all(val).skip(4) =~= escape_all(rest));
        lemma_unescape_escape_all(rest);
    }
}

/// What one character of a value contributes to the identifier: its
/// replacement between two underscores where the table has one, else itself.
pub open spec fn ident_piece(table: Map<char, Seq<char>>, c: char) -> Seq<char> {
    if table.contains_key(c) {
        seq!['_'] + table[c] + seq!['_']
    } else {
        seq![c]
    }
}

/// The identifier of a value: the prefix, then the piece for each character.
pub open spec fn spec_ident(table: Map<char, Seq<char>>, val: Seq<char>) -> Seq<char> {
    ident_prefix() + val.map_values(|c: char| ident_piece(table, c)).flatten()
}

/// One round of the rolling hash: times 33 in 32 bits, then XOR the byte.
pub open spec fn djb_step(acc: u32, byte: u8) -> u32 {
    (((acc as nat * 33) % 0x1_0000_0000) as u32) ^ (byte as u32)
}

/// The rolling hash of a byte string, before it is cut to its width.
pub open spec fn djb_hash(bytes: Seq<u8>) -> u32
    decreases bytes.len(),
{
    if bytes.len() == 0 {
        5381
    } else {
        djb_step(djb_hash(bytes.drop_last()), bytes.last())
    }
}

/// The hash that is stored with a symbol: the rolling hash cut to the
/// configured width, with 1 in place of 0.
pub open spec fn spec_hash(bytes: Seq<u8>, width: BytesIn) -> u32 {
    let masked = djb_hash(bytes) & width.spec_mask();
    if masked == 0 {
        1
    } else {
        masked
    }
}

/// The stored hash is never 0, and it fits the configured width.
pub proof fn lemma_hash_in_range(bytes: Seq<u8>, width: BytesIn)
    ensures
        0 < spec_hash(bytes, width) <= width.spec_mask(),
{
    let acc = djb_hash(bytes);
    let mask = width.spec_mask();
    assert(acc & mask <= mask) by (bit_vector);
}

/// A symbol record as plain values.
pub struct QStrView {
    pub pool: u8,
    pub value: Seq<char>,
    pub val: Seq<char>,
    pub ident: Seq<char>,
    pub hash: u32,
    pub val_len: nat,
    pub source: Seq<char>,
}

/// The record of a symbol value.
pub open spec fn spec_qstr(
    width: BytesIn,
    table: Map<char, Seq<char>>,
    val: Seq<char>,
    pool: u8,
    source: Seq<char>,
) -> QStrView {
    QStrView {
        pool,
        value: val,
        val: escaped_value(val),
        ident: spec_ident(table, val),
        hash: spec_hash(encode_utf8(val), width),
        val_len: encode_utf8(val).len(),
        source,
    }
}

/// An interned string with what the generated table stores for it.
#[derive(Debug)]
pub struct QStr {
    /// The pool that the symbol belongs to.
    pub pool: u8,
    /// The value as it was given.
    pub value: String,
    /// The value as it is written into a generated literal.
    pub val: String,
    /// The identifier under which the symbol is known.
    pub ident: String,
    /// The hash of the value's bytes. It is never 0.
    pub hash: u32,
    /// The number of bytes of the value.
    pub val_len: usize,
    /// Where the symbol was found. It serves diagnostics only.
    pub source: String,
}

impl View for QStr {
    type V = QStrView;

    open spec fn view(&self) -> QStrView {
        QStrView {
            pool: self.pool,
            value: self.value@,
            val: self.val@,
            ident: self.ident@,
            hash: self.hash,
            val_len: self.val_len as nat,
            source: self.source@,
        }
    }
}

impl Clone for QStr {
    fn clone(&self) -> (copy: Self)
        ensures
            copy == *self,
    {
        QStr {
            pool: self.pool,
            value: self.value.clone(),
            val: self.val.clone(),
            ident: self.ident.clone(),
            hash: self.hash,
            val_len: self.val_len,
            source: self.source.clone(),
        }
    }
}

/// The lowercase hexadecimal digit for a number below sixteen.
fn hex_digit(n: u8) -> (digit: char)
    requires
        n < 16,
    ensures
        digit == spec_hex_digit(n),
{
    if n < 10 {
        (0x30 + n) as char
    } else {
        (0x57 + n) as char
    }
}

/// Whether a value holds an ASCII control character.
fn contains_control(val: &str) -> (found: bool)
    ensures
        found == has_control(val@),
{
    let mut found = false;
    for c in it: val.chars()
        invariant
            it.seq() == val@,
            found == has_control(val@.take(it.index() as int)),
    {
        let ghost after = val@.take(it.index() + 1);
        if (c as u32) < 0x20 || c as u32 == 0x7f {
            found = true;
            assert(is_ascii_control(after[it.index() as int]));
        }
    }
    assert(val@.take(val@.len() as int) =~= val@);
    found
}

impl QStr {
    /// The stored hash of a byte string for a hash of the given width.
    pub fn hash(data: &[u8], bytes_in_hash: &BytesIn) -> (hash: u32)
        ensures
            hash == spec_hash(data@, *bytes_in_hash),
            hash != 0,
            hash <= bytes_in_hash.spec_mask(),
    {
        let mut acc: u32 = 5381;
        let mut i: usize = 0;
        while i < data.len()
            invariant
                i <= data.len(),
                acc == djb_hash(data@.take(i as int)),
            decreases data.len() - i,
        {
            assert(data@.take(i + 1).drop_last() =~= data@.take(i as int));
            acc = acc.wrapping_mul(33) ^ (data[i] as u32);
            i += 1;
        }
        assert(data@.take(i as int) =~= data@);
        let mask = bytes_in_hash.mask();
        let masked = acc & mask;
        assert(masked <= mask) by (bit_vector)
            requires
                masked == acc & mask,
        ;
        // A stored hash of 0 means that none was computed, so no symbol has it.
        if masked == 0 {
            1
        } else {
            masked
        }
    }

    /// The identifier of a value: the prefix `MP_QSTR_`, then every character
    /// of the value, a character that the table translates as its replacement
    /// between two underscores. Other characters pass unchanged, whether or
    /// not an identifier can hold them.
    pub fn ident(data: &Data, val: &str) -> (ident: String)
        ensures
            ident@ == spec_ident(data.qstr_ident_translations@, val@),
    {
        let ghost table = data.qstr_ident_translations@;
        let ghost piece = |c: char| ident_piece(table, c);
        let mut s = "MP_QSTR_".to_string();
        proof {
            reveal_strlit("_");
        }
        for c in it: val.chars()
            invariant
                it.seq() == val@,
                table == data.qstr_ident_translations@,
                piece == |c: char| ident_piece(table, c),
                "_"@ == seq!['_'],
                s@ == ident_prefix() + val@.take(it.index() as int).map_values(piece).flatten(),
        {
            let ghost done = val@.take(it.index() as int).map_values(piece);
            proof {
                assert(val@.take(it.index() + 1).map_values(piece) =~= done.push(piece(c)));
                done.lemma_flatten_push(piece(c));
            }
            match data.qstr_ident_translations.get(c) {
                Some(replacement) => {
                    s.append("_");
                    s.append(replacement.as_str());
                    s.append("_");
                },
                None => {
                    push_char(&mut s, c);
                },
            }
        }
        assert(val@.take(val@.len() as int) =~= val@);
        s
    }

    /// The text that stands for a value in a generated literal. A value
    /// without control characters stands for itself. Otherwise every character
    /// is written as `\x` and the two lowercase hexadecimal digits of its
    /// byte, which only an all-ASCII value allows: for any other the result is
    /// an `Encoding` error that carries the value.
    pub fn escape_string(val: &str) -> (escaped: Result<String, ExtractError>)
        ensures
            match escaped {
                Ok(text) => encodable(val@) && text@ == escaped_value(val@),
                Err(ExtractError::Encoding { value }) => !encodable(val@) && value@ == val@,
                Err(_) => false,
            },
    {
        if !contains_control(val) {
            return Ok(val.to_string());
        }
        if !val.is_ascii() {
            return Err(ExtractError::Encoding { value: val.to_string() });
        }
        let ghost escape = |c: char| escape_char(c);
        let mut output = String::new();
        for c in it: val.chars()
            invariant
                it.seq() == val@,
                is_ascii_chars(val@),
                escape == |c: char| escape_char(c),
                output@ == val@.take(it.index() as int).map_values(escape).flatten(),
        {
            let ghost done = val@.take(it.index() as int).map_values(escape);
            proof {
                assert(val@.take(it.index() + 1).map_values(escape) =~= done.push(escape(c)));
                done.lemma_flatten_push(escape(c));
            }
            let byte = c as u8;
            push_char(&mut output, '\\');
            push_char(&mut output, 'x');
            push_char(&mut output, hex_digit(byte / 16));
            push_char(&mut output, hex_digit(byte % 16));
        }
        assert(val@.take(val@.len() as int) =~= val@);
        Ok(output)
    }

    /// Computes the record of a symbol value. It fails, with an `Encoding`
    /// error, exactly where the value cannot be escaped.
    pub fn new(config: &Config, data: &Data, val: &str, pool: u8, source: String) -> (made: Result<
        QStr,
        ExtractError,
    >)
        ensures
            match made {
                Ok(qstr) => encodable(val@) && qstr@ == spec_qstr(
                    config.bytes_in_hash,
                    data.qstr_ident_translations@,
                    val@,
                    pool,
                    source@,
                ),
                Err(ExtractError::Encoding { value }) => !encodable(val@) && value@ == val@,
                Err(_) => false,
            },
    {
        let escaped = match Self::escape_string(val) {
            Ok(text) => text,
            Err(e) => {
                return Err(e);
            },
        };
        let bytes = val.as_bytes();
        Ok(
            QStr {
                pool,
                value: val.to_string(),
                val: escaped,
                ident: Self::ident(data, val),
                hash: Self::hash(bytes, &config.bytes_in_hash),
                val_len: bytes.len(),
                source,
            },
        )
    }
}

/// The pattern of a symbol reference: the prefix, then one or more ASCII
/// letters, digits or underscores, which are the symbol's value.
pub const SYMBOL_PATTERN: &'static str = "MP_QSTR_([_a-zA-Z0-9]+)";

/// The origin that the records of built-in symbols carry.
pub const BUILTIN_ORIGIN: &'static str = "Built in unsorted";

/// The views of a list of records, in order.
pub open spec fn qstr_views(list: Seq<QStr>) -> Seq<QStrView> {
    list.map_values(|q: QStr| q@)
}

/// Whether every value of a list can be escaped.
pub open spec fn all_encodable(values: Seq<Seq<char>>) -> bool {
    forall|i: int| 0 <= i < values.len() ==> encodable(#[trigger] values[i])
}

/// Two lists whose values can all be escaped make one such list.
pub proof fn lemma_all_encodable_concat(first: Seq<Seq<char>>, second: Seq<Seq<char>>)
    requires
        all_encodable(first),
        all_encodable(second),
    ensures
        all_encodable(first + second),
{
    let all = first + second;
    assert forall|i: int| 0 <= i < all.len() implies encodable(#[trigger] all[i]) by {
        if i < first.len() {
            assert(all[i] == first[i]);
        } else {
            assert(all[i] == second[i - first.len()]);
        }
    }
}

/// Whether `i` is the place of the first value of a list that cannot be
/// escaped.
pub open spec fn first_unencodable(values: Seq<Seq<char>>, i: int) -> bool {
    &&& 0 <= i < values.len()
    &&& !encodable(values[i])
    &&& forall|j: int| 0 <= j < i ==> encodable(#[trigger] values[j])
}

/// Whether `error` is the one that the first value of a list that cannot be
/// escaped calls for: `Encoding`, with that value.
pub open spec fn refuses(values: Seq<Seq<char>>, error: ExtractError) -> bool {
    exists|i: int| #[trigger]
        first_unencodable(values, i) && match error {
            ExtractError::Encoding { value } => value@ == values[i],
            _ => false,
        }
}

/// The records of a list of values that share a pool and an origin.
pub open spec fn spec_records(
    width: BytesIn,
    table: Map<char, Seq<char>>,
    values: Seq<Seq<char>>,
    pool: u8,
    source: Seq<char>,
) -> Seq<QStrView> {
    values.map_values(|val: Seq<char>| spec_qstr(width, table, val, pool, source))
}

/// Computes the records of a list of values, or fails on the first value
/// that cannot be escaped.
fn records(config: &Config, data: &Data, values: &Vec<String>, pool: u8, source: &str) -> (made:
    Result<Vec<QStr>, ExtractError>)
    ensures
        match made {
            Ok(list) => all_encodable(views(values@)) && qstr_views(list@) == spec_records(
                config.bytes_in_hash,
                data.qstr_ident_translations@,
                views(values@),
                pool,
                source@,
            ),
            Err(error) => refuses(views(values@), error),
        },
{
    let mut list: Vec<QStr> = Vec::new();
    let mut i: usize = 0;
    while i < values.len()
        invariant
            i <= values.len(),
            list.len() == i,
            all_encodable(views(values@).take(i as int)),
            qstr_views(list@) == spec_records(
                config.bytes_in_hash,
                data.qstr_ident_translations@,
                views(values@).take(i as int),
                pool,
                source@,
            ),
        decreases values.len() - i,
    {
        let ghost before = views(values@).take(i as int);
        let ghost after = views(values@).take(i + 1);
        let ghost kept = qstr_views(list@);
        assert forall|j: int| 0 <= j < i implies encodable(#[trigger] views(values@)[j]) by {
            assert(before[j] == views(values@)[j]);
        }
        match QStr::new(config, data, values[i].as_str(), pool, source.to_string()) {
            Ok(qstr) => {
                list.push(qstr);
            },
            Err(e) => {
                assert(first_unencodable(views(values@), i as int));
                return Err(e);
            },
        }
        proof {
            let made = spec_records(
                config.bytes_in_hash,
                data.qstr_ident_translations@,
                after,
                pool,
                source@,
            );
            assert forall|j: int| 0 <= j < made.len() implies qstr_views(list@)[j] == made[j] by {
                if j < i {
                    assert(qstr_views(list@)[j] == kept[j]);
                }
            }
        }
        i += 1;
    }
    assert(views(values@).take(i as int) =~= views(values@));
    Ok(list)
}

/// The symbol value that a match of the symbol pattern carries: the text of
/// capture group 1, where the match has just the whole match and that group.
pub open spec fn match_value(groups: Seq<Option<Seq<char>>>) -> Option<Seq<char>> {
    if groups.len() == 2 {
        groups[1]
    } else {
        None
    }
}

/// Whether a match carries a symbol value that can be escaped.
pub open spec fn match_usable(groups: Seq<Option<Seq<char>>>) -> bool {
    match match_value(groups) {
        Some(val) => encodable(val),
        None => false,
    }
}

/// Whether every match of a search is usable.
pub open spec fn all_usable(matches: Seq<Seq<Option<Seq<char>>>>) -> bool {
    forall|i: int| 0 <= i < matches.len() ==> match_usable(#[trigger] matches[i])
}

/// Whether `i` is the place of the first match that is not usable.
pub open spec fn first_unusable(matches: Seq<Seq<Option<Seq<char>>>>, i: int) -> bool {
    &&& 0 <= i < matches.len()
    &&& !match_usable(matches[i])
    &&& forall|j: int| 0 <= j < i ==> match_usable(#[trigger] matches[j])
}

/// Whether `error` is the one that the first unusable match of a search
/// calls for: `Pattern` where it lacks its capture group, `Encoding` with the
/// value where its value cannot be escaped.
pub open spec fn rejects(matches: Seq<Seq<Option<Seq<char>>>>, error: ExtractError) -> bool {
    exists|i: int| #[trigger]
        first_unusable(matches, i) && match match_value(matches[i]) {
            Some(val) => error matches ExtractError::Encoding { value } && value@ == val,
            None => error is Pattern,
        }
}

/// The records that the matches of one line stand for, in match order: each
/// in the discovered pool, with the line's origin.
pub open spec fn candidates(
    width: BytesIn,
    table: Map<char, Seq<char>>,
    source: Seq<char>,
    matches: Seq<Seq<Option<Seq<char>>>>,
) -> Seq<QStrView> {
    matches.map_values(
        |groups: Seq<Option<Seq<char>>>|
            spec_qstr(width, table, match_value(groups).unwrap(), POOL_DISCOVERED, source),
    )
}

/// The static pool of a configuration: one record for each static symbol.
pub open spec fn builtin_static(width: BytesIn, data: DataView) -> Seq<QStrView> {
    spec_records(width, data.qstr_ident_translations, data.static_qstrs, POOL_STATIC, BUILTIN_ORIGIN@)
}

/// The records that open the discovered list: one for each built-in
/// discovered symbol. They carry the static pool's tag.
pub open spec fn builtin_unsorted(width: BytesIn, data: DataView) -> Seq<QStrView> {
    spec_records(
        width,
        data.qstr_ident_translations,
        data.unsorted_qstrs,
        POOL_STATIC,
        BUILTIN_ORIGIN@,
    )
}

/// What a finished symbol scan hands over.
pub struct ExtractedQstrs {
    /// The static pool, in table order.
    pub static_qstrs: Vec<QStr>,
    /// The discovered list: the built-in discovered symbols, then the
    /// symbols that the scan found, each at the place of its first occurrence.
    pub unsorted_qstrs: Vec<QStr>,
}

/// Collects the symbols that scanned text refers to.
pub struct Extractor<'a> {
    config: &'a Config,
    data: &'a Data,
    re: Regex,
    idents: StringHashSet,
    unsorted_qstrs: Vec<QStr>,
}

impl<'a> Extractor<'a> {
    /// The configuration of the run.
    pub closed spec fn config(&self) -> Config {
        *self.config
    }

    /// The static configuration of the run.
    pub closed spec fn data(&self) -> Data {
        *self.data
    }

    /// The compiled symbol pattern.
    pub closed spec fn pattern(&self) -> Regex {
        self.re
    }

    /// The identifiers that a further occurrence is dropped for.
    pub closed spec fn seen(&self) -> Set<Seq<char>> {
        self.idents@
    }

    /// The discovered list as it stands.
    pub closed spec fn discovered(&self) -> Seq<QStrView> {
        qstr_views(self.unsorted_qstrs@)
    }

    /// The static pool of this run.
    pub open spec fn static_pool(&self) -> Seq<QStrView> {
        builtin_static(self.config().bytes_in_hash, self.data()@)
    }

    /// The built-in records that open the discovered list of this run.
    pub open spec fn builtin_discovered(&self) -> Seq<QStrView> {
        builtin_unsorted(self.config().bytes_in_hash, self.data()@)
    }

    /// The invariant of an extractor.
    pub open spec fn wf(&self) -> bool {
        // The pattern is the symbol pattern.
        &&& regex_source(self.pattern()) == SYMBOL_PATTERN@
        // Every built-in symbol has a record.
        &&& all_encodable(self.data()@.static_qstrs)
        &&& all_encodable(self.data()@.unsorted_qstrs)
        // The seen identifiers are those of the static pool and of the list.
        &&& self.seen() == idents_of(self.static_pool()) + idents_of(self.discovered())
        // The list opens with the built-in discovered records.
        &&& self.builtin_discovered().is_prefix_of(self.discovered())
        // What follows them was found by scanning: it is in the discovered
        // pool, and its identifier is neither in the static pool nor earlier
        // in the list.
        &&& forall|i: int|
            self.builtin_discovered().len() <= i < self.discovered().len() ==> {
                &&& (#[trigger] self.discovered()[i]).pool == POOL_DISCOVERED
                &&& first_seen(idents_of(self.static_pool()), self.discovered(), i)
            }
    }

    /// Whether this extractor has the same run, pattern and all, as `other`.
    pub open spec fn same_run(&self, other: &Self) -> bool {
        &&& self.config() == other.config()
        &&& self.data() == other.data()
        &&& self.pattern() == other.pattern()
    }

    /// Whether this is the extractor that a run starts with: nothing scanned
    /// yet, the list holding the built-in discovered records.
    pub open spec fn starts(&self, config: &Config, data: &Data) -> bool {
        &&& self.wf()
        &&& self.config() == *config
        &&& self.data() == *data
        &&& self.discovered() == self.builtin_discovered()
    }
}

/// Adds the identifiers of a list of records to a set.
fn note_idents(idents: &mut StringHashSet, list: &Vec<QStr>)
    ensures
        final(idents)@ == old(idents)@ + idents_of(qstr_views(list@)),
{
    let mut i: usize = 0;
    while i < list.len()
        invariant
            i <= list.len(),
            idents@ == old(idents)@ + idents_of(qstr_views(list@).take(i as int)),
        decreases list.len() - i,
    {
        let ghost before = qstr_views(list@).take(i as int);
        idents.insert(list[i].ident.clone());
        proof {
            assert(qstr_views(list@).take(i + 1) =~= before.push(list[i as int]@));
            lemma_idents_of_push(before, list[i as int]@);
        }
        i += 1;
    }
    assert(qstr_views(list@).take(i as int) =~= qstr_views(list@));
}

impl<'a> Extractor<'a> {
    /// What `add_matches` does with the matches of one line. Where every
    /// match is usable, the records of those that are first seen go to the
    /// end of the list, in match order, and the identifiers of all are seen
    /// from then on. Otherwise nothing is added, and the error tells what
    /// the first unusable match lacks: its capture group (`Pattern`), or a
    /// value that can be escaped (`Encoding`, with the value).
    pub open spec fn added(
        &self,
        before: &Self,
        source: Seq<char>,
        matches: Seq<Seq<Option<Seq<char>>>>,
        done: Result<(), ExtractError>,
    ) -> bool {
        let found = candidates(
            before.config().bytes_in_hash,
            before.data().qstr_ident_translations@,
            source,
            matches,
        );
        match done {
            Ok(()) => {
                &&& all_usable(matches)
                &&& self.discovered() == before.discovered() + fresh_records(before.seen(), found)
                &&& self.seen() == before.seen() + idents_of(found)
            },
            Err(error) => {
                &&& self.discovered() == before.discovered()
                &&& self.seen() == before.seen()
                &&& rejects(matches, error)
            },
        }
    }

    /// Starts an extractor around a compiled symbol pattern. It fails on the
    /// first built-in symbol, the static ones taken first, that has no record.
    pub fn with_regex(config: &'a Config, data: &'a Data, re: Regex) -> (made: Result<
        Self,
        ExtractError,
    >)
        requires
            regex_source(re) == SYMBOL_PATTERN@,
        ensures
            match made {
                Ok(extractor) => extractor.starts(config, data) && extractor.pattern() == re,
                Err(error) => refuses(data@.static_qstrs + data@.unsorted_qstrs, error),
            },
    {
        let ghost statics = data@.static_qstrs;
        let ghost builtin = data@.static_qstrs + data@.unsorted_qstrs;
        let static_qstrs = match records(config, data, &data.static_qstrs, POOL_STATIC, BUILTIN_ORIGIN) {
            Ok(list) => list,
            Err(e) => {
                proof {
                    let i = choose|i: int| #[trigger]
                        first_unencodable(statics, i) && match e {
                            ExtractError::Encoding { value } => value@ == statics[i],
                            _ => false,
                        };
                    assert(first_unencodable(builtin, i));
                }
                return Err(e);
            },
        };
        let unsorted_qstrs = match records(
            config,
            data,
            &data.unsorted_qstrs,
            POOL_STATIC,
            BUILTIN_ORIGIN,
        ) {
            Ok(list) => list,
            Err(e) => {
                proof {
                    let i = choose|i: int| #[trigger]
                        first_unencodable(data@.unsorted_qstrs, i) && match e {
                            ExtractError::Encoding { value } => value@ == data@.unsorted_qstrs[i],
                            _ => false,
                        };
                    let at = statics.len() + i;
                    assert(first_unencodable(builtin, at));
                }
                return Err(e);
            },
        };
        let mut idents = StringHashSet::new();
        note_idents(&mut idents, &static_qstrs);
        note_idents(&mut idents, &unsorted_qstrs);
        let extractor = Extractor { config, data, re, idents, unsorted_qstrs };
        assert(extractor.seen() =~= idents_of(extractor.static_pool()) + idents_of(
            extractor.discovered(),
        ));
        Ok(extractor)
    }

    /// Starts an extractor: compiles the symbol pattern, computes the record
    /// of every built-in symbol, and seeds the seen identifiers and the
    /// discovered list from them. It succeeds exactly where the pattern
    /// compiles and every built-in symbol has a record. It fails with
    /// `Pattern` where the pattern does not compile, and else as `with_regex`
    /// does.
    pub fn new(config: &'a Config, data: &'a Data) -> (made: Result<Self, ExtractError>)
        ensures
            made is Ok <==> regex_compiles(SYMBOL_PATTERN@) && all_encodable(
                data@.static_qstrs + data@.unsorted_qstrs,
            ),
            match made {
                Ok(extractor) => extractor.starts(config, data),
                Err(error) => if regex_compiles(SYMBOL_PATTERN@) {
                    refuses(data@.static_qstrs + data@.unsorted_qstrs, error)
                } else {
                    error is Pattern
                },
            },
    {
        match compile(SYMBOL_PATTERN) {
            Ok(re) => {
                let made = Self::with_regex(config, data, re);
                proof {
                    if made is Ok {
                        lemma_all_encodable_concat(data@.static_qstrs, data@.unsorted_qstrs);
                    }
                }
                made
            },
            Err(e) => Err(ExtractError::Pattern { message: e.to_string() }),
        }
    }

    /// Takes the matches of the symbol pattern in one line of text, with the
    /// line's origin, and adds the symbols that were not seen before.
    pub fn add_matches(&mut self, source: &str, matches: &Vec<Vec<Option<String>>>) -> (done: Result<
        (),
        ExtractError,
    >)
        requires
            old(self).wf(),
        ensures
            final(self).wf(),
            final(self).same_run(old(self)),
            final(self).added(old(self), source@, groups_view(matches@), done),
    {
        let ghost width = self.config().bytes_in_hash;
        let ghost table = self.data().qstr_ident_translations@;
        let ghost found = groups_view(matches@);
        let mut made: Vec<QStr> = Vec::new();
        let mut i: usize = 0;
        while i < matches.len()
            invariant
                i <= matches.len(),
                made.len() == i,
                *self == *old(self),
                self.wf(),
                width == self.config().bytes_in_hash,
                table == self.data().qstr_ident_translations@,
                found == groups_view(matches@),
                all_usable(found.take(i as int)),
                qstr_views(made@) == candidates(width, table, source@, found.take(i as int)),
            decreases matches.len() - i,
        {
            let ghost before = found.take(i as int);
            let ghost after = found.take(i + 1);
            let ghost kept = qstr_views(made@);
            let groups = &matches[i];
            proof {
                assert forall|j: int| 0 <= j < i implies match_usable(#[trigger] found[j]) by {
                    assert(before[j] == found[j]);
                }
            }
            if groups.len() != 2 {
                assert(first_unusable(found, i as int));
                return Err(
                    ExtractError::Pattern {
                        message: "a symbol match has not just the one capture group".to_string(),
                    },
                );
            }
            let val = match &groups[1] {
                Some(val) => val,
                None => {
                    assert(first_unusable(found, i as int));
                    return Err(
                        ExtractError::Pattern {
                            message: "the capture group of a symbol match is empty".to_string(),
                        },
                    );
                },
            };
            let qstr = match QStr::new(
                self.config,
                self.data,
                val.as_str(),
                POOL_DISCOVERED,
                source.to_string(),
            ) {
                Ok(qstr) => qstr,
                Err(e) => {
                    assert(first_unusable(found, i as int));
                    return Err(e);
                },
            };
            made.push(qstr);
            proof {
                let all = candidates(width, table, source@, after);
                assert forall|j: int| 0 <= j < all.len() implies qstr_views(made@)[j] == all[j] by {
                    if j < i {
                        assert(qstr_views(made@)[j] == kept[j]);
                    }
                }
            }
            i += 1;
        }
        assert(found.take(i as int) =~= found);
        let ghost offered = qstr_views(made@);
        let ghost seen = self.seen();
        let ghost list = self.discovered();
        for qstr in it: made.into_iter()
            invariant
                it.seq() == made@,
                offered == qstr_views(made@),
                self.same_run(old(self)),
                self.seen() == seen + idents_of(offered.take(it.index() as int)),
                self.discovered() == list + fresh_records(seen, offered.take(it.index() as int)),
        {
            let ghost before = offered.take(it.index() as int);
            let ghost after = offered.take(it.index() + 1);
            let ghost record = qstr@;
            let ghost held = self.discovered();
            proof {
                assert(after =~= before.push(record));
                lemma_idents_of_push(before, record);
                lemma_fresh_records_push(seen, before, record);
            }
            if !self.idents.contains(qstr.ident.as_str()) {
                self.idents.insert(qstr.ident.clone());
                self.unsorted_qstrs.push(qstr);
                assert(self.discovered() =~= held.push(record));
            }
        }
        proof {
            assert(offered.take(offered.len() as int) =~= offered);
            self.lemma_added_keeps_wf(old(self), offered);
        }
        Ok(())
    }

    /// Adding the first-seen ones among candidates of the discovered pool
    /// keeps the invariant.
    proof fn lemma_added_keeps_wf(&self, before: &Self, offered: Seq<QStrView>)
        requires
            before.wf(),
            self.same_run(before),
            forall|i: int| 0 <= i < offered.len() ==> (#[trigger] offered[i]).pool == POOL_DISCOVERED,
            self.seen() == before.seen() + idents_of(offered),
            self.discovered() == before.discovered() + fresh_records(before.seen(), offered),
        ensures
            self.wf(),
    {
        let kept = fresh_records(before.seen(), offered);
        let places = fresh_positions(before.seen(), offered);
        let statics = idents_of(self.static_pool());
        let old_list = before.discovered();
        let new_list = self.discovered();
        lemma_fresh_records_order(before.seen(), offered);
        lemma_fresh_records_unique(before.seen(), offered);
        lemma_fresh_records_cover(before.seen(), offered);
        lemma_idents_of_concat(old_list, kept);
        assert(self.seen() =~= statics + idents_of(new_list));
        assert forall|i: int| self.builtin_discovered().len() <= i < new_list.len() implies {
            &&& (#[trigger] new_list[i]).pool == POOL_DISCOVERED
            &&& first_seen(statics, new_list, i)
        } by {
            if i >= old_list.len() {
                let k = i - old_list.len();
                assert(kept[k] == offered[places[k]]);
            }
        }
    }

    /// No identifier occurs twice in the discovered list, and none of what
    /// was found by scanning is in the static pool, as long as no two of the
    /// built-in discovered symbols share their identifier.
    pub proof fn lemma_discovered_unique(&self)
        requires
            self.wf(),
            distinct_idents(self.builtin_discovered()),
        ensures
            distinct_idents(self.discovered()),
            forall|i: int|
                self.builtin_discovered().len() <= i < self.discovered().len() ==> !idents_of(
                    self.static_pool(),
                ).contains((#[trigger] self.discovered()[i]).ident),
    {
        let list = self.discovered();
        let builtin = self.builtin_discovered();
        assert forall|i: int, j: int| 0 <= i < j < list.len() implies (#[trigger] list[i]).ident != (
        #[trigger] list[j]).ident by {
            if j < builtin.len() {
                assert(list[i] == builtin[i]);
                assert(list[j] == builtin[j]);
            }
        }
    }

    /// Scans one line of text that comes from `source`: every reference to a
    /// symbol in it is a candidate, and a candidate whose identifier was not
    /// seen before joins the end of the discovered list.
    pub fn process_line(&mut self, source: &str, line: &str) -> (done: Result<(), ExtractError>)
        requires
            old(self).wf(),
        ensures
            final(self).wf(),
            final(self).same_run(old(self)),
            final(self).added(
                old(self),
                source@,
                regex_captures(old(self).pattern(), line@),
                done,
            ),
    {
        let found = captures_in(&self.re, line);
        self.add_matches(source, &found)
    }

    /// Ends the scan: computes the static pool anew and hands it over
    /// together with the discovered list.
    pub fn finish(self) -> (extracted: ExtractedQstrs)
        requires
            self.wf(),
        ensures
            qstr_views(extracted.static_qstrs@) == self.static_pool(),
            qstr_views(extracted.unsorted_qstrs@) == self.discovered(),
    {
        let static_qstrs = match records(
            self.config,
            self.data,
            &self.data.static_qstrs,
            POOL_STATIC,
            BUILTIN_ORIGIN,
        ) {
            Ok(list) => list,
            Err(_) => {
                proof {
                    let i = choose|i: int| #[trigger]
                        first_unencodable(self.data()@.static_qstrs, i);
                    assert(encodable(self.data()@.static_qstrs[i]));
                }
                Vec::new()
            },
        };
        ExtractedQstrs { static_qstrs, unsorted_qstrs: self.unsorted_qstrs }
    }
}

} // verus!
