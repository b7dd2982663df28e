use micropython_src::config::{BytesIn, Config};
use micropython_src::data::{Data, TranslationTable};
use micropython_src::error::ExtractError;
use micropython_src::qstr::QStr;
use regex::{Captures, Regex};

/// Lines in the format of the interpreter's own generated symbol table.
const QSTR_DEFS: &str = r#"
QDEF0(MP_QSTR_, 5381, 0, "")
QDEF0(MP_QSTR___dir__, 36730, 7, "__dir__")
QDEF0(MP_QSTR__0x0a_, 46511, 1, "\x0a")
QDEF0(MP_QSTR__space_, 46469, 1, " ")
QDEF0(MP_QSTR__star_, 46479, 1, "*")
QDEF0(MP_QSTR__slash_, 46474, 1, "/")
QDEF0(MP_QSTR__lt_module_gt_, 38077, 8, "<module>")
QDEF0(MP_QSTR__, 46586, 1, "_")
QDEF0(MP_QSTR___call__, 63911, 8, "__call__")
QDEF0(MP_QSTR___class__, 50475, 9, "__class__")
QDEF0(MP_QSTR___delitem__, 13821, 11, "__delitem__")
QDEF0(MP_QSTR___enter__, 47725, 9, "__enter__")
QDEF0(MP_QSTR___exit__, 63557, 8, "__exit__")
QDEF0(MP_QSTR___getattr__, 63552, 11, "__getattr__")
QDEF0(MP_QSTR___getitem__, 14630, 11, "__getitem__")
QDEF0(MP_QSTR___hash__, 51447, 8, "__hash__")
QDEF0(MP_QSTR___init__, 42335, 8, "__init__")
QDEF0(MP_QSTR___int__, 6934, 7, "__int__")
QDEF0(MP_QSTR___iter__, 13007, 8, "__iter__")
QDEF0(MP_QSTR___len__, 45282, 7, "__len__")
QDEF0(MP_QSTR___main__, 5006, 8, "__main__")
QDEF0(MP_QSTR___module__, 12543, 10, "__module__")
QDEF0(MP_QSTR___name__, 14562, 8, "__name__")
QDEF0(MP_QSTR___new__, 5497, 7, "__new__")
QDEF0(MP_QSTR___next__, 29442, 8, "__next__")
QDEF0(MP_QSTR___qualname__, 107, 12, "__qualname__")
QDEF0(MP_QSTR___repr__, 2832, 8, "__repr__")
QDEF0(MP_QSTR___setitem__, 15922, 11, "__setitem__")
QDEF0(MP_QSTR___str__, 52688, 7, "__str__")
QDEF0(MP_QSTR_ArithmeticError, 35885, 15, "ArithmeticError")
QDEF0(MP_QSTR_abs, 12949, 3, "abs")
QDEF0(MP_QSTR_print, 50772, 5, "print")
QDEF0(MP_QSTR_zip, 44262, 3, "zip")
QDEF1(MP_QSTR__lt_stdin_gt_, 25571, 7, "<stdin>")
QDEF1(MP_QSTR__brace_open__colon__hash_x_brace_close_, 14850, 5, "{:#x}")
QDEF1(MP_QSTR_micropython, 31755, 11, "micropython")
"#;

const TRANSLATIONS: &str = r##"{
    // What stands for a character that an identifier cannot hold.
    "\n": "0x0a",
    " ": "space",
    "*": "star",
    "/": "slash",
    "<": "lt",
    ">": "gt",
    "{": "brace_open",
    "}": "brace_close",
    ":": "colon",
    "#": "hash",
    "-": "hyphen",
    ".": "dot",
}"##;

fn loaded_data() -> Data {
    Data::new(TRANSLATIONS, "[]", "[]").expect("the configuration is well formed")
}

fn qstr_test_data() -> Vec<QStr> {
    let qdef_re =
        Regex::new(r#"QDEF([01])\((MP_QSTR_[_a-zA-Z0-9]+), ([0-9]+), ([0-9]+), "(.*)"\)"#)
            .expect("regex compiles");
    let escape_re = Regex::new(r"\\x([0-9a-f]){2}").expect("regex compiles");
    let mut qstrs = Vec::new();
    for line in QSTR_DEFS.lines() {
        for (_, [pool, ident, hash, val_len, val]) in
            qdef_re.captures_iter(line).map(|c| c.extract())
        {
            let pool = pool.parse().unwrap();
            let hash = hash.parse().unwrap();
            let val_len = val_len.parse().unwrap();
            let val = escape_re.replace(val, |caps: &Captures| {
                format!("{}", u8::from_str_radix(&caps[1], 16).unwrap() as char)
            });
            qstrs.push(QStr {
                pool,
                ident: ident.to_string(),
                hash,
                val_len,
                value: val.to_string(),
                val: val.to_string(),
                source: "".to_string(),
            });
        }
    }

    qstrs
}

#[test]
fn qstrs_compute_metadata_correctly() {
    let test_data = qstr_test_data();
    // The pattern asks for a character behind the prefix: the empty symbol
    // is not among the entries.
    assert_eq!(test_data.len(), 35);
    let data = loaded_data();
    let config: Config = Default::default();
    for test in test_data {
        let qstr = QStr::new(&config, &data, &test.val, test.pool, "".to_string()).unwrap();
        assert_eq!(
            qstr.hash, test.hash,
            "Incorrect hash {:x} for {:x?}",
            qstr.hash, test
        );
        assert_eq!(
            qstr.ident, test.ident,
            "Incorrect ident {} for {:x?}",
            qstr.ident, test
        );
        assert_eq!(
            qstr.val_len, test.val_len,
            "Incorrect length {} for {:x?}",
            qstr.val_len, test
        );
    }
}

#[test]
fn record_keeps_pool_and_source() {
    let data = loaded_data();
    let config = Config::default();
    let qstr = QStr::new(&config, &data, "abs", 1, "py/builtin.c".to_string()).unwrap();
    assert_eq!(qstr.pool, 1);
    assert_eq!(qstr.value, "abs");
    assert_eq!(qstr.val, "abs");
    assert_eq!(qstr.ident, "MP_QSTR_abs");
    assert_eq!(qstr.hash, 12949);
    assert_eq!(qstr.val_len, 3);
    assert_eq!(qstr.source, "py/builtin.c");
}

#[test]
fn record_of_a_control_character_is_escaped() {
    let data = loaded_data();
    let config = Config::default();
    let qstr = QStr::new(&config, &data, "\n", 0, "".to_string()).unwrap();
    assert_eq!(qstr.value, "\n");
    assert_eq!(qstr.val, "\\x0a");
    assert_eq!(qstr.ident, "MP_QSTR__0x0a_");
    assert_eq!(qstr.hash, 46511);
    assert_eq!(qstr.val_len, 1);
}

#[test]
fn length_counts_bytes_not_characters() {
    let data = loaded_data();
    let config = Config::default();
    let qstr = QStr::new(&config, &data, "日本語", 1, "".to_string()).unwrap();
    assert_eq!(qstr.val_len, 9);
    assert_eq!(qstr.hash, 13723);
    assert_eq!(qstr.val, "日本語");
    assert_eq!(qstr.ident, "MP_QSTR_日本語");
    let qstr = QStr::new(&config, &data, "é", 1, "".to_string()).unwrap();
    assert_eq!(qstr.val_len, 2);
    assert_eq!(qstr.hash, 25231);
}

#[test]
fn hash_width_follows_the_configuration() {
    let data = loaded_data();
    let narrow = Config { bytes_in_hash: BytesIn::One, ..Config::default() };
    let wide = Config::default();
    let one = QStr::new(&narrow, &data, "hello", 1, "".to_string()).unwrap();
    let two = QStr::new(&wide, &data, "hello", 1, "".to_string()).unwrap();
    assert_eq!(one.hash, 231);
    assert_eq!(two.hash, 60903);
}

#[test]
fn mask_of_each_width() {
    assert_eq!(BytesIn::One.mask(), 0xff);
    assert_eq!(BytesIn::Two.mask(), 0xffff);
}

#[test]
fn hash_of_known_values() {
    assert_eq!(QStr::hash(b"", &BytesIn::Two), 5381);
    assert_eq!(QStr::hash(b"", &BytesIn::One), 5);
    assert_eq!(QStr::hash(b"__dir__", &BytesIn::Two), 36730);
    assert_eq!(QStr::hash(b"print", &BytesIn::Two), 50772);
    assert_eq!(QStr::hash(b"print", &BytesIn::One), 84);
    assert_eq!(QStr::hash("é".as_bytes(), &BytesIn::One), 143);
}

#[test]
fn hash_is_deterministic_and_never_zero() {
    let samples: Vec<Vec<u8>> = vec![
        b"".to_vec(),
        b"a".to_vec(),
        b"hm".to_vec(),
        b"dndk".to_vec(),
        b"__qualname__".to_vec(),
        vec![0u8; 64],
        vec![0xffu8; 300],
        (0u8..=255).collect(),
    ];
    for sample in &samples {
        for width in [BytesIn::One, BytesIn::Two] {
            let first = QStr::hash(sample, &width);
            let second = QStr::hash(sample, &width);
            assert_eq!(first, second);
            assert_ne!(first, 0);
            assert!(first <= width.mask());
        }
    }
}

#[test]
fn hash_wraps_in_32_bits() {
    // Long enough for the accumulator to pass 32 bits many times over.
    let long = vec![b'x'; 1000];
    let mut expected: u32 = 5381;
    for byte in &long {
        expected = expected.wrapping_mul(33) ^ (*byte as u32);
    }
    assert_eq!(QStr::hash(&long, &BytesIn::Two), expected & 0xffff);
    assert_eq!(QStr::hash(&long, &BytesIn::Two), 50437);
}

#[test]
fn hash_that_masks_to_zero_is_forced_to_one() {
    // The rolling hash of "hm" is 0x596f00: its low byte is 0.
    assert_eq!(QStr::hash(b"hm", &BytesIn::One), 1);
    assert_eq!(QStr::hash(b"hm", &BytesIn::Two), 0x6f00);
    // The rolling hash of "dndk" is 0x7c6b0000: its low two bytes are 0.
    assert_eq!(QStr::hash(b"dndk", &BytesIn::Two), 1);
    assert_eq!(QStr::hash(b"dndk", &BytesIn::One), 1);
}

#[test]
fn ident_translates_listed_characters_only() {
    let data = loaded_data();
    assert_eq!(QStr::ident(&data, ""), "MP_QSTR_");
    assert_eq!(QStr::ident(&data, "abs"), "MP_QSTR_abs");
    assert_eq!(QStr::ident(&data, "<stdin>"), "MP_QSTR__lt_stdin_gt_");
    assert_eq!(QStr::ident(&data, "a-b.c"), "MP_QSTR_a_hyphen_b_dot_c");
    // A character that the table lacks passes unchanged, fit or not.
    assert_eq!(QStr::ident(&data, "a+b"), "MP_QSTR_a+b");
    assert_eq!(QStr::ident(&data, "é"), "MP_QSTR_é");
}

#[test]
fn ident_with_a_table_built_by_hand() {
    let mut table = TranslationTable::new();
    table.insert('!', "bang".to_string());
    table.insert('?', "what".to_string());
    table.insert('?', "question".to_string());
    assert_eq!(table.get('!').map(|s| s.as_str()), Some("bang"));
    assert_eq!(table.get('?').map(|s| s.as_str()), Some("question"));
    assert_eq!(table.get('x'), None);
    let data = Data { qstr_ident_translations: table, static_qstrs: vec![], unsorted_qstrs: vec![] };
    assert_eq!(QStr::ident(&data, "hi!?"), "MP_QSTR_hi_bang__question_");
}

#[test]
fn escape_leaves_text_without_control_characters() {
    assert_eq!(QStr::escape_string("").unwrap(), "");
    assert_eq!(QStr::escape_string("hello world").unwrap(), "hello world");
    assert_eq!(QStr::escape_string("a\\b\"c").unwrap(), "a\\b\"c");
}

#[test]
fn escape_writes_every_character_in_hex() {
    assert_eq!(QStr::escape_string("\n").unwrap(), "\\x0a");
    assert_eq!(QStr::escape_string("a\nb").unwrap(), "\\x61\\x0a\\x62");
    assert_eq!(QStr::escape_string("\u{0}").unwrap(), "\\x00");
    assert_eq!(QStr::escape_string("\u{1f}").unwrap(), "\\x1f");
    assert_eq!(QStr::escape_string("\u{7f}").unwrap(), "\\x7f");
    assert_eq!(QStr::escape_string("~\t").unwrap(), "\\x7e\\x09");
}

fn unescape(text: &str) -> String {
    let chars: Vec<char> = text.chars().collect();
    assert_eq!(chars.len() % 4, 0);
    chars
        .chunks(4)
        .map(|group| {
            assert_eq!(group[0], '\\');
            assert_eq!(group[1], 'x');
            let digits: String = group[2..].iter().collect();
            u8::from_str_radix(&digits, 16).unwrap() as char
        })
        .collect()
}

#[test]
fn escape_round_trip() {
    let all_ascii: String = (0u8..128).map(|b| b as char).collect();
    for value in ["\n", "line one\nline two\r\n", "\ttab", "\u{7f}", all_ascii.as_str()] {
        let escaped = QStr::escape_string(value).unwrap();
        assert_eq!(escaped.len(), 4 * value.len());
        assert!(escaped.chars().all(|c| !c.is_ascii_uppercase()));
        assert_eq!(unescape(&escaped), value);
    }
    for value in ["", "plain", "with space", "émile", "\u{80}"] {
        assert_eq!(QStr::escape_string(value).unwrap(), value);
    }
}

#[test]
fn non_ascii_with_control_character_is_rejected() {
    let error = QStr::escape_string("é\n").unwrap_err();
    assert_eq!(error, ExtractError::Encoding { value: "é\n".to_string() });
    let error = QStr::escape_string("\u{1}\u{80}").unwrap_err();
    assert_eq!(error, ExtractError::Encoding { value: "\u{1}\u{80}".to_string() });

    let data = loaded_data();
    let config = Config::default();
    let made = QStr::new(&config, &data, "日本\t語", 1, "x.c".to_string());
    assert_eq!(made.unwrap_err(), ExtractError::Encoding { value: "日本\t語".to_string() });
}

#[test]
fn non_ascii_without_control_character_is_accepted() {
    assert_eq!(QStr::escape_string("é").unwrap(), "é");
    assert_eq!(QStr::escape_string("日本語").unwrap(), "日本語");
    // U+0085 is a control character, but not an ASCII one.
    assert_eq!(QStr::escape_string("\u{85}").unwrap(), "\u{85}");
}

#[test]
fn clone_copies_every_field() {
    let data = loaded_data();
    let config = Config::default();
    let qstr = QStr::new(&config, &data, "<stdin>", 1, "main.c".to_string()).unwrap();
    let copy = qstr.clone();
    assert_eq!(copy.pool, qstr.pool);
    assert_eq!(copy.value, qstr.value);
    assert_eq!(copy.val, qstr.val);
    assert_eq!(copy.ident, qstr.ident);
    assert_eq!(copy.hash, qstr.hash);
    assert_eq!(copy.val_len, qstr.val_len);
    assert_eq!(copy.source, qstr.source);
}
