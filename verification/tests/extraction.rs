use micropython_src::config::{BytesIn, Config, FileUse};
use micropython_src::data::{Data, TranslationTable};
use micropython_src::error::{ConfigSource, ExtractError};
use micropython_src::extract::{extract_data, scan_units, ExtractedData, TranslationUnit};
use micropython_src::module::ExtractedModules;
use micropython_src::qstr::{ExtractedQstrs, QStr};
use micropython_src::vm::VmState;

fn data() -> Data {
    Data::new(
        r#"{"<": "lt", ">": "gt", " ": "space", '\n': "0x0a"}"#,
        r#"["", "__dir__", "\n", "abs"]"#,
        "['__bool__', '<stdin>',]",
    )
    .unwrap()
}

fn unit(origin: &str, lines: &[&str]) -> TranslationUnit {
    TranslationUnit {
        origin: origin.to_string(),
        lines: lines.iter().map(|line| line.to_string()).collect(),
    }
}

fn idents(list: &[QStr]) -> Vec<&str> {
    list.iter().map(|qstr| qstr.ident.as_str()).collect()
}

fn units() -> Vec<TranslationUnit> {
    vec![
        unit(
            "py/modsys.c",
            &[
                "static const mp_rom_map_elem_t t[] = { { MP_ROM_QSTR(MP_QSTR___name__), MP_ROM_QSTR(MP_QSTR_sys) },",
                "{ MP_ROM_QSTR(MP_QSTR_path), MP_ROM_PTR(&mp_sys_path_obj) }, };",
                "MP_REGISTER_MODULE(MP_QSTR_sys, mp_module_sys);",
                "MP_REGISTER_MODULE_DELEGATION(mp_module_sys, mp_module_sys_attr);",
            ],
        ),
        unit("py/empty.c", &[]),
        unit(
            "extmod/modtime.c",
            &[
                "{ MP_ROM_QSTR(MP_QSTR___name__), MP_ROM_QSTR(MP_QSTR_time) }, MP_QSTR_abs, MP_QSTR_sleep",
                "MP_REGISTER_EXTENSIBLE_MODULE(MP_QSTR_time, mp_module_time);",
            ],
        ),
    ]
}

#[test]
fn data_is_loaded_from_json5() {
    let data = data();
    assert_eq!(data.static_qstrs, ["", "__dir__", "\n", "abs"]);
    assert_eq!(data.unsorted_qstrs, ["__bool__", "<stdin>"]);
    assert_eq!(data.qstr_ident_translations.get('<').map(|s| s.as_str()), Some("lt"));
    assert_eq!(data.qstr_ident_translations.get('\n').map(|s| s.as_str()), Some("0x0a"));
    assert_eq!(data.qstr_ident_translations.get('a'), None);
    assert_eq!(QStr::ident(&data, "<a b>"), "MP_QSTR__lt_a_space_b_gt_");
}

#[test]
fn malformed_configuration_names_the_text() {
    let failed = |loaded: Result<Data, ExtractError>| match loaded {
        Ok(_) => panic!("the configuration is malformed"),
        Err(ExtractError::ConfigLoad { config, message }) => {
            assert!(!message.is_empty());
            config
        }
        Err(other) => panic!("unexpected error {other:?}"),
    };
    assert_eq!(failed(Data::new("{", "[", "[")), ConfigSource::IdentTranslations);
    assert_eq!(failed(Data::new("[]", "[]", "[]")), ConfigSource::IdentTranslations);
    assert_eq!(failed(Data::new(r#"{"ab": "x"}"#, "[]", "[]")), ConfigSource::IdentTranslations);
    assert_eq!(failed(Data::new("{}", "[1, 2]", "[")), ConfigSource::StaticQstrs);
    assert_eq!(failed(Data::new("{}", "", "[]")), ConfigSource::StaticQstrs);
    assert_eq!(failed(Data::new("{}", "[]", "{}")), ConfigSource::UnsortedQstrs);
    assert!(Data::new("{}", "[]", "[]").is_ok());
}

#[test]
fn all_symbols_are_static_then_discovered_then_extras() {
    let config = Config::default().qstr("<stdin>").qstr("zeta").qstr("sys");
    let data = data();
    let extracted = extract_data(&config, &data, &units()).unwrap();

    assert_eq!(
        idents(&extracted.static_qstrs),
        ["MP_QSTR_", "MP_QSTR___dir__", "MP_QSTR__0x0a_", "MP_QSTR_abs"]
    );
    assert_eq!(
        idents(&extracted.unsorted_qstrs),
        [
            "MP_QSTR___bool__",
            "MP_QSTR__lt_stdin_gt_",
            "MP_QSTR___name__",
            "MP_QSTR_sys",
            "MP_QSTR_path",
            "MP_QSTR_time",
            "MP_QSTR_sleep",
            // The extras are appended as they are configured, known or not.
            "MP_QSTR__lt_stdin_gt_",
            "MP_QSTR_zeta",
            "MP_QSTR_sys",
        ]
    );
    let mut expected = idents(&extracted.static_qstrs);
    expected.extend(idents(&extracted.unsorted_qstrs));
    assert_eq!(idents(&extracted.all_qstrs), expected);

    let pools: Vec<u8> = extracted.all_qstrs.iter().map(|qstr| qstr.pool).collect();
    assert_eq!(pools, [0, 0, 0, 0, 0, 0, 1, 1, 1, 1, 1, 1, 1, 1]);
    let sources: Vec<&str> = extracted.unsorted_qstrs.iter().map(|q| q.source.as_str()).collect();
    assert_eq!(
        sources,
        [
            "Built in unsorted",
            "Built in unsorted",
            "py/modsys.c",
            "py/modsys.c",
            "py/modsys.c",
            "extmod/modtime.c",
            "extmod/modtime.c",
            "Rust",
            "Rust",
            "Rust",
        ]
    );
    for (whole, part) in extracted
        .all_qstrs
        .iter()
        .zip(extracted.static_qstrs.iter().chain(extracted.unsorted_qstrs.iter()))
    {
        assert_eq!(whole.value, part.value);
        assert_eq!(whole.val, part.val);
        assert_eq!(whole.hash, part.hash);
        assert_eq!(whole.val_len, part.val_len);
        assert_eq!(whole.source, part.source);
    }
}

#[test]
fn modules_are_collected_by_kind() {
    let config = Config::default();
    let data = data();
    let extracted = extract_data(&config, &data, &units()).unwrap();
    let names = |list: &[micropython_src::module::Module]| {
        list.iter().map(|m| (m.upper_name.clone(), m.symbol.clone(), m.source.clone())).collect::<Vec<_>>()
    };
    assert_eq!(
        names(&extracted.modules),
        [("SYS".to_string(), "mp_module_sys".to_string(), "py/modsys.c".to_string())]
    );
    assert_eq!(
        names(&extracted.extensible_modules),
        [("TIME".to_string(), "mp_module_time".to_string(), "extmod/modtime.c".to_string())]
    );
    assert_eq!(
        names(&extracted.module_delegations),
        [("MP_MODULE_SYS".to_string(), "mp_module_sys_attr".to_string(), "py/modsys.c".to_string())]
    );
}

#[test]
fn no_units_give_the_builtin_symbols_alone() {
    let config = Config::default();
    let data = data();
    let extracted = extract_data(&config, &data, &vec![]).unwrap();
    assert_eq!(extracted.static_qstrs.len(), 4);
    assert_eq!(idents(&extracted.unsorted_qstrs), ["MP_QSTR___bool__", "MP_QSTR__lt_stdin_gt_"]);
    assert_eq!(extracted.all_qstrs.len(), 6);
    assert!(extracted.modules.is_empty());
}

#[test]
fn scan_units_runs_the_given_extractors() {
    let config = Config::default();
    let data = data();
    let qstrs = micropython_src::qstr::Extractor::new(&config, &data).unwrap();
    let modules = micropython_src::module::Extractor::new().unwrap();
    let extracted = scan_units(&config, &data, qstrs, modules, &units()).unwrap();
    assert_eq!(extracted.all_qstrs.len(), 4 + 2 + 5);
    assert_eq!(extracted.modules.len(), 1);
}

#[test]
fn an_extra_symbol_without_a_record_fails_the_run() {
    let config = Config::default().qstr("fine").qstr("né\n").qstr("\u{80}\u{1}");
    let data = data();
    let error = match extract_data(&config, &data, &units()) {
        Ok(_) => panic!("an extra symbol cannot be escaped"),
        Err(error) => error,
    };
    assert_eq!(error, ExtractError::Encoding { value: "né\n".to_string() });
}

#[test]
fn a_builtin_symbol_without_a_record_fails_the_run() {
    let config = Config::default();
    let mut data = data();
    data.unsorted_qstrs.push("\u{0}\u{100}".to_string());
    let error = match extract_data(&config, &data, &units()) {
        Ok(_) => panic!("a built-in symbol cannot be escaped"),
        Err(error) => error,
    };
    assert_eq!(error, ExtractError::Encoding { value: "\u{0}\u{100}".to_string() });
}

#[test]
fn assembling_appends_the_extras() {
    let config = Config { bytes_in_hash: BytesIn::One, ..Config::default() }.qstr("hm").qstr("x y");
    let data = data();
    let record = |val: &str, pool: u8| QStr::new(&config, &data, val, pool, "s".to_string()).unwrap();
    let qstrs = ExtractedQstrs {
        static_qstrs: vec![record("a", 0)],
        unsorted_qstrs: vec![record("b", 0), record("c", 1)],
    };
    let modules =
        ExtractedModules { modules: vec![], extensible_modules: vec![], module_delegations: vec![] };
    let extracted = ExtractedData::new(&config, &data, qstrs, modules).unwrap();
    assert_eq!(idents(&extracted.static_qstrs), ["MP_QSTR_a"]);
    assert_eq!(
        idents(&extracted.unsorted_qstrs),
        ["MP_QSTR_b", "MP_QSTR_c", "MP_QSTR_hm", "MP_QSTR_x_space_y"]
    );
    assert_eq!(
        idents(&extracted.all_qstrs),
        ["MP_QSTR_a", "MP_QSTR_b", "MP_QSTR_c", "MP_QSTR_hm", "MP_QSTR_x_space_y"]
    );
    let extra = &extracted.unsorted_qstrs[2];
    assert_eq!((extra.pool, extra.hash, extra.val_len, extra.source.as_str()), (1, 1, 2, "Rust"));
}

#[test]
fn config_collects_extra_symbols_in_order() {
    let config = Config::default();
    assert!(config.extra_qstrs.is_empty());
    assert!(matches!(config.bytes_in_hash, BytesIn::Two));
    assert!(matches!(config.bytes_in_string, BytesIn::Two));
    assert!(matches!(BytesIn::default(), BytesIn::Two));
    let config = Config { bytes_in_hash: BytesIn::One, ..config }.qstr("b").qstr("a").qstr("b");
    assert_eq!(config.extra_qstrs, ["b", "a", "b"]);
    assert!(matches!(config.bytes_in_hash, BytesIn::One));
    assert!(matches!(config.bytes_in_string, BytesIn::Two));
}

fn path(text: &str) -> Vec<String> {
    text.split('/').map(|part| part.to_string()).collect()
}

#[test]
fn headers_for_special_inclusion_are_not_used() {
    let config = Config::default();
    for name in ["dynruntime.h", "grammar.h", "qstrdefs.h", "vmentrytable.h"] {
        assert!(!config.is_header_used(&path(&format!("third_party/micropython/py/{name}"))));
        assert!(!config.is_header_used(&path(&format!("py/{name}"))));
        assert!(config.is_header_used(&path(&format!("extmod/{name}"))));
        assert!(config.is_header_used(&path(name)));
        assert!(config.is_header_used(&path(&format!("py/{name}/more"))));
    }
    assert!(config.is_header_used(&path("third_party/micropython/py/obj.h")));
    assert!(config.is_header_used(&path("xpy/grammar.h")));
    assert!(config.is_header_used(&vec![]));
}

#[test]
fn files_are_used_by_extension() {
    let config = Config::default();
    assert_eq!(config.file_use(&path("py/obj.h"), "h"), FileUse::Header);
    assert_eq!(config.file_use(&path("py/grammar.h"), "h"), FileUse::Unused);
    assert_eq!(config.file_use(&path("py/obj.c"), "c"), FileUse::Source);
    assert_eq!(config.file_use(&path("py/grammar.h"), "c"), FileUse::Source);
    assert_eq!(config.file_use(&path("py/makeqstrdata.py"), "py"), FileUse::Unused);
    assert_eq!(config.file_use(&path("py/obj.H"), "H"), FileUse::Unused);
    assert_eq!(config.file_use(&path("py/README"), ""), FileUse::Unused);
}

#[test]
fn translation_table_of_json5_and_by_hand_agree() {
    let loaded = data();
    let mut table = TranslationTable::new();
    table.insert('<', "lt".to_string());
    table.insert('>', "gt".to_string());
    table.insert(' ', "space".to_string());
    table.insert('\n', "0x0a".to_string());
    let by_hand = Data { qstr_ident_translations: table, static_qstrs: vec![], unsorted_qstrs: vec![] };
    for value in ["", "<module>", "a b\nc", "plain", "ü>"] {
        assert_eq!(QStr::ident(&loaded, value), QStr::ident(&by_hand, value));
    }
}

#[test]
fn new_state_is_zeroed() {
    let state = VmState::<64>::new();
    assert_eq!(state.stack_top, 0);
    assert_eq!(state.heap, [0u8; 64]);
    let state: VmState<0> = VmState::default();
    assert_eq!(state.stack_top, 0);
    assert_eq!(state.heap.len(), 0);
    let state = VmState::<8192>::default();
    assert!(state.heap.iter().all(|byte| *byte == 0));
}
