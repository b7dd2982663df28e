//! The whole extraction: every line of every translation unit goes through
//! both extractors, and their results are put together into the data model
//! that the generated files are rendered from.

use regex::Regex;
use vstd::prelude::*;

use crate::config::{BytesIn, Config};
use crate::data::{Data, DataView};
use crate::error::ExtractError;
use crate::fresh::{
    fresh_positions,
    fresh_records,
    idents_of,
    lemma_fresh_records_concat,
    lemma_fresh_records_order,
    lemma_idents_of_concat,
};
use crate::module::{
    all_declarations,
    declared,
    module_views,
    ExtractedModules,
    Module,
    ModuleKind,
    ModuleView,
    MODULE_PATTERN,
};
use crate::pattern::{regex_captures, regex_compiles, regex_source};
use crate::qstr::{
    all_encodable,
    all_usable,
    builtin_static,
    builtin_unsorted,
    candidates,
    encodable,
    first_unencodable,
    first_unusable,
    match_usable,
    qstr_views,
    refuses,
    rejects,
    spec_records,
    ExtractedQstrs,
    QStr,
    QStrView,
    POOL_DISCOVERED,
    SYMBOL_PATTERN,
};
use crate::text::views;

verus! {

/// The origin that the records of the configured extra symbols carry.
pub const EXTRA_ORIGIN: &'static str = "Rust";

/// A translation unit as plain values.
pub struct UnitView {
    pub origin: Seq<char>,
    pub lines: Seq<Seq<char>>,
}

/// One preprocessed source file: where it comes from, and its text line by
/// line.
pub struct TranslationUnit {
    pub origin: String,
    pub lines: Vec<String>,
}

impl View for TranslationUnit {
    type V = UnitView;

    open spec fn view(&self) -> UnitView {
        UnitView { origin: self.origin@, lines: views(self.lines@) }
    }
}

/// The views of a list of translation units, in order.
pub open spec fn unit_views(units: Seq<TranslationUnit>) -> Seq<UnitView> {
    units.map_values(|unit: TranslationUnit| unit@)
}

/// One line of scanned text with the origin of its unit.
pub struct ScanLine {
    pub origin: Seq<char>,
    pub text: Seq<char>,
}

/// The lines of one unit, each with the unit's origin.
pub open spec fn unit_lines(unit: UnitView) -> Seq<ScanLine> {
    unit.lines.map_values(|text: Seq<char>| ScanLine { origin: unit.origin, text })
}

/// All lines in scan order: unit after unit, and in each unit line after
/// line.
pub open spec fn scan_lines(units: Seq<UnitView>) -> Seq<ScanLine> {
    units.map_values(|unit: UnitView| unit_lines(unit)).flatten()
}

/// The symbol records that the lines stand for, in scan order.
pub open spec fn scan_candidates(
    symbols: Regex,
    width: BytesIn,
    table: Map<char, Seq<char>>,
    lines: Seq<ScanLine>,
) -> Seq<QStrView> {
    lines.map_values(
        |line: ScanLine| candidates(width, table, line.origin, regex_captures(symbols, line.text)),
    ).flatten()
}

/// The module records of one category that the lines declare, in scan order.
pub open spec fn scan_modules(modules: Regex, kind: ModuleKind, lines: Seq<ScanLine>) -> Seq<
    ModuleView,
> {
    lines.map_values(
        |line: ScanLine| declared(kind, line.origin, regex_captures(modules, line.text)),
    ).flatten()
}

/// Whether both extractors take every match of a line.
pub open spec fn line_scans(symbols: Regex, modules: Regex, line: ScanLine) -> bool {
    &&& all_usable(regex_captures(symbols, line.text))
    &&& all_declarations(regex_captures(modules, line.text))
}

/// Whether both extractors take every match of every line.
pub open spec fn all_scan(symbols: Regex, modules: Regex, lines: Seq<ScanLine>) -> bool {
    forall|i: int| 0 <= i < lines.len() ==> line_scans(symbols, modules, #[trigger] lines[i])
}

/// Whether `i` is the place of the first line with a match that one of the
/// extractors does not take.
pub open spec fn first_failing(symbols: Regex, modules: Regex, lines: Seq<ScanLine>, i: int) -> bool {
    &&& 0 <= i < lines.len()
    &&& !line_scans(symbols, modules, lines[i])
    &&& forall|j: int| 0 <= j < i ==> line_scans(symbols, modules, #[trigger] lines[j])
}

/// The records of the configured extra symbols: discovered pool, in
/// configuration order.
pub open spec fn extra_records(config: Config, data: DataView) -> Seq<QStrView> {
    spec_records(
        config.bytes_in_hash,
        data.qstr_ident_translations,
        views(config.extra_qstrs@),
        POOL_DISCOVERED,
        EXTRA_ORIGIN@,
    )
}

/// The extracted data as plain values.
pub struct ExtractedDataView {
    pub static_qstrs: Seq<QStrView>,
    pub unsorted_qstrs: Seq<QStrView>,
    pub all_qstrs: Seq<QStrView>,
    pub modules: Seq<ModuleView>,
    pub extensible_modules: Seq<ModuleView>,
    pub module_delegations: Seq<ModuleView>,
}

/// The data model of a run, complete before anything is rendered from it.
pub struct ExtractedData {
    /// The static pool, in table order.
    pub static_qstrs: Vec<QStr>,
    /// The discovered pool: the built-in discovered symbols, the symbols
    /// that the scan found, then the configured extra symbols.
    pub unsorted_qstrs: Vec<QStr>,
    /// The static pool followed by the discovered pool.
    pub all_qstrs: Vec<QStr>,
    pub modules: Vec<Module>,
    pub extensible_modules: Vec<Module>,
    pub module_delegations: Vec<Module>,
}

impl View for ExtractedData {
    type V = ExtractedDataView;

    open spec fn view(&self) -> ExtractedDataView {
        ExtractedDataView {
            static_qstrs: qstr_views(self.static_qstrs@),
            unsorted_qstrs: qstr_views(self.unsorted_qstrs@),
            all_qstrs: qstr_views(self.all_qstrs@),
            modules: module_views(self.modules@),
            extensible_modules: module_views(self.extensible_modules@),
            module_delegations: module_views(self.module_delegations@),
        }
    }
}

/// What the two scans and the configured extra symbols add up to.
pub open spec fn spec_assemble(
    config: Config,
    data: DataView,
    static_qstrs: Seq<QStrView>,
    scanned_qstrs: Seq<QStrView>,
    modules: Seq<ModuleView>,
    extensible_modules: Seq<ModuleView>,
    module_delegations: Seq<ModuleView>,
) -> ExtractedDataView {
    let unsorted_qstrs = scanned_qstrs + extra_records(config, data);
    ExtractedDataView {
        static_qstrs,
        unsorted_qstrs,
        all_qstrs: static_qstrs + unsorted_qstrs,
        modules,
        extensible_modules,
        module_delegations,
    }
}

/// The data of a scan in which every match is taken and every extra symbol
/// has a record.
pub open spec fn spec_extracted(
    symbols: Regex,
    modules: Regex,
    config: Config,
    data: DataView,
    lines: Seq<ScanLine>,
) -> ExtractedDataView {
    let width = config.bytes_in_hash;
    let static_qstrs = builtin_static(width, data);
    let builtin = builtin_unsorted(width, data);
    let found = fresh_records(
        idents_of(static_qstrs) + idents_of(builtin),
        scan_candidates(symbols, width, data.qstr_ident_translations, lines),
    );
    spec_assemble(
        config,
        data,
        static_qstrs,
        builtin + found,
        scan_modules(modules, ModuleKind::Module, lines),
        scan_modules(modules, ModuleKind::Extensible, lines),
        scan_modules(modules, ModuleKind::Delegation, lines),
    )
}

/// Whether the symbol lists of extracted data stand in their order: the
/// static pool is that of the configuration, in table order; the list of all
/// symbols is the static pool followed by the discovered pool; the discovered
/// pool begins with the built-in discovered records and ends with the records
/// of the extra symbols, in configuration order; what stands between them is
/// in the discovered pool.
pub open spec fn in_order(config: Config, data: DataView, extracted: ExtractedDataView) -> bool {
    let builtin = builtin_unsorted(config.bytes_in_hash, data);
    let extras = extra_records(config, data);
    let discovered = extracted.unsorted_qstrs;
    &&& extracted.static_qstrs == builtin_static(config.bytes_in_hash, data)
    &&& extracted.all_qstrs == extracted.static_qstrs + discovered
    &&& builtin.len() + extras.len() <= discovered.len()
    &&& builtin.is_prefix_of(discovered)
    &&& extras.is_suffix_of(discovered)
    &&& forall|i: int|
        builtin.len() <= i < discovered.len() - extras.len() ==> (#[trigger] discovered[i]).pool
            == POOL_DISCOVERED
}

/// Every candidate of a scan is in the discovered pool.
proof fn lemma_scan_candidates_pool(
    symbols: Regex,
    width: BytesIn,
    table: Map<char, Seq<char>>,
    lines: Seq<ScanLine>,
)
    ensures
        forall|k: int|
            0 <= k < scan_candidates(symbols, width, table, lines).len() ==> (
            #[trigger] scan_candidates(symbols, width, table, lines)[k]).pool == POOL_DISCOVERED,
    decreases lines.len(),
{
    if lines.len() > 0 {
        let shorter = lines.drop_last();
        let last = lines.last();
        let earlier = scan_candidates(symbols, width, table, shorter);
        let all = scan_candidates(symbols, width, table, lines);
        lemma_scan_candidates_pool(symbols, width, table, shorter);
        assert(shorter.push(last) =~= lines);
        lemma_scan_candidates_push(symbols, width, table, shorter, last);
        assert forall|k: int| 0 <= k < all.len() implies (#[trigger] all[k]).pool
            == POOL_DISCOVERED by {
            if k < earlier.len() {
                assert(all[k] == earlier[k]);
            }
        }
    }
}

/// The order of the symbol lists: the list of all symbols begins with the
/// static pool, in table order, and goes on with the discovered pool; the
/// discovered pool holds the built-in discovered symbols, then what the scan
/// found, each symbol at the place of its first occurrence in scan order, then
/// the extra symbols in configuration order.
pub proof fn lemma_symbol_order(
    symbols: Regex,
    modules: Regex,
    config: Config,
    data: DataView,
    lines: Seq<ScanLine>,
)
    ensures
        ({
            let extracted = spec_extracted(symbols, modules, config, data, lines);
            let width = config.bytes_in_hash;
            let statics = builtin_static(width, data);
            let builtin = builtin_unsorted(width, data);
            let offered = scan_candidates(symbols, width, data.qstr_ident_translations, lines);
            let found = fresh_records(idents_of(statics) + idents_of(builtin), offered);
            let places = fresh_positions(idents_of(statics) + idents_of(builtin), offered);
            &&& in_order(config, data, extracted)
            &&& extracted.static_qstrs == statics
            &&& extracted.all_qstrs.take(statics.len() as int) == statics
            &&& extracted.all_qstrs.skip(statics.len() as int) == extracted.unsorted_qstrs
            &&& extracted.unsorted_qstrs == builtin + found + extra_records(config, data)
            &&& found.len() == places.len()
            &&& forall|k: int| 0 <= k < found.len() ==> found[k] == offered[#[trigger] places[k]]
            &&& forall|k: int, l: int| 0 <= k < l < places.len() ==> places[k] < places[l]
        }),
{
    let width = config.bytes_in_hash;
    let statics = builtin_static(width, data);
    let builtin = builtin_unsorted(width, data);
    let offered = scan_candidates(symbols, width, data.qstr_ident_translations, lines);
    let found = fresh_records(idents_of(statics) + idents_of(builtin), offered);
    let places = fresh_positions(idents_of(statics) + idents_of(builtin), offered);
    let extras = extra_records(config, data);
    let discovered = builtin + found + extras;
    lemma_fresh_records_order(idents_of(statics) + idents_of(builtin), offered);
    lemma_scan_candidates_pool(symbols, width, data.qstr_ident_translations, lines);
    assert(discovered.subrange(0, builtin.len() as int) =~= builtin);
    assert(discovered.subrange(discovered.len() - extras.len(), discovered.len() as int)
        =~= extras);
    assert forall|i: int| builtin.len() <= i < discovered.len() - extras.len() implies (
    #[trigger] discovered[i]).pool == POOL_DISCOVERED by {
        let k = i - builtin.len();
        assert(discovered[i] == found[k]);
        assert(found[k] == offered[places[k]]);
    }
}

/// How a scan with the two compiled patterns ends. It fails at the first
/// line with a match that an extractor does not take, the symbol extractor
/// asked first; then on the first extra symbol that has no record. Otherwise
/// it gives the data of `spec_extracted`.
pub open spec fn scanned(
    symbols: Regex,
    modules: Regex,
    config: Config,
    data: DataView,
    lines: Seq<ScanLine>,
    outcome: Result<ExtractedData, ExtractError>,
) -> bool {
    match outcome {
        Ok(extracted) => {
            &&& all_scan(symbols, modules, lines)
            &&& all_encodable(views(config.extra_qstrs@))
            &&& extracted@ == spec_extracted(symbols, modules, config, data, lines)
        },
        Err(error) => {
            ||| exists|i: int| #[trigger]
                first_failing(symbols, modules, lines, i) && {
                    let found = regex_captures(symbols, lines[i].text);
                    if all_usable(found) {
                        error is Pattern
                    } else {
                        rejects(found, error)
                    }
                }
            ||| all_scan(symbols, modules, lines) && refuses(views(config.extra_qstrs@), error)
        },
    }
}

impl ExtractedData {
    /// Puts the results of the two scans together: the record of every
    /// configured extra symbol goes behind the discovered list, and the list
    /// of all symbols is the static pool followed by the discovered pool. It
    /// fails on the first extra symbol that has no record.
    pub fn new(config: &Config, data: &Data, qstrs: ExtractedQstrs, modules: ExtractedModules) -> (made:
        Result<ExtractedData, ExtractError>)
        ensures
            match made {
                Ok(extracted) => {
                    &&& all_encodable(views(config.extra_qstrs@))
                    &&& extracted@ == spec_assemble(
                        *config,
                        data@,
                        qstr_views(qstrs.static_qstrs@),
                        qstr_views(qstrs.unsorted_qstrs@),
                        module_views(modules.modules@),
                        module_views(modules.extensible_modules@),
                        module_views(modules.module_delegations@),
                    )
                },
                Err(error) => refuses(views(config.extra_qstrs@), error),
            },
    {
        let static_qstrs = qstrs.static_qstrs;
        let mut unsorted_qstrs = qstrs.unsorted_qstrs;
        let ghost scanned_qstrs = qstr_views(unsorted_qstrs@);
        let ghost extras = views(config.extra_qstrs@);
        let ghost width = config.bytes_in_hash;
        let ghost table = data.qstr_ident_translations@;
        let mut i: usize = 0;
        while i < config.extra_qstrs.len()
            invariant
                i <= config.extra_qstrs.len(),
                extras == views(config.extra_qstrs@),
                width == config.bytes_in_hash,
                table == data.qstr_ident_translations@,
                all_encodable(extras.take(i as int)),
                qstr_views(unsorted_qstrs@) == scanned_qstrs + spec_records(
                    width,
                    table,
                    extras.take(i as int),
                    POOL_DISCOVERED,
                    EXTRA_ORIGIN@,
                ),
            decreases config.extra_qstrs.len() - i,
        {
            let ghost before = extras.take(i as int);
            let ghost held = qstr_views(unsorted_qstrs@);
            proof {
                assert forall|j: int| 0 <= j < i implies encodable(#[trigger] extras[j]) by {
                    assert(before[j] == extras[j]);
                }
            }
            let qstr = match QStr::new(
                config,
                data,
                config.extra_qstrs[i].as_str(),
                POOL_DISCOVERED,
                EXTRA_ORIGIN.to_string(),
            ) {
                Ok(qstr) => qstr,
                Err(e) => {
                    assert(first_unencodable(extras, i as int));
                    return Err(e);
                },
            };
            let ghost record = qstr@;
            unsorted_qstrs.push(qstr);
            assert(qstr_views(unsorted_qstrs@) =~= held.push(record));
            i += 1;
        }
        assert(extras.take(i as int) =~= extras);
        let mut all_qstrs: Vec<QStr> = Vec::new();
        let mut k: usize = 0;
        while k < static_qstrs.len()
            invariant
                k <= static_qstrs.len(),
                all_qstrs@ == static_qstrs@.take(k as int),
            decreases static_qstrs.len() - k,
        {
            all_qstrs.push(static_qstrs[k].clone());
            k += 1;
        }
        let mut k: usize = 0;
        while k < unsorted_qstrs.len()
            invariant
                k <= unsorted_qstrs.len(),
                all_qstrs@ == static_qstrs@ + unsorted_qstrs@.take(k as int),
            decreases unsorted_qstrs.len() - k,
        {
            all_qstrs.push(unsorted_qstrs[k].clone());
            k += 1;
        }
        assert(qstr_views(all_qstrs@) =~= qstr_views(static_qstrs@) + qstr_views(unsorted_qstrs@));
        Ok(
            ExtractedData {
                static_qstrs,
                unsorted_qstrs,
                all_qstrs,
                modules: modules.modules,
                extensible_modules: modules.extensible_modules,
                module_delegations: modules.module_delegations,
            },
        )
    }
}

/// The lines of the first units are the first lines of all units, and one
/// more unit adds its lines behind them.
proof fn lemma_scan_lines_take(units: Seq<UnitView>, n: int)
    requires
        0 <= n <= units.len(),
    ensures
        scan_lines(units.take(n)).is_prefix_of(scan_lines(units)),
        n < units.len() ==> scan_lines(units.take(n + 1)) == scan_lines(units.take(n)) + unit_lines(
            units[n],
        ),
    decreases units.len() - n,
{
    if n < units.len() {
        let lines_of = |unit: UnitView| unit_lines(unit);
        assert(units.take(n + 1).map_values(lines_of) =~= units.take(n).map_values(lines_of).push(
            unit_lines(units[n]),
        ));
        units.take(n).map_values(lines_of).lemma_flatten_push(unit_lines(units[n]));
        lemma_scan_lines_take(units, n + 1);
    } else {
        assert(units.take(n) =~= units);
    }
}

/// One more line adds its candidates behind those of the lines before it.
proof fn lemma_scan_candidates_push(
    symbols: Regex,
    width: BytesIn,
    table: Map<char, Seq<char>>,
    lines: Seq<ScanLine>,
    line: ScanLine,
)
    ensures
        scan_candidates(symbols, width, table, lines.push(line)) == scan_candidates(
            symbols,
            width,
            table,
            lines,
        ) + candidates(width, table, line.origin, regex_captures(symbols, line.text)),
{
    let of = |line: ScanLine|
        candidates(width, table, line.origin, regex_captures(symbols, line.text));
    assert(lines.push(line).map_values(of) =~= lines.map_values(of).push(of(line)));
    lines.map_values(of).lemma_flatten_push(of(line));
}

/// One more line adds its declarations behind those of the lines before it.
proof fn lemma_scan_modules_push(modules: Regex, kind: ModuleKind, lines: Seq<ScanLine>, line: ScanLine)
    ensures
        scan_modules(modules, kind, lines.push(line)) == scan_modules(modules, kind, lines)
            + declared(kind, line.origin, regex_captures(modules, line.text)),
{
    let of = |line: ScanLine| declared(kind, line.origin, regex_captures(modules, line.text));
    assert(lines.push(line).map_values(of) =~= lines.map_values(of).push(of(line)));
    lines.map_values(of).lemma_flatten_push(of(line));
}

/// Feeds every line of every unit to both extractors, unit after unit and
/// line after line, the symbol extractor first; then ends both scans and puts
/// their results together.
pub fn scan_units<'a>(
    config: &'a Config,
    data: &'a Data,
    qstr_extractor: crate::qstr::Extractor<'a>,
    module_extractor: crate::module::Extractor,
    units: &Vec<TranslationUnit>,
) -> (outcome: Result<ExtractedData, ExtractError>)
    requires
        qstr_extractor.starts(config, data),
        module_extractor.wf(),
        module_extractor.is_empty(),
    ensures
        scanned(
            qstr_extractor.pattern(),
            module_extractor.pattern(),
            *config,
            data@,
            scan_lines(unit_views(units@)),
            outcome,
        ),
        outcome matches Ok(extracted) ==> in_order(*config, data@, extracted@),
{
    let mut qstrs = qstr_extractor;
    let mut modules = module_extractor;
    let ghost symbols = qstr_extractor.pattern();
    let ghost declarations = module_extractor.pattern();
    let ghost width = config.bytes_in_hash;
    let ghost table = data.qstr_ident_translations@;
    let ghost all_units = unit_views(units@);
    let ghost all_lines = scan_lines(all_units);
    let ghost builtin = builtin_unsorted(width, data@);
    let ghost known = idents_of(builtin_static(width, data@)) + idents_of(builtin);
    let ghost done: Seq<ScanLine> = Seq::empty();
    let mut u: usize = 0;
    while u < units.len()
        invariant
            u <= units.len(),
            all_units == unit_views(units@),
            all_lines == scan_lines(all_units),
            width == config.bytes_in_hash,
            table == data.qstr_ident_translations@,
            builtin == builtin_unsorted(width, data@),
            symbols == qstr_extractor.pattern(),
            declarations == module_extractor.pattern(),
            qstrs.wf(),
            qstrs.config() == *config,
            qstrs.data() == *data,
            qstrs.pattern() == symbols,
            modules.wf(),
            modules.pattern() == declarations,
            done == scan_lines(all_units.take(u as int)),
            all_scan(symbols, declarations, done),
            qstrs.discovered() == builtin + fresh_records(
                known,
                scan_candidates(symbols, width, table, done),
            ),
            qstrs.seen() == known + idents_of(scan_candidates(symbols, width, table, done)),
            modules.modules() == scan_modules(declarations, ModuleKind::Module, done),
            modules.extensible_modules() == scan_modules(declarations, ModuleKind::Extensible, done),
            modules.module_delegations() == scan_modules(declarations, ModuleKind::Delegation, done),
        decreases units.len() - u,
    {
        let unit = &units[u];
        let ghost before_unit = done;
        let ghost in_unit = unit_lines(all_units[u as int]);
        proof {
            lemma_scan_lines_take(all_units, u as int);
            lemma_scan_lines_take(all_units, u + 1);
        }
        let mut l: usize = 0;
        while l < unit.lines.len()
            invariant
                l <= unit.lines.len(),
                u < units.len(),
                unit == &units[u as int],
                all_units == unit_views(units@),
                all_lines == scan_lines(all_units),
                in_unit == unit_lines(all_units[u as int]),
                all_units[u as int] == unit@,
                (before_unit + in_unit).is_prefix_of(all_lines),
                width == config.bytes_in_hash,
                table == data.qstr_ident_translations@,
                builtin == builtin_unsorted(width, data@),
                symbols == qstr_extractor.pattern(),
                declarations == module_extractor.pattern(),
                qstrs.wf(),
                qstrs.config() == *config,
                qstrs.data() == *data,
                qstrs.pattern() == symbols,
                modules.wf(),
                modules.pattern() == declarations,
                done == before_unit + in_unit.take(l as int),
                all_scan(symbols, declarations, done),
                qstrs.discovered() == builtin + fresh_records(
                    known,
                    scan_candidates(symbols, width, table, done),
                ),
                qstrs.seen() == known + idents_of(scan_candidates(symbols, width, table, done)),
                modules.modules() == scan_modules(declarations, ModuleKind::Module, done),
                modules.extensible_modules() == scan_modules(
                    declarations,
                    ModuleKind::Extensible,
                    done,
                ),
                modules.module_delegations() == scan_modules(
                    declarations,
                    ModuleKind::Delegation,
                    done,
                ),
            decreases unit.lines.len() - l,
        {
            let ghost line = ScanLine { origin: unit.origin@, text: unit.lines[l as int]@ };
            let ghost at = done.len() as int;
            let ghost found = scan_candidates(symbols, width, table, done);
            let ghost offered = candidates(
                width,
                table,
                line.origin,
                regex_captures(symbols, line.text),
            );
            proof {
                assert((before_unit + in_unit)[at] == line);
                assert forall|j: int| 0 <= j < at implies line_scans(
                    symbols,
                    declarations,
                    #[trigger] all_lines[j],
                ) by {
                    assert((before_unit + in_unit)[j] == done[j]);
                }
                lemma_scan_candidates_push(symbols, width, table, done, line);
                lemma_scan_modules_push(declarations, ModuleKind::Module, done, line);
                lemma_scan_modules_push(declarations, ModuleKind::Extensible, done, line);
                lemma_scan_modules_push(declarations, ModuleKind::Delegation, done, line);
                lemma_fresh_records_concat(known, found, offered);
            }
            match qstrs.process_line(unit.origin.as_str(), unit.lines[l].as_str()) {
                Ok(()) => {},
                Err(e) => {
                    proof {
                        // A match was rejected, so not every match is usable.
                        let matches = regex_captures(symbols, line.text);
                        let i = choose|i: int| #[trigger] first_unusable(matches, i);
                        assert(!match_usable(matches[i]));
                        assert(first_failing(symbols, declarations, all_lines, at));
                    }
                    return Err(e);
                },
            }
            match modules.process_line(unit.origin.as_str(), unit.lines[l].as_str()) {
                Ok(()) => {},
                Err(e) => {
                    assert(first_failing(symbols, declarations, all_lines, at));
                    return Err(e);
                },
            }
            proof {
                let next = done.push(line);
                assert(qstrs.seen() =~= known + idents_of(
                    scan_candidates(symbols, width, table, next),
                )) by {
                    lemma_idents_of_concat(found, offered);
                }
                done = next;
            }
            l += 1;
        }
        u += 1;
    }
    assert(all_units.take(u as int) =~= all_units);
    let qstrs = qstrs.finish();
    let modules = modules.finish();
    let outcome = ExtractedData::new(config, data, qstrs, modules);
    proof {
        lemma_symbol_order(symbols, declarations, *config, data@, all_lines);
    }
    outcome
}

/// Extracts the data model of a run from its translation units: it starts
/// both extractors and scans the units with them.
///
/// In this order: where the symbol pattern does not compile, the result is a
/// `Pattern` error; where a built-in symbol has no record, it is the
/// `Encoding` error for the first such; where the module pattern does not
/// compile, it is a `Pattern` error. Otherwise the result is that of the scan
/// with the two compiled patterns. Whatever the scan found, the symbol lists
/// of a result stand in their order.
pub fn extract_data(config: &Config, data: &Data, units: &Vec<TranslationUnit>) -> (outcome: Result<
    ExtractedData,
    ExtractError,
>)
    ensures
        ({
            let builtin = data@.static_qstrs + data@.unsorted_qstrs;
            if !regex_compiles(SYMBOL_PATTERN@) {
                outcome matches Err(error) && error is Pattern
            } else if !all_encodable(builtin) {
                outcome matches Err(error) && refuses(builtin, error)
            } else if !regex_compiles(MODULE_PATTERN@) {
                outcome matches Err(error) && error is Pattern
            } else {
                exists|symbols: Regex, modules: Regex|
                    {
                        &&& regex_source(symbols) == SYMBOL_PATTERN@
                        &&& regex_source(modules) == MODULE_PATTERN@
                        &&& #[trigger] scanned(
                            symbols,
                            modules,
                            *config,
                            data@,
                            scan_lines(unit_views(units@)),
                            outcome,
                        )
                    }
            }
        }),
        outcome matches Ok(extracted) ==> in_order(*config, data@, extracted@),
{
    let qstr_extractor = match crate::qstr::Extractor::new(config, data) {
        Ok(extractor) => extractor,
        Err(e) => {
            return Err(e);
        },
    };
    let module_extractor = match crate::module::Extractor::new() {
        Ok(extractor) => extractor,
        Err(e) => {
            return Err(e);
        },
    };
    scan_units(config, data, qstr_extractor, module_extractor, units)
}

} // verus!
