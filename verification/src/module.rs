//! Module registrations: the record of one declaration, and the extractor
//! that collects the declarations of scanned text into their three lists.

use regex::Regex;
use vstd::prelude::*;
use vstd::string::*;

use crate::error::ExtractError;
use crate::pattern::{
    captures_in,
    compile,
    groups_view,
    regex_captures,
    regex_compiles,
    regex_source,
};
use crate::qstr::ident_prefix;
use crate::text::{str_equal, strip_prefix};

verus! {

/// The keyword that registers a plain module.
pub const REGISTER_MODULE: &'static str = "MP_REGISTER_MODULE";

/// The keyword that registers a module that can be extended.
pub const REGISTER_EXTENSIBLE_MODULE: &'static str = "MP_REGISTER_EXTENSIBLE_MODULE";

/// The keyword that registers a delegation of attribute lookups.
pub const REGISTER_MODULE_DELEGATION: &'static str = "MP_REGISTER_MODULE_DELEGATION";

/// The pattern of a declaration: one of the three keywords, an opening
/// parenthesis, the symbol token up to the first comma, white space, the
/// bound symbol up to the first `);`. Both tokens are as short as can be.
pub const MODULE_PATTERN: &'static str =
    "(MP_REGISTER_MODULE|MP_REGISTER_EXTENSIBLE_MODULE|MP_REGISTER_MODULE_DELEGATION)\\((.*?),\\s*(.*?)\\);";

/// What the error says of a match of the pattern that carries no
/// declaration.
pub const NOT_A_DECLARATION: &'static str = "a module match is not a declaration";

/// The three categories of a registration.
#[derive(Debug, Clone, Copy, PartialEq, Eq, Structural)]
pub enum ModuleKind {
    Module,
    Extensible,
    Delegation,
}

/// The upper-case form of a text: what `str::to_uppercase` returns for it.
pub uninterp spec fn uppercase_of(text: Seq<char>) -> Seq<char>;

/// Turns a text into upper case.
///
/// Trusted: calls `str::to_uppercase`, which follows the Unicode case
/// mappings. The contract names the outcome and claims nothing about what it
/// holds.
#[verifier::external_body]
fn to_uppercase(text: &str) -> (upper: String)
    ensures
        upper@ == uppercase_of(text@),
{
    text.to_uppercase()
}

/// The category that a keyword stands for.
pub open spec fn spec_kind(keyword: Seq<char>) -> Option<ModuleKind> {
    if keyword == REGISTER_MODULE@ {
        Some(ModuleKind::Module)
    } else if keyword == REGISTER_EXTENSIBLE_MODULE@ {
        Some(ModuleKind::Extensible)
    } else if keyword == REGISTER_MODULE_DELEGATION@ {
        Some(ModuleKind::Delegation)
    } else {
        None
    }
}

/// A symbol token without the identifier prefix, if it has one.
pub open spec fn bare_name(qstr: Seq<char>) -> Seq<char> {
    if ident_prefix().is_prefix_of(qstr) {
        qstr.skip(ident_prefix().len() as int)
    } else {
        qstr
    }
}

/// The name under which a module is shown: its symbol token without the
/// identifier prefix, in upper case.
pub open spec fn spec_display_name(qstr: Seq<char>) -> Seq<char> {
    uppercase_of(bare_name(qstr))
}

/// A module record as plain values.
pub struct ModuleView {
    pub qstr_ident: Seq<char>,
    pub upper_name: Seq<char>,
    pub symbol: Seq<char>,
    pub source: Seq<char>,
}

/// The record of a declaration.
pub open spec fn spec_module(qstr: Seq<char>, symbol: Seq<char>, source: Seq<char>) -> ModuleView {
    ModuleView { qstr_ident: qstr, upper_name: spec_display_name(qstr), symbol, source }
}

/// One registered module.
#[derive(Debug)]
pub struct Module {
    /// The identifier of the symbol that names the module.
    pub qstr_ident: String,
    /// The name under which the module is shown.
    pub upper_name: String,
    /// The native symbol that implements the module.
    pub symbol: String,
    /// Where the declaration was found.
    pub source: String,
}

impl View for Module {
    type V = ModuleView;

    open spec fn view(&self) -> ModuleView {
        ModuleView {
            qstr_ident: self.qstr_ident@,
            upper_name: self.upper_name@,
            symbol: self.symbol@,
            source: self.source@,
        }
    }
}

impl Module {
    /// The record of a declaration that names the symbol token `qstr` and
    /// binds it to `symbol`, found in `source`.
    pub fn new(qstr: &str, symbol: &str, source: &str) -> (module: Module)
        ensures
            module@ == spec_module(qstr@, symbol@, source@),
    {
        let name = match strip_prefix(qstr, "MP_QSTR_") {
            Some(rest) => {
                assert(qstr@.skip(ident_prefix().len() as int) =~= rest@);
                rest
            },
            None => qstr,
        };
        Module {
            qstr_ident: qstr.to_string(),
            upper_name: to_uppercase(name),
            symbol: symbol.to_string(),
            source: source.to_string(),
        }
    }
}

/// The views of a list of records, in order.
pub open spec fn module_views(list: Seq<Module>) -> Seq<ModuleView> {
    list.map_values(|m: Module| m@)
}

/// A declaration as a match of the pattern gives it.
pub struct Declaration {
    pub kind: ModuleKind,
    pub qstr: Seq<char>,
    pub symbol: Seq<char>,
}

/// The declaration that a match of the module pattern carries: the match
/// has the whole match and three groups, which all took part, and the first
/// group is one of the keywords.
pub open spec fn match_declaration(groups: Seq<Option<Seq<char>>>) -> Option<Declaration> {
    if groups.len() == 4 && groups[1] is Some && groups[2] is Some && groups[3] is Some {
        match spec_kind(groups[1]->0) {
            Some(kind) => Some(Declaration { kind, qstr: groups[2]->0, symbol: groups[3]->0 }),
            None => None,
        }
    } else {
        None
    }
}

/// Whether every match of a search carries a declaration.
pub open spec fn all_declarations(matches: Seq<Seq<Option<Seq<char>>>>) -> bool {
    forall|i: int| 0 <= i < matches.len() ==> match_declaration(#[trigger] matches[i]) is Some
}

/// The records of the declarations of one category among the matches of a
/// line, in match order.
pub open spec fn declared(
    kind: ModuleKind,
    source: Seq<char>,
    matches: Seq<Seq<Option<Seq<char>>>>,
) -> Seq<ModuleView> {
    matches.filter_map(
        |groups: Seq<Option<Seq<char>>>|
            match match_declaration(groups) {
                Some(d) => if d.kind == kind {
                    Some(spec_module(d.qstr, d.symbol, source))
                } else {
                    None
                },
                None => None,
            },
    )
}

/// The category that a keyword stands for.
fn kind_of(keyword: &str) -> (kind: Option<ModuleKind>)
    ensures
        kind == spec_kind(keyword@),
{
    if str_equal(keyword, REGISTER_MODULE) {
        Some(ModuleKind::Module)
    } else if str_equal(keyword, REGISTER_EXTENSIBLE_MODULE) {
        Some(ModuleKind::Extensible)
    } else if str_equal(keyword, REGISTER_MODULE_DELEGATION) {
        Some(ModuleKind::Delegation)
    } else {
        None
    }
}

/// What a finished module scan hands over: the declarations of each
/// category, in the order in which they were found.
pub struct ExtractedModules {
    pub modules: Vec<Module>,
    pub extensible_modules: Vec<Module>,
    pub module_delegations: Vec<Module>,
}

/// Collects the module registrations of scanned text.
pub struct Extractor {
    re: Regex,
    modules: Vec<Module>,
    extensible_modules: Vec<Module>,
    module_delegations: Vec<Module>,
}

impl Extractor {
    /// The compiled module pattern.
    pub closed spec fn pattern(&self) -> Regex {
        self.re
    }

    /// The plain modules found so far.
    pub closed spec fn modules(&self) -> Seq<ModuleView> {
        module_views(self.modules@)
    }

    /// The extensible modules found so far.
    pub closed spec fn extensible_modules(&self) -> Seq<ModuleView> {
        module_views(self.extensible_modules@)
    }

    /// The delegations found so far.
    pub closed spec fn module_delegations(&self) -> Seq<ModuleView> {
        module_views(self.module_delegations@)
    }

    /// The invariant of an extractor: its pattern is the module pattern.
    pub open spec fn wf(&self) -> bool {
        regex_source(self.pattern()) == MODULE_PATTERN@
    }

    /// Whether nothing has been found yet.
    pub open spec fn is_empty(&self) -> bool {
        &&& self.modules().len() == 0
        &&& self.extensible_modules().len() == 0
        &&& self.module_delegations().len() == 0
    }

    /// What `add_matches` does with the matches of one line. Where every
    /// match carries a declaration, each list grows by the records of its
    /// category, in match order. Otherwise nothing is added and the error is
    /// `Pattern`, with the message `NOT_A_DECLARATION`.
    pub open spec fn added(
        &self,
        before: &Self,
        source: Seq<char>,
        matches: Seq<Seq<Option<Seq<char>>>>,
        done: Result<(), ExtractError>,
    ) -> bool {
        match done {
            Ok(()) => {
                &&& all_declarations(matches)
                &&& self.modules() == before.modules() + declared(
                    ModuleKind::Module,
                    source,
                    matches,
                )
                &&& self.extensible_modules() == before.extensible_modules() + declared(
                    ModuleKind::Extensible,
                    source,
                    matches,
                )
                &&& self.module_delegations() == before.module_delegations() + declared(
                    ModuleKind::Delegation,
                    source,
                    matches,
                )
            },
            Err(error) => {
                &&& error matches ExtractError::Pattern { message }
                &&& message@ == NOT_A_DECLARATION@
                &&& !all_declarations(matches)
                &&& self.modules() == before.modules()
                &&& self.extensible_modules() == before.extensible_modules()
                &&& self.module_delegations() == before.module_delegations()
            },
        }
    }

    /// Starts an extractor around a compiled module pattern.
    pub fn with_regex(re: Regex) -> (extractor: Self)
        requires
            regex_source(re) == MODULE_PATTERN@,
        ensures
            extractor.wf(),
            extractor.is_empty(),
            extractor.pattern() == re,
    {
        Extractor {
            re,
            modules: Vec::new(),
            extensible_modules: Vec::new(),
            module_delegations: Vec::new(),
        }
    }

    /// Starts an extractor: compiles the module pattern. It succeeds
    /// exactly where the pattern compiles, and fails with `Pattern` where it
    /// does not.
    pub fn new() -> (made: Result<Self, ExtractError>)
        ensures
            made is Ok <==> regex_compiles(MODULE_PATTERN@),
            match made {
                Ok(extractor) => extractor.wf() && extractor.is_empty(),
                Err(error) => error is Pattern,
            },
    {
        match compile(MODULE_PATTERN) {
            Ok(re) => Ok(Self::with_regex(re)),
            Err(e) => Err(ExtractError::Pattern { message: e.to_string() }),
        }
    }

    /// Takes the matches of the module pattern in one line of text, with the
    /// line's origin, and files the declarations under their categories.
    pub fn add_matches(&mut self, source: &str, matches: &Vec<Vec<Option<String>>>) -> (done: Result<
        (),
        ExtractError,
    >)
        requires
            old(self).wf(),
        ensures
            final(self).wf(),
            final(self).pattern() == old(self).pattern(),
            final(self).added(old(self), source@, groups_view(matches@), done),
    {
        let ghost found = groups_view(matches@);
        let mut modules: Vec<Module> = Vec::new();
        let mut extensible_modules: Vec<Module> = Vec::new();
        let mut module_delegations: Vec<Module> = Vec::new();
        let mut i: usize = 0;
        while i < matches.len()
            invariant
                i <= matches.len(),
                *self == *old(self),
                self.wf(),
                found == groups_view(matches@),
                all_declarations(found.take(i as int)),
                module_views(modules@) == declared(ModuleKind::Module, source@, found.take(i as int)),
                module_views(extensible_modules@) == declared(
                    ModuleKind::Extensible,
                    source@,
                    found.take(i as int),
                ),
                module_views(module_delegations@) == declared(
                    ModuleKind::Delegation,
                    source@,
                    found.take(i as int),
                ),
            decreases matches.len() - i,
        {
            let ghost before = found.take(i as int);
            let ghost after = found.take(i + 1);
            let groups = &matches[i];
            proof {
                assert(found[i as int] == groups.deep_view());
                assert(after.drop_last() =~= before);
            }
            if groups.len() != 4 {
                return Err(Self::not_a_declaration());
            }
            let (keyword, qstr, symbol) = match (&groups[1], &groups[2], &groups[3]) {
                (Some(keyword), Some(qstr), Some(symbol)) => (keyword, qstr, symbol),
                _ => {
                    return Err(Self::not_a_declaration());
                },
            };
            let kind = match kind_of(keyword.as_str()) {
                Some(kind) => kind,
                None => {
                    return Err(Self::not_a_declaration());
                },
            };
            let module = Module::new(qstr.as_str(), symbol.as_str(), source);
            match kind {
                ModuleKind::Module => {
                    modules.push(module);
                },
                ModuleKind::Extensible => {
                    extensible_modules.push(module);
                },
                ModuleKind::Delegation => {
                    module_delegations.push(module);
                },
            }
            i += 1;
        }
        assert(found.take(i as int) =~= found);
        let ghost held = (self.modules(), self.extensible_modules(), self.module_delegations());
        let ghost fresh = (
            module_views(modules@),
            module_views(extensible_modules@),
            module_views(module_delegations@),
        );
        self.modules.append(&mut modules);
        self.extensible_modules.append(&mut extensible_modules);
        self.module_delegations.append(&mut module_delegations);
        assert(self.modules() =~= held.0 + fresh.0);
        assert(self.extensible_modules() =~= held.1 + fresh.1);
        assert(self.module_delegations() =~= held.2 + fresh.2);
        Ok(())
    }

    /// The error for a match that carries no declaration: `Pattern`, with
    /// the message `NOT_A_DECLARATION`.
    fn not_a_declaration() -> (error: ExtractError)
        ensures
            error matches ExtractError::Pattern { message } && message@ == NOT_A_DECLARATION@,
    {
        ExtractError::Pattern { message: NOT_A_DECLARATION.to_string() }
    }

    /// Scans one line of text that comes from `source` and files every
    /// declaration in it under its category.
    pub fn process_line(&mut self, source: &str, line: &str) -> (done: Result<(), ExtractError>)
        requires
            old(self).wf(),
        ensures
            final(self).wf(),
            final(self).pattern() == old(self).pattern(),
            final(self).added(
                old(self),
                source@,
                regex_captures(old(self).pattern(), line@),
                done,
            ),
    {
        let found = captures_in(&self.re, line);
        self.add_matches(source, &found)
    }

    /// Ends the scan and hands over the three lists as they stand.
    pub fn finish(self) -> (extracted: ExtractedModules)
        ensures
            module_views(extracted.modules@) == self.modules(),
            module_views(extracted.extensible_modules@) == self.extensible_modules(),
            module_views(extracted.module_delegations@) == self.module_delegations(),
    {
        ExtractedModules {
            modules: self.modules,
            extensible_modules: self.extensible_modules,
            module_delegations: self.module_delegations,
        }
    }
}

} // verus!
