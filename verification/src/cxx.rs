//! C and C++ source files: what kind of file a path names and what it is
//! for, and the facts that a scan of a translation unit yields.

use vstd::prelude::*;
use vstd::string::*;
use crate::json::texts_view;
use crate::pattern::{
    collect_group, group_of, group_text, group_texts, regex_all, regex_captures,
    regex_captures_iter, regex_compiles, regex_first, regex_new,
};
use crate::text::{
    contains_seq, ends_with_seq, lowercase, starts_with_seq, str_contains, str_ends_with, str_eq,
    str_starts_with, str_to_lowercase,
};

verus! {

/// What kind of file a C or C++ source path names.
#[derive(Debug, Clone, PartialEq, Eq, Structural)]
pub enum FileCategory {
    EntryPoint,
    UnitTest,
    IntegrationTest,
    CoreLogic,
    Utility,
    Header,
    Implementation,
    Configuration,
    Unknown,
}

/// A symbol as a scan of a translation unit reports it.
#[derive(Debug)]
pub struct Symbol {
    pub usr: Option<String>,
    pub name: String,
    pub kind: String,
    pub is_definition: bool,
    pub file: String,
    pub line: u32,
    pub column: u32,
}

/// A use of a symbol as a scan of a translation unit reports it.
#[derive(Debug)]
pub struct Occurrence {
    pub usr: Option<String>,
    pub usage_kind: String,
    pub file: String,
    pub line: u32,
    pub column: u32,
}

/// A C++20 module: its name, the file that declares it and the modules that
/// the file imports.
#[derive(Debug)]
pub struct ModuleInfo {
    pub name: String,
    pub path: String,
    pub imports: Vec<String>,
}

/// The category of a file, from its path and its file name, both in lower
/// case. The first rule that applies decides: a main file is an entry point;
/// a path or name that speaks of tests is a unit test; then the ending tells
/// headers from implementation files and marks build configuration; a path
/// that speaks of utilities is a utility.
pub open spec fn category_of(path: Seq<char>, name: Seq<char>) -> FileCategory {
    if name == "main.cpp"@ || name == "main.c"@ || name == "winmain.cpp"@ {
        FileCategory::EntryPoint
    } else if contains_seq(path, "test"@) || contains_seq(path, "spec"@) || starts_with_seq(
        name,
        "test_"@,
    ) || ends_with_seq(name, "_test.cpp"@) || contains_seq(name, "gtest"@) || contains_seq(
        name,
        "catch"@,
    ) {
        FileCategory::UnitTest
    } else if ends_with_seq(name, ".h"@) || ends_with_seq(name, ".hpp"@) || ends_with_seq(
        name,
        ".hxx"@,
    ) || ends_with_seq(name, ".hh"@) {
        FileCategory::Header
    } else if ends_with_seq(name, ".cpp"@) || ends_with_seq(name, ".cc"@) || ends_with_seq(
        name,
        ".cxx"@,
    ) || ends_with_seq(name, ".c"@) {
        FileCategory::Implementation
    } else if ends_with_seq(name, ".cmake"@) || name == "cmakelists.txt"@ || ends_with_seq(
        name,
        ".config"@,
    ) {
        FileCategory::Configuration
    } else if contains_seq(path, "util"@) || contains_seq(path, "helper"@) || contains_seq(
        path,
        "common"@,
    ) {
        FileCategory::Utility
    } else {
        FileCategory::Unknown
    }
}

/// The category of a file whose path and file name are given in lower case.
pub fn categorize_names(path: &str, name: &str) -> (r: FileCategory)
    ensures
        r == category_of(path@, name@),
{
    if str_eq(name, "main.cpp") || str_eq(name, "main.c") || str_eq(name, "winmain.cpp") {
        return FileCategory::EntryPoint;
    }
    if str_contains(path, "test") || str_contains(path, "spec") || str_starts_with(name, "test_")
        || str_ends_with(name, "_test.cpp") || str_contains(name, "gtest") || str_contains(
        name,
        "catch",
    ) {
        return FileCategory::UnitTest;
    }
    if str_ends_with(name, ".h") || str_ends_with(name, ".hpp") || str_ends_with(name, ".hxx")
        || str_ends_with(name, ".hh") {
        return FileCategory::Header;
    }
    if str_ends_with(name, ".cpp") || str_ends_with(name, ".cc") || str_ends_with(name, ".cxx")
        || str_ends_with(name, ".c") {
        return FileCategory::Implementation;
    }
    if str_ends_with(name, ".cmake") || str_eq(name, "cmakelists.txt") || str_ends_with(
        name,
        ".config",
    ) {
        return FileCategory::Configuration;
    }
    if str_contains(path, "util") || str_contains(path, "helper") || str_contains(path, "common") {
        return FileCategory::Utility;
    }
    FileCategory::Unknown
}

/// `Path::file_name` on the path, as text: the last component of the path,
/// or nothing where the path has none or it is not Unicode. What counts as a
/// component lies with the platform, so only this is claimed: the name is a
/// part of the path.
#[verifier::external_body]
pub(crate) fn path_file_name(path: &str) -> (r: Option<String>)
    ensures
        r matches Some(name) ==> contains_seq(path@, name@),
{
    std::path::Path::new(path).file_name().and_then(|s| s.to_str()).map(|s| s.to_string())
}

/// The name of the file at a path, or the empty text where the path has
/// none.
pub(crate) fn file_name_of(path: &str) -> (r: String)
    ensures
        contains_seq(path@, r@),
{
    match path_file_name(path) {
        Some(name) => name,
        None => {
            let none = String::from_str("");
            proof {
                reveal_strlit("");
                assert(path@.subrange(0int, 0int + none@.len()) =~= none@);
            }
            none
        },
    }
}

/// The category of the file at `path`: that of [`category_of`] for the path
/// and its file name, both in lower case.
pub fn categorize_cpp_file(path: &str) -> (r: FileCategory)
    ensures
        exists|name: Seq<char>|
            contains_seq(path@, name) && r == #[trigger] category_of(
                lowercase(path@),
                lowercase(name),
            ),
{
    let path_lower = str_to_lowercase(path);
    let name = file_name_of(path);
    let name_lower = str_to_lowercase(name.as_str());
    let r = categorize_names(path_lower.as_str(), name_lower.as_str());
    assert(r == category_of(lowercase(path@), lowercase(name@)));
    r
}

/// What a path says of a file's subject: the first of networking, database
/// and user interface that the path names, in lower case.
pub open spec fn subject_of(path: Seq<char>, otherwise: Seq<char>) -> Seq<char> {
    if contains_seq(path, "network"@) || contains_seq(path, "socket"@) {
        "Network operations"@
    } else if contains_seq(path, "database"@) || contains_seq(path, "db"@) {
        "Database operations"@
    } else if contains_seq(path, "ui"@) || contains_seq(path, "gui"@) {
        "User interface"@
    } else {
        otherwise
    }
}

/// What a file is for, from its category and, for implementation files and
/// files of no settled kind, from what its path says, in lower case.
pub open spec fn purpose_of(path: Seq<char>, category: FileCategory) -> Seq<char> {
    match category {
        FileCategory::EntryPoint => "Application entry point"@,
        FileCategory::UnitTest => "Unit tests"@,
        FileCategory::Header => "Header declarations"@,
        FileCategory::Configuration => "Build configuration"@,
        FileCategory::Utility => "Utility functions"@,
        FileCategory::Implementation => subject_of(path, "Implementation code"@),
        _ => subject_of(path, "Core application logic"@),
    }
}

/// What a path in lower case says of a file's subject.
fn subject(path: &str, otherwise: &str) -> (r: String)
    ensures
        r@ == subject_of(path@, otherwise@),
{
    if str_contains(path, "network") || str_contains(path, "socket") {
        String::from_str("Network operations")
    } else if str_contains(path, "database") || str_contains(path, "db") {
        String::from_str("Database operations")
    } else if str_contains(path, "ui") || str_contains(path, "gui") {
        String::from_str("User interface")
    } else {
        String::from_str(otherwise)
    }
}

/// What the file at `path` is for, given its category.
pub fn infer_cpp_purpose(path: &str, category: &FileCategory) -> (r: String)
    ensures
        r@ == purpose_of(lowercase(path@), *category),
{
    let path_lower = str_to_lowercase(path);
    match category {
        FileCategory::EntryPoint => String::from_str("Application entry point"),
        FileCategory::UnitTest => String::from_str("Unit tests"),
        FileCategory::Header => String::from_str("Header declarations"),
        FileCategory::Configuration => String::from_str("Build configuration"),
        FileCategory::Utility => String::from_str("Utility functions"),
        FileCategory::Implementation => subject(path_lower.as_str(), "Implementation code"),
        _ => subject(path_lower.as_str(), "Core application logic"),
    }
}

/// The mathematical value of a [`ModuleInfo`].
pub struct ModuleInfoView {
    pub name: Seq<char>,
    pub path: Seq<char>,
    pub imports: Seq<Seq<char>>,
}

impl View for ModuleInfo {
    type V = ModuleInfoView;

    open spec fn view(&self) -> ModuleInfoView {
        ModuleInfoView { name: self.name@, path: self.path@, imports: texts_view(self.imports@) }
    }
}

/// The pattern of the line that declares a module: `export module NAME;`,
/// with the name as its one group.
pub open spec fn export_pattern() -> Seq<char> {
    "(?m)^\\s*export\\s+module\\s+([A-Za-z0-9_:.]+)\\s*;"@
}

/// The pattern of a line that imports a module: `import NAME;`, with the
/// name as its one group.
pub open spec fn import_pattern() -> Seq<char> {
    "(?m)^\\s*import\\s+([A-Za-z0-9_:.]+)\\s*;"@
}

/// The module that a source text declares: its name from the first line
/// that matches [`export_pattern`], its imports from the lines that match
/// [`import_pattern`], in their order. `None` where no line declares a
/// module, or where a pattern does not compile.
pub open spec fn module_of_text(text: Seq<char>, path: Seq<char>) -> Option<ModuleInfoView> {
    if !regex_compiles(export_pattern()) || !regex_compiles(import_pattern()) {
        None
    } else {
        match regex_first(export_pattern(), text) {
            Some(groups) => match group_of(groups, 1) {
                Some(name) => Some(
                    ModuleInfoView {
                        name,
                        path,
                        imports: group_texts(regex_all(import_pattern(), text), 1),
                    },
                ),
                None => None,
            },
            None => None,
        }
    }
}

/// The module that a source text declares, with the modules it imports.
pub fn scan_cpp20_module_from_text(text: &str, path: &str) -> (r: Option<ModuleInfo>)
    ensures
        match r {
            Some(info) => module_of_text(text@, path@) == Some(info@),
            None => module_of_text(text@, path@) is None,
        },
{
    let re_export = regex_new("(?m)^\\s*export\\s+module\\s+([A-Za-z0-9_:.]+)\\s*;")?;
    let re_import = regex_new("(?m)^\\s*import\\s+([A-Za-z0-9_:.]+)\\s*;")?;
    let groups = regex_captures(&re_export, text)?;
    let name = group_text(&groups, 1)?;
    let matches = regex_captures_iter(&re_import, text);
    let imports = collect_group(&matches, 1);
    assert(texts_view(imports@) =~= imports.deep_view());
    Some(ModuleInfo { name, path: String::from_str(path), imports })
}

/// The words of a command line as `shell_words::split` gives them, by the
/// rules of a POSIX shell for quotes and backslashes; nothing where a quote
/// is left open or a backslash ends the line.
pub uninterp spec fn shell_words_of(command: Seq<char>) -> Option<Seq<Seq<char>>>;

/// `shell_words::split`: the words of a command line.
#[verifier::external_body]
pub(crate) fn shell_split(command: &str) -> (r: Option<Vec<String>>)
    ensures
        r.deep_view() == shell_words_of(command@),
{
    shell_words::split(command).ok()
}

/// Whether an argument names a compiler: by its ending.
pub open spec fn names_compiler(argument: Seq<char>) -> bool {
    ends_with_seq(argument, "cl"@) || ends_with_seq(argument, "clang"@) || ends_with_seq(
        argument,
        "clang++"@,
    ) || ends_with_seq(argument, "gcc"@) || ends_with_seq(argument, "g++"@)
}

/// The arguments without the compilers that they begin with.
pub open spec fn without_compilers(arguments: Seq<Seq<char>>) -> Seq<Seq<char>>
    decreases arguments.len(),
{
    if arguments.len() > 0 && names_compiler(arguments[0]) {
        without_compilers(arguments.drop_first())
    } else {
        arguments
    }
}

/// The arguments of a compiler command, however the command is given: as
/// its list of arguments, else as the words of its command line, else none.
pub open spec fn given_arguments(
    arguments: Option<Seq<Seq<char>>>,
    command: Option<Seq<char>>,
) -> Option<Seq<Seq<char>>> {
    match arguments {
        Some(list) => Some(list),
        None => match command {
            Some(line) => shell_words_of(line),
            None => Some(Seq::empty()),
        },
    }
}

/// The arguments of a compiler command for the parser: those given, without
/// the compilers that they begin with. `None` where the command line cannot
/// be taken apart.
pub fn parser_arguments(arguments: &Option<Vec<String>>, command: &Option<String>) -> (r: Option<
    Vec<String>,
>)
    ensures
        r.deep_view() == match given_arguments(
            match arguments {
                Some(list) => Some(texts_view(list@)),
                None => None,
            },
            command.deep_view(),
        ) {
            Some(given) => Some(without_compilers(given)),
            None => None,
        },
{
    let given: Vec<String> = match arguments {
        Some(list) => {
            let mut copy: Vec<String> = Vec::new();
            let mut i: usize = 0;
            while i < list.len()
                invariant
                    i <= list.len(),
                    copy@.len() == i,
                    forall|k: int| 0 <= k < i ==> (#[trigger] copy@[k])@ == list@[k]@,
                decreases list.len() - i,
            {
                copy.push(list[i].clone());
                i += 1;
            }
            proof {
                assert(copy.deep_view() =~= texts_view(list@));
            }
            copy
        },
        None => match command {
            Some(line) => shell_split(line.as_str())?,
            None => {
                let empty: Vec<String> = Vec::new();
                proof {
                    assert(empty.deep_view() =~= Seq::<Seq<char>>::empty());
                }
                empty
            },
        },
    };
    let ghost all = given.deep_view();
    let mut start: usize = 0;
    proof {
        assert(all.skip(0) =~= all);
    }
    while start < given.len() && (str_ends_with(given[start].as_str(), "cl") || str_ends_with(
        given[start].as_str(),
        "clang",
    ) || str_ends_with(given[start].as_str(), "clang++") || str_ends_with(
        given[start].as_str(),
        "gcc",
    ) || str_ends_with(given[start].as_str(), "g++"))
        invariant
            start <= given.len(),
            all == given.deep_view(),
            without_compilers(all) == without_compilers(all.skip(start as int)),
        decreases given.len() - start,
    {
        proof {
            assert(all.skip(start as int)[0] == given@[start as int]@);
            assert(all.skip(start as int).drop_first() =~= all.skip(start as int + 1));
        }
        start += 1;
    }
    proof {
        if start < given.len() {
            assert(all.skip(start as int)[0] == given@[start as int]@);
        }
        assert(without_compilers(all.skip(start as int)) == all.skip(start as int));
    }
    let mut out: Vec<String> = Vec::new();
    let mut i: usize = start;
    while i < given.len()
        invariant
            start <= i <= given.len(),
            out@.len() == i - start,
            forall|k: int| 0 <= k < i - start ==> (#[trigger] out@[k])@ == given@[start + k]@,
        decreases given.len() - i,
    {
        out.push(given[i].clone());
        i += 1;
    }
    proof {
        assert(out.deep_view() =~= all.skip(start as int));
    }
    Some(out)
}

/// Whether a kind of entity, by its name, declares something.
pub open spec fn declares(kind: Seq<char>) -> bool {
    kind == "StructDecl"@ || kind == "ClassDecl"@ || kind == "EnumDecl"@ || kind == "FieldDecl"@
        || kind == "FunctionDecl"@ || kind == "VarDecl"@ || kind == "ParmDecl"@ || kind
        == "TypedefDecl"@ || kind == "Method"@ || kind == "Namespace"@ || kind == "Constructor"@
        || kind == "Destructor"@ || kind == "ClassTemplate"@ || kind == "FunctionTemplate"@ || kind
        == "UnionDecl"@
}

/// Whether a kind of entity, by its name, is an expression or a reference.
pub open spec fn refers(kind: Seq<char>) -> bool {
    kind == "CallExpr"@ || kind == "DeclRefExpr"@ || kind == "MemberRefExpr"@ || kind == "TypeRef"@
        || kind == "TemplateRef"@ || kind == "NamespaceRef"@ || kind == "MemberRef"@ || kind
        == "UnexposedExpr"@
}

/// How an entity of a kind uses what it refers to.
pub open spec fn usage_of(kind: Seq<char>) -> Seq<char> {
    if kind == "CallExpr"@ {
        "call"@
    } else if kind == "DeclRefExpr"@ {
        "reference"@
    } else if kind == "MemberRefExpr"@ {
        "member_ref"@
    } else if kind == "TypeRef"@ {
        "type_ref"@
    } else {
        "expr"@
    }
}

/// Whether a kind of entity, by its name, declares something.
pub fn is_declaration_kind(kind: &str) -> (r: bool)
    ensures
        r == declares(kind@),
{
    str_eq(kind, "StructDecl") || str_eq(kind, "ClassDecl") || str_eq(kind, "EnumDecl") || str_eq(
        kind,
        "FieldDecl",
    ) || str_eq(kind, "FunctionDecl") || str_eq(kind, "VarDecl") || str_eq(kind, "ParmDecl")
        || str_eq(kind, "TypedefDecl") || str_eq(kind, "Method") || str_eq(kind, "Namespace")
        || str_eq(kind, "Constructor") || str_eq(kind, "Destructor") || str_eq(
        kind,
        "ClassTemplate",
    ) || str_eq(kind, "FunctionTemplate") || str_eq(kind, "UnionDecl")
}

/// Whether a kind of entity, by its name, is an expression or a reference.
pub fn is_expression_or_reference_kind(kind: &str) -> (r: bool)
    ensures
        r == refers(kind@),
{
    str_eq(kind, "CallExpr") || str_eq(kind, "DeclRefExpr") || str_eq(kind, "MemberRefExpr")
        || str_eq(kind, "TypeRef") || str_eq(kind, "TemplateRef") || str_eq(kind, "NamespaceRef")
        || str_eq(kind, "MemberRef") || str_eq(kind, "UnexposedExpr")
}

/// How an entity of a kind uses what it refers to.
pub fn classify_usage(kind: &str) -> (r: String)
    ensures
        r@ == usage_of(kind@),
{
    if str_eq(kind, "CallExpr") {
        String::from_str("call")
    } else if str_eq(kind, "DeclRefExpr") {
        String::from_str("reference")
    } else if str_eq(kind, "MemberRefExpr") {
        String::from_str("member_ref")
    } else if str_eq(kind, "TypeRef") {
        String::from_str("type_ref")
    } else {
        String::from_str("expr")
    }
}

/// Where an entity stands in the source.
#[derive(Debug)]
pub struct Location {
    /// The path of the file, or the empty text where the place is in no file.
    pub file: String,
    pub line: u32,
    pub column: u32,
}

/// What a scan reads of one entity of a translation unit.
#[derive(Debug)]
pub struct EntityFacts {
    /// The name of the entity's kind.
    pub kind: String,
    /// The entity's external identifier.
    pub usr: Option<String>,
    /// The name under which the entity is shown.
    pub display_name: String,
    /// Whether the entity is a definition.
    pub is_definition: bool,
    /// Where the entity stands.
    pub location: Option<Location>,
    /// The external identifier of the entity in which this one is declared.
    pub parent_usr: Option<String>,
    /// Whether the entity refers to another.
    pub has_reference: bool,
    /// The external identifier of the entity that this one refers to.
    pub reference_usr: Option<String>,
}

/// The mathematical value of a [`Symbol`].
pub struct SymbolView {
    pub usr: Option<Seq<char>>,
    pub name: Seq<char>,
    pub kind: Seq<char>,
    pub is_definition: bool,
    pub file: Seq<char>,
    pub line: u32,
    pub column: u32,
}

/// The mathematical value of an [`Occurrence`].
pub struct OccurrenceView {
    pub usr: Option<Seq<char>>,
    pub usage_kind: Seq<char>,
    pub file: Seq<char>,
    pub line: u32,
    pub column: u32,
}

/// The value of a symbol.
pub open spec fn symbol_view(s: Symbol) -> SymbolView {
    SymbolView {
        usr: s.usr.deep_view(),
        name: s.name@,
        kind: s.kind@,
        is_definition: s.is_definition,
        file: s.file@,
        line: s.line,
        column: s.column,
    }
}

/// The value of an occurrence.
pub open spec fn occurrence_view(o: Occurrence) -> OccurrenceView {
    OccurrenceView {
        usr: o.usr.deep_view(),
        usage_kind: o.usage_kind@,
        file: o.file@,
        line: o.line,
        column: o.column,
    }
}

/// The values of a list of symbols.
pub open spec fn symbols_view(items: Seq<Symbol>) -> Seq<SymbolView> {
    Seq::new(items.len(), |i: int| symbol_view(items[i]))
}

/// The values of a list of occurrences.
pub open spec fn occurrences_view(items: Seq<Occurrence>) -> Seq<OccurrenceView> {
    Seq::new(items.len(), |i: int| occurrence_view(items[i]))
}

/// The values of a list of edges, each a kind, a source and a target.
pub open spec fn edges_view(items: Seq<(String, String, String)>) -> Seq<
    (Seq<char>, Seq<char>, Seq<char>),
> {
    Seq::new(items.len(), |i: int| (items[i].0@, items[i].1@, items[i].2@))
}

/// The symbol that an entity gives: one for an entity that declares
/// something and stands somewhere.
pub open spec fn entity_symbols(e: EntityFacts) -> Seq<SymbolView> {
    if declares(e.kind@) && e.location is Some {
        seq![
            SymbolView {
                usr: e.usr.deep_view(),
                name: e.display_name@,
                kind: e.kind@,
                is_definition: e.is_definition,
                file: e.location->0.file@,
                line: e.location->0.line,
                column: e.location->0.column,
            },
        ]
    } else {
        Seq::empty()
    }
}

/// The occurrence that an entity gives: one for an expression or reference
/// that refers to something and stands somewhere.
pub open spec fn entity_occurrences(e: EntityFacts) -> Seq<OccurrenceView> {
    if refers(e.kind@) && e.has_reference && e.location is Some {
        seq![
            OccurrenceView {
                usr: e.reference_usr.deep_view(),
                usage_kind: usage_of(e.kind@),
                file: e.location->0.file@,
                line: e.location->0.line,
                column: e.location->0.column,
            },
        ]
    } else {
        Seq::empty()
    }
}

/// The member edge that an entity gives: from the owner to a field or a
/// method that it holds.
pub open spec fn member_edges(e: EntityFacts) -> Seq<(Seq<char>, Seq<char>, Seq<char>)> {
    if (e.kind@ == "FieldDecl"@ || e.kind@ == "Method"@) && e.parent_usr is Some && e.usr is Some {
        seq![("member"@, e.parent_usr->0@, e.usr->0@)]
    } else {
        Seq::empty()
    }
}

/// The inheritance edge that an entity gives: a base specifier leads from
/// the base that it refers to, to the class in which it stands.
pub open spec fn inherit_edges(e: EntityFacts) -> Seq<(Seq<char>, Seq<char>, Seq<char>)> {
    if e.kind@ == "BaseSpecifier"@ && e.parent_usr is Some && e.reference_usr is Some {
        seq![("inherit"@, e.reference_usr->0@, e.parent_usr->0@)]
    } else {
        Seq::empty()
    }
}

/// The edges that an entity gives: from the owner to a field or a method
/// that it holds, from a base to the class that names it as its base, and
/// from the caller to what a call refers to.
pub open spec fn entity_edges(e: EntityFacts) -> Seq<(Seq<char>, Seq<char>, Seq<char>)> {
    let member = member_edges(e);
    let inherit = inherit_edges(e);
    let call = if e.kind@ == "CallExpr"@ && e.has_reference && e.location is Some && e.parent_usr
        is Some && e.reference_usr is Some {
        seq![("call"@, e.parent_usr->0@, e.reference_usr->0@)]
    } else {
        Seq::empty()
    };
    member + inherit + call
}

/// Takes one entity of a translation unit into a scan.
pub fn visit_entity(
    e: &EntityFacts,
    symbols: &mut Vec<Symbol>,
    occurrences: &mut Vec<Occurrence>,
    edges: &mut Vec<(String, String, String)>,
)
    ensures
        symbols_view(final(symbols)@) == symbols_view(old(symbols)@) + entity_symbols(*e),
        occurrences_view(final(occurrences)@) == occurrences_view(old(occurrences)@)
            + entity_occurrences(*e),
        edges_view(final(edges)@) == edges_view(old(edges)@) + entity_edges(*e),
{
    let ghost symbols_before = symbols_view(symbols@);
    let ghost occurrences_before = occurrences_view(occurrences@);
    let ghost edges_before = edges_view(edges@);
    let kind = e.kind.as_str();
    proof {
        reveal_strlit("FieldDecl");
        reveal_strlit("Method");
        reveal_strlit("CallExpr");
        reveal_strlit("BaseSpecifier");
        assert(symbols_view(symbols@) =~= symbols_before + Seq::<SymbolView>::empty());
        assert(occurrences_view(occurrences@) =~= occurrences_before + Seq::<
            OccurrenceView,
        >::empty());
        assert(edges_view(edges@) =~= edges_before + Seq::<
            (Seq<char>, Seq<char>, Seq<char>),
        >::empty());
    }
    if is_declaration_kind(kind) {
        match &e.location {
            Some(place) => {
                let symbol = Symbol {
                    usr: clone_text(&e.usr),
                    name: e.display_name.clone(),
                    kind: e.kind.clone(),
                    is_definition: e.is_definition,
                    file: place.file.clone(),
                    line: place.line,
                    column: place.column,
                };
                symbols.push(symbol);
                proof {
                    assert(symbols_view(symbols@) =~= symbols_before + seq![symbol_view(symbol)]);
                }
            },
            None => {},
        }
    }
    if str_eq(kind, "FieldDecl") || str_eq(kind, "Method") {
        match (&e.parent_usr, &e.usr) {
            (Some(owner), Some(own)) => {
                edges.push((String::from_str("member"), owner.clone(), own.clone()));
                proof {
                    assert(edges_view(edges@) =~= edges_before + seq![("member"@, owner@, own@)]);
                }
            },
            _ => {},
        }
    }
    let ghost only_member = edges_view(edges@);
    proof {
        assert(only_member =~= edges_before + member_edges(*e));
    }
    if str_eq(kind, "BaseSpecifier") {
        match (&e.parent_usr, &e.reference_usr) {
            (Some(derived), Some(base)) => {
                edges.push((String::from_str("inherit"), base.clone(), derived.clone()));
                proof {
                    assert(edges_view(edges@) =~= only_member + seq![("inherit"@, base@, derived@)]);
                }
            },
            _ => {},
        }
    }
    let ghost with_member = edges_view(edges@);
    proof {
        assert(with_member =~= edges_before + member_edges(*e) + inherit_edges(*e));
    }
    if is_expression_or_reference_kind(kind) && e.has_reference {
        match &e.location {
            Some(place) => {
                let occurrence = Occurrence {
                    usr: clone_text(&e.reference_usr),
                    usage_kind: classify_usage(kind),
                    file: place.file.clone(),
                    line: place.line,
                    column: place.column,
                };
                occurrences.push(occurrence);
                proof {
                    assert(occurrences_view(occurrences@) =~= occurrences_before + seq![
                        occurrence_view(occurrence),
                    ]);
                }
                if str_eq(kind, "CallExpr") {
                    match (&e.parent_usr, &e.reference_usr) {
                        (Some(caller), Some(callee)) => {
                            edges.push((String::from_str("call"), caller.clone(), callee.clone()));
                            proof {
                                assert(edges_view(edges@) =~= with_member + seq![
                                    ("call"@, caller@, callee@),
                                ]);
                            }
                        },
                        _ => {},
                    }
                }
            },
            None => {},
        }
    }
    proof {
        assert(edges_view(edges@) =~= edges_before + entity_edges(*e));
    }
}

/// A copy of an optional text.
fn clone_text(text: &Option<String>) -> (r: Option<String>)
    ensures
        r.deep_view() == text.deep_view(),
{
    match text {
        Some(s) => Some(s.clone()),
        None => None,
    }
}

} // verus!
