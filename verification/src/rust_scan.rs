//! Scanning Rust source text for what a module exports: its name and
//! imports, its public functions, types and constants, and the types that
//! aliases and constants refer to. The scan works line by line on the text
//! without its comments.

use vstd::prelude::*;
use vstd::string::*;
use crate::json::texts_view;
use crate::models::{
    relations_view, symbols_view, ModuleAnalysis, ModuleAnalysisView, ModuleInfo, ModuleInfoView,
    Relation, RelationView, Symbol, SymbolView,
};
use crate::pattern::{
    collect_group, group_of, group_text, group_texts, regex_all, regex_captures,
    regex_captures_iter, regex_compiles, regex_first, regex_is_match, regex_new, regex_source,
    Groups,
};
use crate::text::{
    concat2, contains_seq, lines_of, str_chars, str_contains, str_lines, str_trim,
    string_from_chars, trimmed,
};

verus! {

/// Where a scan of source text stands.
pub enum Mode {
    /// In code.
    Code,
    /// In a comment that ends with the line.
    LineComment,
    /// In a comment that ends with `*/`.
    BlockComment,
    /// In a string or character literal that ends with the quote given.
    Literal(char),
}

/// The text from `at` on without its comments, the scan standing in `mode`
/// there.
///
/// A comment to the end of a line leaves the line feed, a comment between
/// `/*` and `*/` leaves one blank. String and character literals stay as
/// they are, with whatever looks like a comment in them; a backslash in a
/// literal takes the next character with it. What a comment or a literal
/// leaves open at the end of the text is dropped or kept as far as it goes.
pub open spec fn cleaned(text: Seq<char>, at: int, mode: Mode) -> Seq<char>
    decreases text.len() - at,
{
    if at < 0 || at >= text.len() {
        Seq::empty()
    } else {
        let c = text[at];
        match mode {
            Mode::Code => if c == '/' && at + 1 < text.len() && text[at + 1] == '/' {
                cleaned(text, at + 1, Mode::LineComment)
            } else if c == '/' && at + 1 < text.len() && text[at + 1] == '*' {
                cleaned(text, at + 2, Mode::BlockComment)
            } else if c == '"' || c == '\'' {
                seq![c] + cleaned(text, at + 1, Mode::Literal(c))
            } else {
                seq![c] + cleaned(text, at + 1, Mode::Code)
            },
            Mode::LineComment => if c == '\n' {
                seq!['\n'] + cleaned(text, at + 1, Mode::Code)
            } else {
                cleaned(text, at + 1, Mode::LineComment)
            },
            Mode::BlockComment => if c == '*' && at + 1 < text.len() && text[at + 1] == '/' {
                seq![' '] + cleaned(text, at + 2, Mode::Code)
            } else {
                cleaned(text, at + 1, Mode::BlockComment)
            },
            Mode::Literal(quote) => if c == '\\' {
                if at + 1 < text.len() {
                    seq![c, text[at + 1]] + cleaned(text, at + 2, Mode::Literal(quote))
                } else {
                    seq![c]
                }
            } else if c == quote {
                seq![c] + cleaned(text, at + 1, Mode::Code)
            } else {
                seq![c] + cleaned(text, at + 1, Mode::Literal(quote))
            },
        }
    }
}

/// The text without its comments.
pub fn remove_comments_and_strings(text: &str) -> (r: String)
    ensures
        r@ == cleaned(text@, 0, Mode::Code),
{
    let chars = str_chars(text);
    let mut out: Vec<char> = Vec::new();
    let mut mode = Mode::Code;
    let mut at: usize = 0;
    proof {
        assert(out@ + cleaned(chars@, 0, Mode::Code) =~= cleaned(chars@, 0, Mode::Code));
    }
    while at < chars.len()
        invariant
            at <= chars.len(),
            out@ + cleaned(chars@, at as int, mode) == cleaned(chars@, 0, Mode::Code),
        decreases chars.len() - at,
    {
        let c = chars[at];
        let ghost before = out@;
        let ghost rest = cleaned(chars@, at as int, mode);
        match mode {
            Mode::Code => {
                if c == '/' && at + 1 < chars.len() && chars[at + 1] == '/' {
                    mode = Mode::LineComment;
                    at += 1;
                } else if c == '/' && at + 1 < chars.len() && chars[at + 1] == '*' {
                    mode = Mode::BlockComment;
                    at += 2;
                } else if c == '"' || c == '\'' {
                    out.push(c);
                    mode = Mode::Literal(c);
                    at += 1;
                    proof {
                        assert(out@ + cleaned(chars@, at as int, mode) =~= before + rest);
                    }
                } else {
                    out.push(c);
                    at += 1;
                    proof {
                        assert(out@ + cleaned(chars@, at as int, mode) =~= before + rest);
                    }
                }
            },
            Mode::LineComment => {
                if c == '\n' {
                    out.push('\n');
                    mode = Mode::Code;
                    proof {
                        assert(out@ + cleaned(chars@, at as int + 1, mode) =~= before + rest);
                    }
                }
                at += 1;
            },
            Mode::BlockComment => {
                if c == '*' && at + 1 < chars.len() && chars[at + 1] == '/' {
                    out.push(' ');
                    mode = Mode::Code;
                    at += 2;
                    proof {
                        assert(out@ + cleaned(chars@, at as int, mode) =~= before + rest);
                    }
                } else {
                    at += 1;
                }
            },
            Mode::Literal(quote) => {
                out.push(c);
                if c == '\\' {
                    if at + 1 < chars.len() {
                        out.push(chars[at + 1]);
                        at += 2;
                        proof {
                            assert(out@ + cleaned(chars@, at as int, mode) =~= before + rest);
                        }
                    } else {
                        at += 1;
                        proof {
                            assert(out@ + cleaned(chars@, at as int, mode) =~= before + rest);
                        }
                    }
                } else if c == quote {
                    mode = Mode::Code;
                    at += 1;
                    proof {
                        assert(out@ + cleaned(chars@, at as int, mode) =~= before + rest);
                    }
                } else {
                    at += 1;
                    proof {
                        assert(out@ + cleaned(chars@, at as int, mode) =~= before + rest);
                    }
                }
            },
        }
    }
    proof {
        assert(out@ + cleaned(chars@, at as int, mode) =~= out@);
    }
    string_from_chars(&out)
}

/// The pattern of a line that declares a module, with the name as its group.
pub open spec fn mod_pattern() -> Seq<char> {
    r"(?m)^\s*(?:pub\s+)?mod\s+([A-Za-z0-9_]+)\b"@
}

/// The pattern of a line that imports a path, with the path as its group.
pub open spec fn use_pattern() -> Seq<char> {
    r"(?m)^\s*(?:pub\s+)?use\s+([A-Za-z0-9_:]+)"@
}

/// The pattern of a line that begins a public item.
pub open spec fn pub_item_pattern() -> Seq<char> {
    r"(?m)^\s*pub\s+(?:fn|struct|enum|type|const|static)\b"@
}

/// The pattern of a public function, anywhere in a line, with the name as
/// its group.
pub open spec fn pub_fn_pattern() -> Seq<char> {
    r"pub\s+fn\s+([A-Za-z0-9_]+)\s*\("@
}

/// The pattern of a line that declares a public struct.
pub open spec fn pub_struct_pattern() -> Seq<char> {
    r"^\s*pub\s+struct\s+([A-Za-z0-9_]+)"@
}

/// The pattern of a line that declares a public enum.
pub open spec fn pub_enum_pattern() -> Seq<char> {
    r"^\s*pub\s+enum\s+([A-Za-z0-9_]+)"@
}

/// The pattern of a line that declares a public type alias, with the alias
/// and what it stands for as its groups.
pub open spec fn pub_type_pattern() -> Seq<char> {
    r"^\s*pub\s+type\s+([A-Za-z0-9_]+)\s*=\s*(.+);?"@
}

/// The pattern of a line that declares a public constant or static, with
/// the name and the type as its groups.
pub open spec fn pub_const_pattern() -> Seq<char> {
    r"^\s*pub\s+(?:const|static)\s+([A-Za-z0-9_]+)\s*:\s*([^=;]+)"@
}

/// The pattern of a line that opens an `impl` block, with the type as its
/// group.
pub open spec fn impl_pattern() -> Seq<char> {
    r"^\s*impl\s+(?:<[^>]*>\s*)?([A-Za-z0-9_:<>::]+)\s*\{"@
}

/// The module that a source text is: named by its first `mod` line, or,
/// where it has none but has a public item or an import, by `stem`, the
/// stem of its file's name. Its imports are the paths of its `use` lines.
/// `None` where the text has none of these, or a pattern does not compile.
pub open spec fn rust_module_of(text: Seq<char>, path: Seq<char>, stem: Seq<char>) -> Option<
    ModuleInfoView,
> {
    if !regex_compiles(mod_pattern()) || !regex_compiles(use_pattern()) || !regex_compiles(
        pub_item_pattern(),
    ) {
        None
    } else {
        let imports = group_texts(regex_all(use_pattern(), text), 1);
        match regex_first(mod_pattern(), text) {
            Some(groups) => match group_of(groups, 1) {
                Some(name) => Some(ModuleInfoView { name, path, imports }),
                None => None,
            },
            None => if regex_first(pub_item_pattern(), text) is Some || regex_first(
                use_pattern(),
                text,
            ) is Some {
                Some(ModuleInfoView { name: stem, path, imports })
            } else {
                None
            },
        }
    }
}

/// `Path::file_stem` on the path, as text: the name of the file without its
/// last ending, or nothing where the path has no file name or it is not
/// Unicode. What counts as a file name lies with the platform, so only this
/// is claimed: the stem is a part of the path.
#[verifier::external_body]
pub(crate) fn path_file_stem(path: &str) -> (r: Option<String>)
    ensures
        r matches Some(stem) ==> contains_seq(path@, stem@),
{
    std::path::Path::new(path).file_stem().and_then(|s| s.to_str()).map(|s| s.to_string())
}

/// The stem of the name of the file at a path, or the empty text where the
/// path has none.
pub(crate) fn file_stem_of(path: &str) -> (r: String)
    ensures
        contains_seq(path@, r@),
{
    match path_file_stem(path) {
        Some(stem) => stem,
        None => {
            let none = String::from_str("");
            proof {
                reveal_strlit("");
                assert(path@.subrange(0int, 0int + none@.len()) =~= none@);
            }
            none
        },
    }
}

/// The module that a source text is, given the stem of its file's name.
pub fn scan_rust_module_with_stem(text: &str, path: &str, stem: &str) -> (r: Option<ModuleInfo>)
    ensures
        match r {
            Some(info) => rust_module_of(text@, path@, stem@) == Some(info@),
            None => rust_module_of(text@, path@, stem@) is None,
        },
{
    let re_mod = regex_new(r"(?m)^\s*(?:pub\s+)?mod\s+([A-Za-z0-9_]+)\b")?;
    let re_use = regex_new(r"(?m)^\s*(?:pub\s+)?use\s+([A-Za-z0-9_:]+)")?;
    let re_pub_item = regex_new(r"(?m)^\s*pub\s+(?:fn|struct|enum|type|const|static)\b")?;
    let name = match regex_captures(&re_mod, text) {
        Some(groups) => group_text(&groups, 1)?,
        None => {
            if regex_is_match(&re_pub_item, text) || regex_is_match(&re_use, text) {
                String::from_str(stem)
            } else {
                return None;
            }
        },
    };
    let matches = regex_captures_iter(&re_use, text);
    let imports = collect_group(&matches, 1);
    assert(texts_view(imports@) =~= imports.deep_view());
    Some(ModuleInfo { name, path: String::from_str(path), imports })
}

/// The module that a source text is. The stem of the file's name, by which
/// a text without a `mod` line is named, is that of the platform's paths.
pub fn scan_rust_module_from_text(text: &str, path: &str) -> (r: Option<ModuleInfo>)
    ensures
        exists|stem: Seq<char>|
            contains_seq(path@, stem) && match r {
                Some(info) => #[trigger] rust_module_of(text@, path@, stem) == Some(info@),
                None => rust_module_of(text@, path@, stem) is None,
            },
{
    let stem = file_stem_of(path);
    let r = scan_rust_module_with_stem(text, path, stem.as_str());
    assert(match r {
        Some(info) => rust_module_of(text@, path@, stem@) == Some(info@),
        None => rust_module_of(text@, path@, stem@) is None,
    });
    r
}

/// What a scan has found up to a line.
pub struct Found {
    /// The symbols found, in the order of the lines.
    pub symbols: Seq<SymbolView>,
    /// The relations found, in the order of the lines.
    pub relations: Seq<RelationView>,
    /// The type of the `impl` block that the scan is in.
    pub current_impl: Option<Seq<char>>,
}

/// The first group of the leftmost match of a pattern in a line.
pub open spec fn first_group(pattern: Seq<char>, line: Seq<char>) -> Option<Seq<char>> {
    match regex_first(pattern, line) {
        Some(groups) => group_of(groups, 1),
        None => None,
    }
}

/// The second group of the leftmost match of a pattern in a line.
pub open spec fn second_group(pattern: Seq<char>, line: Seq<char>) -> Option<Seq<char>> {
    match regex_first(pattern, line) {
        Some(groups) => group_of(groups, 2),
        None => None,
    }
}

/// A symbol that a line exports.
pub open spec fn exported(name: Seq<char>, kind: Seq<char>, line: Seq<char>, number: u32) -> SymbolView {
    SymbolView { name, kind, signature: line, is_exported: true, line: number }
}

/// A reference from a name to a type.
pub open spec fn type_ref(from_name: Seq<char>, to_name: Seq<char>) -> RelationView {
    RelationView { from_name, to_name, kind: "type_ref"@ }
}

/// The `impl` block that a line is in: the one it opens, or else the one
/// the scan was in.
pub open spec fn impl_at(before: Option<Seq<char>>, line: Seq<char>) -> Option<Seq<char>> {
    match first_group(impl_pattern(), line) {
        Some(typ) => Some(typ),
        None => before,
    }
}

/// The symbol of the public function of a line, named with the type of the
/// `impl` block before it where the scan is in one.
pub open spec fn function_symbols(
    current_impl: Option<Seq<char>>,
    line: Seq<char>,
    number: u32,
) -> Seq<SymbolView> {
    match first_group(pub_fn_pattern(), line) {
        Some(name) => seq![
            exported(
                match current_impl {
                    Some(typ) => typ + "::"@ + name,
                    None => name,
                },
                "function"@,
                line,
                number,
            ),
        ],
        None => Seq::empty(),
    }
}

/// The symbol of a line that matches `pattern`, named by the first group
/// and of the kind given.
pub open spec fn plain_symbols(
    pattern: Seq<char>,
    kind: Seq<char>,
    line: Seq<char>,
    number: u32,
) -> Seq<SymbolView> {
    match first_group(pattern, line) {
        Some(name) => seq![exported(name, kind, line, number)],
        None => Seq::empty(),
    }
}

/// The symbol of the public constant of a line.
pub open spec fn constant_symbols(line: Seq<char>, number: u32) -> Seq<SymbolView> {
    match (first_group(pub_const_pattern(), line), second_group(pub_const_pattern(), line)) {
        (Some(name), Some(_)) => seq![exported(name, "constant"@, line, number)],
        _ => Seq::empty(),
    }
}

/// The relation from the type alias of a line to what it stands for.
pub open spec fn alias_relations(line: Seq<char>) -> Seq<RelationView> {
    match first_group(pub_type_pattern(), line) {
        Some(name) => seq![
            type_ref(
                name,
                trimmed(
                    match second_group(pub_type_pattern(), line) {
                        Some(aliased) => aliased,
                        None => Seq::empty(),
                    },
                ),
            ),
        ],
        None => Seq::empty(),
    }
}

/// The relation from the constant of a line to its type.
pub open spec fn constant_relations(line: Seq<char>) -> Seq<RelationView> {
    match (first_group(pub_const_pattern(), line), second_group(pub_const_pattern(), line)) {
        (Some(name), Some(typ)) => seq![type_ref(name, trimmed(typ))],
        _ => Seq::empty(),
    }
}

/// The symbols that a line adds, with the scan in the `impl` block given: a
/// public function, a public struct, a public enum, a public type alias and
/// a public constant, in this order.
pub open spec fn line_symbols(
    current_impl: Option<Seq<char>>,
    line: Seq<char>,
    number: u32,
) -> Seq<SymbolView> {
    function_symbols(current_impl, line, number) + plain_symbols(
        pub_struct_pattern(),
        "struct"@,
        line,
        number,
    ) + plain_symbols(pub_enum_pattern(), "enum"@, line, number) + plain_symbols(
        pub_type_pattern(),
        "type"@,
        line,
        number,
    ) + constant_symbols(line, number)
}

/// The relations that a line adds: from a type alias to what it stands for,
/// and from a constant to its type.
pub open spec fn line_relations(line: Seq<char>) -> Seq<RelationView> {
    alias_relations(line) + constant_relations(line)
}

/// What a scan has found after one more line, which is given without the
/// white space around it and with its number. An empty line changes
/// nothing. A line that holds `}` ends the `impl` block that the scan is in,
/// after what the line exports has been taken.
pub open spec fn after_line(before: Found, line: Seq<char>, number: u32) -> Found {
    if line.len() == 0 {
        before
    } else {
        let current = impl_at(before.current_impl, line);
        Found {
            symbols: before.symbols + line_symbols(current, line, number),
            relations: before.relations + line_relations(line),
            current_impl: if current is Some && contains_seq(line, "}"@) {
                None
            } else {
                current
            },
        }
    }
}

/// The number of the line at `index`, counted from 1 in 32 bits.
pub open spec fn line_number(index: int) -> u32 {
    ((index + 1) % 0x1_0000_0000) as u32
}

/// What a scan has found after the lines given.
pub open spec fn after_lines(lines: Seq<Seq<char>>) -> Found
    decreases lines.len(),
{
    if lines.len() == 0 {
        Found { symbols: Seq::empty(), relations: Seq::empty(), current_impl: None }
    } else {
        after_line(
            after_lines(lines.drop_last()),
            trimmed(lines.last()),
            line_number(lines.len() - 1),
        )
    }
}

/// Whether the patterns of the line scan compile.
pub open spec fn line_patterns_compile() -> bool {
    &&& regex_compiles(pub_fn_pattern())
    &&& regex_compiles(pub_struct_pattern())
    &&& regex_compiles(pub_enum_pattern())
    &&& regex_compiles(pub_type_pattern())
    &&& regex_compiles(pub_const_pattern())
    &&& regex_compiles(impl_pattern())
}

/// What the analysis of a source text yields: nothing where the text is no
/// module, and else the module with the symbols and relations that the lines
/// of the text export, the text taken without its comments.
pub open spec fn rust_analysis_of(text: Seq<char>, path: Seq<char>, stem: Seq<char>) -> Option<
    ModuleAnalysisView,
> {
    match rust_module_of(text, path, stem) {
        None => None,
        Some(info) => {
            let found = after_lines(lines_of(cleaned(text, 0, Mode::Code)));
            Some(ModuleAnalysisView { info, symbols: found.symbols, relations: found.relations })
        },
    }
}

/// Why a source text could not be analysed.
#[derive(Debug)]
pub enum ScanError {
    /// A pattern of the scan was not accepted by the pattern compiler.
    Pattern,
}

/// The compiled patterns of the line scan. They are made by
/// [`LinePatterns::new`] alone, so each is compiled from its pattern without
/// options.
pub struct LinePatterns {
    pub_fn: regex::Regex,
    pub_struct: regex::Regex,
    pub_enum: regex::Regex,
    pub_type: regex::Regex,
    pub_const: regex::Regex,
    impl_start: regex::Regex,
}

impl LinePatterns {
    /// Each expression is compiled from its pattern.
    pub closed spec fn well_formed(&self) -> bool {
        &&& regex_source(self.pub_fn) == pub_fn_pattern()
        &&& regex_source(self.pub_struct) == pub_struct_pattern()
        &&& regex_source(self.pub_enum) == pub_enum_pattern()
        &&& regex_source(self.pub_type) == pub_type_pattern()
        &&& regex_source(self.pub_const) == pub_const_pattern()
        &&& regex_source(self.impl_start) == impl_pattern()
    }

    /// The patterns, compiled.
    pub fn new() -> (r: Option<LinePatterns>)
        ensures
            r is Some == line_patterns_compile(),
            r matches Some(patterns) ==> patterns.well_formed(),
    {
        let pub_fn = regex_new(r"pub\s+fn\s+([A-Za-z0-9_]+)\s*\(")?;
        let pub_struct = regex_new(r"^\s*pub\s+struct\s+([A-Za-z0-9_]+)")?;
        let pub_enum = regex_new(r"^\s*pub\s+enum\s+([A-Za-z0-9_]+)")?;
        let pub_type = regex_new(r"^\s*pub\s+type\s+([A-Za-z0-9_]+)\s*=\s*(.+);?")?;
        let pub_const = regex_new(r"^\s*pub\s+(?:const|static)\s+([A-Za-z0-9_]+)\s*:\s*([^=;]+)")?;
        let impl_start = regex_new(r"^\s*impl\s+(?:<[^>]*>\s*)?([A-Za-z0-9_:<>::]+)\s*\{")?;
        Some(LinePatterns { pub_fn, pub_struct, pub_enum, pub_type, pub_const, impl_start })
    }

    /// The first two groups of the leftmost match of an expression in a line.
    fn groups(re: &regex::Regex, line: &str) -> (r: (Option<String>, Option<String>))
        ensures
            r.0.deep_view() == first_group(regex_source(*re), line@),
            r.1.deep_view() == second_group(regex_source(*re), line@),
    {
        match regex_captures(re, line) {
            Some(groups) => (group_text(&groups, 1), group_text(&groups, 2)),
            None => (None, None),
        }
    }
}

/// A symbol that a line exports.
fn export(name: String, kind: &str, line: &str, number: u32) -> (r: Symbol)
    ensures
        r@ == exported(name@, kind@, line@, number),
{
    Symbol {
        name,
        kind: String::from_str(kind),
        signature: String::from_str(line),
        is_exported: true,
        line: number,
    }
}

/// Takes the public function of a line into a scan.
fn take_function(
    re: &regex::Regex,
    symbols: &mut Vec<Symbol>,
    current_impl: &Option<String>,
    line: &str,
    number: u32,
)
    requires
        regex_source(*re) == pub_fn_pattern(),
    ensures
        symbols_view(final(symbols)@) == symbols_view(old(symbols)@) + function_symbols(
            current_impl.deep_view(),
            line@,
            number,
        ),
{
    let ghost before = symbols_view(symbols@);
    let (function, _) = LinePatterns::groups(re, line);
    match function {
        Some(name) => {
            let full = match current_impl {
                Some(typ) => {
                    let mut full = concat2(typ.as_str(), "::");
                    full.append(name.as_str());
                    full
                },
                None => name,
            };
            let symbol = export(full, "function", line, number);
            symbols.push(symbol);
            assert(symbols_view(symbols@) =~= before + seq![symbol@]);
        },
        None => {
            assert(symbols_view(symbols@) =~= before + Seq::<SymbolView>::empty());
        },
    }
}

/// Takes the symbol of a line that matches an expression into a scan.
fn take_plain(re: &regex::Regex, symbols: &mut Vec<Symbol>, kind: &str, line: &str, number: u32)
    ensures
        symbols_view(final(symbols)@) == symbols_view(old(symbols)@) + plain_symbols(
            regex_source(*re),
            kind@,
            line@,
            number,
        ),
{
    let ghost before = symbols_view(symbols@);
    let (found, _) = LinePatterns::groups(re, line);
    match found {
        Some(name) => {
            let symbol = export(name, kind, line, number);
            symbols.push(symbol);
            assert(symbols_view(symbols@) =~= before + seq![symbol@]);
        },
        None => {
            assert(symbols_view(symbols@) =~= before + Seq::<SymbolView>::empty());
        },
    }
}

/// Takes the relation of the type alias of a line into a scan.
fn take_alias(re: &regex::Regex, relations: &mut Vec<Relation>, line: &str)
    requires
        regex_source(*re) == pub_type_pattern(),
    ensures
        relations_view(final(relations)@) == relations_view(old(relations)@) + alias_relations(
            line@,
        ),
{
    let ghost before = relations_view(relations@);
    let (alias, aliased) = LinePatterns::groups(re, line);
    match alias {
        Some(name) => {
            let target = match &aliased {
                Some(aliased) => String::from_str(str_trim(aliased.as_str())),
                None => String::from_str(str_trim("")),
            };
            let relation = Relation {
                from_name: name,
                to_name: target,
                kind: String::from_str("type_ref"),
            };
            relations.push(relation);
            proof {
                reveal_strlit("");
                assert(""@ =~= Seq::<char>::empty());
                assert(relations_view(relations@) =~= before + seq![relation@]);
            }
        },
        None => {
            assert(relations_view(relations@) =~= before + Seq::<RelationView>::empty());
        },
    }
}

/// Takes the public constant of a line into a scan, with the relation to
/// its type.
fn take_constant(
    re: &regex::Regex,
    symbols: &mut Vec<Symbol>,
    relations: &mut Vec<Relation>,
    line: &str,
    number: u32,
)
    requires
        regex_source(*re) == pub_const_pattern(),
    ensures
        symbols_view(final(symbols)@) == symbols_view(old(symbols)@) + constant_symbols(
            line@,
            number,
        ),
        relations_view(final(relations)@) == relations_view(old(relations)@) + constant_relations(
            line@,
        ),
{
    let ghost symbols_before = symbols_view(symbols@);
    let ghost relations_before = relations_view(relations@);
    let (constant, typ) = LinePatterns::groups(re, line);
    match (constant, typ) {
        (Some(name), Some(typ)) => {
            let relation = Relation {
                from_name: name.clone(),
                to_name: String::from_str(str_trim(typ.as_str())),
                kind: String::from_str("type_ref"),
            };
            let symbol = export(name, "constant", line, number);
            symbols.push(symbol);
            relations.push(relation);
            proof {
                assert(symbols_view(symbols@) =~= symbols_before + seq![symbol@]);
                assert(relations_view(relations@) =~= relations_before + seq![relation@]);
            }
        },
        _ => {
            assert(symbols_view(symbols@) =~= symbols_before + Seq::<SymbolView>::empty());
            assert(relations_view(relations@) =~= relations_before + Seq::<RelationView>::empty());
        },
    }
}

/// Takes one more line into a scan.
#[verifier::rlimit(40)]
pub fn scan_line(
    patterns: &LinePatterns,
    symbols: &mut Vec<Symbol>,
    relations: &mut Vec<Relation>,
    current_impl: &mut Option<String>,
    line: &str,
    number: u32,
)
    requires
        patterns.well_formed(),
    ensures
        (Found {
            symbols: symbols_view(final(symbols)@),
            relations: relations_view(final(relations)@),
            current_impl: final(current_impl).deep_view(),
        }) == after_line(
            Found {
                symbols: symbols_view(old(symbols)@),
                relations: relations_view(old(relations)@),
                current_impl: old(current_impl).deep_view(),
            },
            line@,
            number,
        ),
{
    if line.unicode_len() == 0 {
        return ;
    }
    let ghost symbols_before = symbols_view(symbols@);
    let ghost relations_before = relations_view(relations@);
    let (opened, _) = LinePatterns::groups(&patterns.impl_start, line);
    match opened {
        Some(typ) => {
            *current_impl = Some(typ);
        },
        None => {},
    }
    let ghost current = current_impl.deep_view();
    let ghost functions = function_symbols(current, line@, number);
    let ghost structs = plain_symbols(pub_struct_pattern(), "struct"@, line@, number);
    let ghost enums = plain_symbols(pub_enum_pattern(), "enum"@, line@, number);
    let ghost types = plain_symbols(pub_type_pattern(), "type"@, line@, number);
    let ghost constants = constant_symbols(line@, number);
    take_function(&patterns.pub_fn, symbols, current_impl, line, number);
    take_plain(&patterns.pub_struct, symbols, "struct", line, number);
    proof {
        assert(symbols_view(symbols@) =~= symbols_before + (functions + structs));
    }
    take_plain(&patterns.pub_enum, symbols, "enum", line, number);
    proof {
        assert(symbols_view(symbols@) =~= symbols_before + (functions + structs + enums));
    }
    take_plain(&patterns.pub_type, symbols, "type", line, number);
    proof {
        assert(symbols_view(symbols@) =~= symbols_before + (functions + structs + enums + types));
    }
    take_alias(&patterns.pub_type, relations, line);
    take_constant(&patterns.pub_const, symbols, relations, line, number);
    proof {
        assert(symbols_view(symbols@) =~= symbols_before + (functions + structs + enums + types
            + constants));
        assert(relations_view(relations@) =~= relations_before + (alias_relations(line@)
            + constant_relations(line@)));
    }
    if current_impl.is_some() && str_contains(line, "}") {
        *current_impl = None;
    }
}

/// The analysis of a source text, given the stem of its file's name.
pub fn analyze_rust_module_with_stem(text: &str, path: &str, stem: &str) -> (r: Result<
    Option<ModuleAnalysis>,
    ScanError,
>)
    ensures
        match r {
            Ok(Some(analysis)) => rust_analysis_of(text@, path@, stem@) == Some(analysis@),
            Ok(None) => rust_analysis_of(text@, path@, stem@) is None,
            Err(_) => rust_module_of(text@, path@, stem@) is Some && !line_patterns_compile(),
        },
{
    let info = match scan_rust_module_with_stem(text, path, stem) {
        Some(info) => info,
        None => {
            return Ok(None);
        },
    };
    let clean = remove_comments_and_strings(text);
    let patterns = match LinePatterns::new() {
        Some(patterns) => patterns,
        None => {
            return Err(ScanError::Pattern);
        },
    };
    let lines = str_lines(clean.as_str());
    let ghost all = lines.deep_view();
    let mut symbols: Vec<Symbol> = Vec::new();
    let mut relations: Vec<Relation> = Vec::new();
    let mut current_impl: Option<String> = None;
    let mut i: usize = 0;
    proof {
        assert(all.take(0) =~= Seq::empty());
        assert(symbols_view(symbols@) =~= Seq::empty());
        assert(relations_view(relations@) =~= Seq::empty());
    }
    while i < lines.len()
        invariant
            i <= lines.len(),
            patterns.well_formed(),
            all == lines.deep_view(),
            (Found {
                symbols: symbols_view(symbols@),
                relations: relations_view(relations@),
                current_impl: current_impl.deep_view(),
            }) == after_lines(all.take(i as int)),
        decreases lines.len() - i,
    {
        proof {
            assert(all.take(i as int + 1).drop_last() =~= all.take(i as int));
            assert(all.take(i as int + 1).last() == lines@[i as int]@);
        }
        let number = #[verifier::truncate] ((i as u64 + 1) as u32);
        proof {
            assert(number == line_number(i as int)) by (bit_vector)
                requires
                    number == ((i as u64 + 1) as u32),
                    i as u64 + 1 <= 0xffff_ffff_ffff_ffff,
            ;
        }
        scan_line(
            &patterns,
            &mut symbols,
            &mut relations,
            &mut current_impl,
            str_trim(lines[i].as_str()),
            number,
        );
        i += 1;
    }
    proof {
        assert(all.take(i as int) =~= all);
    }
    Ok(Some(ModuleAnalysis { info, symbols, relations }))
}

/// The analysis of a source text. The stem of the file's name, by which a
/// text without a `mod` line is named, is that of the platform's paths.
pub fn analyze_rust_module_from_text(text: &str, path: &str) -> (r: Result<
    Option<ModuleAnalysis>,
    ScanError,
>)
    ensures
        exists|stem: Seq<char>|
            contains_seq(path@, stem) && match r {
                Ok(Some(analysis)) => #[trigger] rust_analysis_of(text@, path@, stem) == Some(
                    analysis@,
                ),
                Ok(None) => rust_analysis_of(text@, path@, stem) is None,
                Err(_) => rust_analysis_of(text@, path@, stem) is Some && !line_patterns_compile(),
            },
{
    let stem = file_stem_of(path);
    let r = analyze_rust_module_with_stem(text, path, stem.as_str());
    assert(match r {
        Ok(Some(analysis)) => rust_analysis_of(text@, path@, stem@) == Some(analysis@),
        Ok(None) => rust_analysis_of(text@, path@, stem@) is None,
        Err(_) => rust_analysis_of(text@, path@, stem@) is Some && !line_patterns_compile(),
    });
    r
}

} // verus!
