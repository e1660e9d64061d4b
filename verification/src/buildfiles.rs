//! Reading build files: the compiler commands in the output of a dry run of
//! Make, the sources and settings of a Visual Studio project, and the
//! projects of a Visual Studio solution.
//!
//! A source that a build file names is resolved against its directory by
//! the platform's rules for paths, so the file of an entry is what the
//! platform answered; of the commands of Make only those for C, C++ and
//! Objective-C sources are kept, by the ending of the resolved path.

use vstd::prelude::*;
use vstd::string::*;
use crate::discovery::{texts, CompileCommandEntry};
use crate::pattern::{
    collect_group, group_of, group_text, group_texts, matches_view, regex_all, regex_captures,
    regex_captures_iter, regex_compiles, regex_first, regex_new, regex_source,
};
use crate::text::{
    concat2, contains_seq, lines_of, lowercase, pieces, replace_all, replaced, split_all, starts_with_seq,
    str_eq, str_lines, str_starts_with, str_to_lowercase, str_to_uppercase, str_trim, trimmed,
    uppercase,
};

verus! {

/// The mathematical value of a [`CompileCommandEntry`].
pub struct EntryView {
    pub directory: Seq<char>,
    pub file: Seq<char>,
    pub command: Option<Seq<char>>,
    pub arguments: Option<Seq<Seq<char>>>,
}

/// The value of an entry.
pub open spec fn entry_view(entry: CompileCommandEntry) -> EntryView {
    EntryView {
        directory: entry.directory@,
        file: entry.file@,
        command: entry.command.deep_view(),
        arguments: match entry.arguments {
            Some(arguments) => Some(texts(arguments@)),
            None => None,
        },
    }
}

/// The values of a list of entries.
pub open spec fn entries_view(entries: Seq<CompileCommandEntry>) -> Seq<EntryView> {
    Seq::new(entries.len(), |i: int| entry_view(entries[i]))
}

/// The pattern of a compiler command that compiles one source, with the
/// source as its group.
pub open spec fn compile_pattern() -> Seq<char> {
    r"(?:gcc|g\+\+|clang|clang\+\+|cc|c\+\+|cl|cl\.exe)\s+.*\s+-c\s+(\S+)"@
}

/// The pattern of the line by which Make says that it enters a directory,
/// with the directory as its group.
pub open spec fn entering_pattern() -> Seq<char> {
    r#"make\[\d+\]: Entering directory ['"](.+)['"]"#@
}

/// Where a reading of Make's output stands: the directory that Make is in,
/// and the compiler commands read.
pub struct MakeScan {
    pub directory: Seq<char>,
    pub entries: Seq<EntryView>,
}

/// A reading of Make's output after one more line. A line by which Make
/// enters a directory changes the directory and nothing else. Any other
/// line that holds a compiler command adds an entry for the source that the
/// command names, with the directory that Make is in and the line, without
/// the white space around it, as the command.
pub open spec fn after_make_line(before: MakeScan, line: Seq<char>) -> MakeScan {
    match regex_first(entering_pattern(), line) {
        Some(groups) => MakeScan {
            directory: match group_of(groups, 1) {
                Some(directory) => directory,
                None => before.directory,
            },
            entries: before.entries,
        },
        None => match regex_first(compile_pattern(), line) {
            Some(groups) => match group_of(groups, 1) {
                Some(source) => MakeScan {
                    directory: before.directory,
                    entries: before.entries.push(
                        EntryView {
                            directory: before.directory,
                            file: source,
                            command: Some(trimmed(line)),
                            arguments: None,
                        },
                    ),
                },
                None => before,
            },
            None => before,
        },
    }
}

/// A reading of Make's output after the lines given, begun in `directory`.
pub open spec fn after_make_lines(directory: Seq<char>, lines: Seq<Seq<char>>) -> MakeScan
    decreases lines.len(),
{
    if lines.len() == 0 {
        MakeScan { directory, entries: Seq::empty() }
    } else {
        after_make_line(after_make_lines(directory, lines.drop_last()), lines.last())
    }
}

/// What the platform answered for the source of a command: the path of the
/// source resolved against the directory, and the ending of that path's
/// file name where it has one.
pub struct PathAnswer {
    pub resolved: Seq<char>,
    pub ending: Option<Seq<char>>,
}

/// Whether a file ending in lower case is that of a C, C++ or Objective-C
/// source.
pub open spec fn is_source(ending: Seq<char>) -> bool {
    ending == "c"@ || ending == "cc"@ || ending == "cpp"@ || ending == "cxx"@ || ending == "c++"@
        || ending == "m"@ || ending == "mm"@
}

/// The entry that is kept of a command: the command with the resolved path
/// as its file, where that path ends as a source does, whatever the case of
/// the ending's letters.
pub open spec fn kept_source(entry: EntryView, answer: PathAnswer) -> Option<EntryView> {
    match answer.ending {
        Some(ending) => if is_source(lowercase(ending)) {
            Some(EntryView { file: answer.resolved, ..entry })
        } else {
            None
        },
        None => None,
    }
}

/// The entries that are kept of the commands, in their order, given what the
/// platform answered for each.
pub open spec fn kept_sources(entries: Seq<EntryView>, answers: Seq<PathAnswer>) -> Seq<EntryView>
    decreases entries.len(),
{
    if entries.len() == 0 || answers.len() != entries.len() {
        Seq::empty()
    } else {
        let rest = kept_sources(entries.drop_last(), answers.drop_last());
        match kept_source(entries.last(), answers.last()) {
            Some(kept) => rest.push(kept),
            None => rest,
        }
    }
}

/// Whether each ending is a part of its resolved path.
pub open spec fn answers_fit(answers: Seq<PathAnswer>) -> bool {
    forall|i: int|
        0 <= i < answers.len() ==> ((#[trigger] answers[i]).ending matches Some(ending)
            ==> contains_seq(answers[i].resolved, ending))
}

/// `Path::join` on the directory, written as text by `to_string_lossy`: the
/// path of the file resolved against the directory. How paths are joined,
/// and which paths stand for themselves, lies with the platform, so nothing
/// is claimed of the result.
#[verifier::external_body]
pub(crate) fn path_join(directory: &str, file: &str) -> (r: String) {
    std::path::Path::new(directory).join(file).to_string_lossy().to_string()
}

/// `Path::extension` on the path, as text: the ending of the path's file
/// name, without the dot, or nothing where the file name has none. What
/// counts as the file name lies with the platform, so only this is claimed:
/// the ending is a part of the path.
#[verifier::external_body]
pub(crate) fn path_ending(path: &str) -> (r: Option<String>)
    ensures
        r matches Some(ending) ==> contains_seq(path@, ending@),
{
    std::path::Path::new(path).extension().and_then(|e| e.to_str()).map(|e| e.to_string())
}

/// Keeps a command where the resolved path of its source ends as a source
/// does, with that path as the entry's file.
pub fn keep_source(entry: CompileCommandEntry, resolved: &str, ending: Option<&str>) -> (r: Option<
    CompileCommandEntry,
>)
    ensures
        r.is_some() == (ending matches Some(e) && is_source(lowercase(e@))),
        match r {
            Some(kept) => kept_source(
                entry_view(entry),
                (PathAnswer { resolved: resolved@, ending: crate::database::text_of(ending) }),
            ) == Some(entry_view(kept)),
            None => kept_source(
                entry_view(entry),
                (PathAnswer { resolved: resolved@, ending: crate::database::text_of(ending) }),
            ) is None,
        },
{
    match ending {
        Some(ending) => {
            let lower = str_to_lowercase(ending);
            if is_source_extension(lower.as_str()) {
                let CompileCommandEntry { directory, file: _, command, arguments } = entry;
                Some(CompileCommandEntry { directory, file: String::from_str(resolved), command, arguments })
            } else {
                None
            }
        },
        None => None,
    }
}

/// Why a build file could not be read.
#[derive(Debug, PartialEq, Eq)]
pub enum BuildFileError {
    /// A pattern of the reading was not accepted by the pattern compiler.
    Pattern,
}

/// The compiler commands for sources in the output of a dry run of Make,
/// begun in `working_dir`, in the order of the output. The file of an entry
/// is the source that the command names, resolved against the directory
/// that Make is in; a command is kept where that path ends as a C, C++ or
/// Objective-C source does.
pub fn parse_make_dry_run(output: &str, working_dir: &str) -> (r: Result<
    Vec<CompileCommandEntry>,
    BuildFileError,
>)
    ensures
        match r {
            Ok(entries) => exists|answers: Seq<PathAnswer>|
                {
                    &&& answers.len() == after_make_lines(
                        working_dir@,
                        lines_of(output@),
                    ).entries.len()
                    &&& answers_fit(answers)
                    &&& entries_view(entries@) == #[trigger] kept_sources(
                        after_make_lines(working_dir@, lines_of(output@)).entries,
                        answers,
                    )
                },
            Err(_) => !regex_compiles(compile_pattern()) || !regex_compiles(entering_pattern()),
        },
{
    let compile_re = match regex_new(
        r"(?:gcc|g\+\+|clang|clang\+\+|cc|c\+\+|cl|cl\.exe)\s+.*\s+-c\s+(\S+)",
    ) {
        Some(re) => re,
        None => {
            return Err(BuildFileError::Pattern);
        },
    };
    let dir_re = match regex_new(r#"make\[\d+\]: Entering directory ['"](.+)['"]"#) {
        Some(re) => re,
        None => {
            return Err(BuildFileError::Pattern);
        },
    };
    let lines = str_lines(output);
    let ghost all = lines.deep_view();
    let mut entries: Vec<CompileCommandEntry> = Vec::new();
    let mut directory = String::from_str(working_dir);
    let ghost mut named: Seq<EntryView> = Seq::empty();
    let ghost mut answers: Seq<PathAnswer> = Seq::empty();
    let mut i: usize = 0;
    proof {
        assert(all.take(0) =~= Seq::empty());
        assert(entries_view(entries@) =~= Seq::empty());
    }
    while i < lines.len()
        invariant
            i <= lines.len(),
            all == lines.deep_view(),
            regex_source(compile_re) == compile_pattern(),
            regex_source(dir_re) == entering_pattern(),
            (MakeScan { directory: directory@, entries: named }) == after_make_lines(
                working_dir@,
                all.take(i as int),
            ),
            answers.len() == named.len(),
            answers_fit(answers),
            entries_view(entries@) == kept_sources(named, answers),
        decreases lines.len() - i,
    {
        let ghost before = entries_view(entries@);
        proof {
            assert(all.take(i as int + 1).drop_last() =~= all.take(i as int));
            assert(all.take(i as int + 1).last() == lines@[i as int]@);
        }
        let line = lines[i].as_str();
        match regex_captures(&dir_re, line) {
            Some(groups) => {
                match group_text(&groups, 1) {
                    Some(entered) => {
                        directory = entered;
                    },
                    None => {},
                }
            },
            None => {
                match regex_captures(&compile_re, line) {
                    Some(groups) => {
                        match group_text(&groups, 1) {
                            Some(source) => {
                                let resolved = path_join(directory.as_str(), source.as_str());
                                let ending = path_ending(resolved.as_str());
                                let entry = CompileCommandEntry {
                                    directory: directory.clone(),
                                    file: source,
                                    command: Some(String::from_str(str_trim(line))),
                                    arguments: None,
                                };
                                let ghost answer = PathAnswer {
                                    resolved: resolved@,
                                    ending: ending.deep_view(),
                                };
                                let ghost earlier = named;
                                let ghost answered = answers;
                                proof {
                                    named = named.push(entry_view(entry));
                                    answers = answers.push(answer);
                                    assert(named.drop_last() =~= earlier);
                                    assert(answers.drop_last() =~= answered);
                                }
                                let kept = keep_source(
                                    entry,
                                    resolved.as_str(),
                                    crate::ingest::borrowed(&ending),
                                );
                                match kept {
                                    Some(kept) => {
                                        entries.push(kept);
                                        proof {
                                            assert(entries_view(entries@) =~= before.push(
                                                entry_view(kept),
                                            ));
                                        }
                                    },
                                    None => {},
                                }
                            },
                            None => {},
                        }
                    },
                    None => {},
                }
            },
        }
        i += 1;
    }
    proof {
        assert(all.take(i as int) =~= all);
        assert(entries_view(entries@) == kept_sources(
            after_make_lines(working_dir@, lines_of(output@)).entries,
            answers,
        ));
    }
    Ok(entries)
}

/// Whether a file ending in lower case is that of a C, C++ or Objective-C
/// source.
pub fn is_source_extension(ending: &str) -> (r: bool)
    ensures
        r == is_source(ending@),
{
    str_eq(ending, "c") || str_eq(ending, "cc") || str_eq(ending, "cpp") || str_eq(ending, "cxx")
        || str_eq(ending, "c++") || str_eq(ending, "m") || str_eq(ending, "mm")
}

/// The pattern of a source of a Visual Studio project, with the path as its
/// group.
pub open spec fn cl_compile_pattern() -> Seq<char> {
    r#"<ClCompile\s+Include="([^"]+)""#@
}

/// The pattern of the include directories of a Visual Studio project.
pub open spec fn include_pattern() -> Seq<char> {
    r#"<AdditionalIncludeDirectories>([^<]+)</AdditionalIncludeDirectories>"#@
}

/// The pattern of the preprocessor definitions of a Visual Studio project.
pub open spec fn define_pattern() -> Seq<char> {
    r#"<PreprocessorDefinitions>([^<]+)</PreprocessorDefinitions>"#@
}

/// The pattern of a project of a Visual Studio solution, with the path of
/// the project file as its group.
pub open spec fn project_pattern() -> Seq<char> {
    r#"Project\([^)]+\)\s*=\s*"[^"]+",\s*"([^"]+\.vcxproj)""#@
}

/// An item of a list of settings as a flag takes it: with the project
/// directory in place of `$(ProjectDir)` where a directory is given.
pub open spec fn flag_item(item: Seq<char>, project_dir: Option<Seq<char>>) -> Seq<char> {
    match project_dir {
        Some(directory) => replaced(item, "$(ProjectDir)"@, directory),
        None => item,
    }
}

/// The flags that one list of settings gives: for each of its items between
/// semicolons that is not empty and is no reference to inherited settings,
/// which begins with `%`, the flag `prefix` and the item.
pub open spec fn flags_of_items(
    items: Seq<Seq<char>>,
    prefix: Seq<char>,
    project_dir: Option<Seq<char>>,
) -> Seq<Seq<char>>
    decreases items.len(),
{
    if items.len() == 0 {
        Seq::empty()
    } else {
        let rest = flags_of_items(items.drop_last(), prefix, project_dir);
        let item = items.last();
        if item.len() > 0 && !starts_with_seq(item, "%"@) {
            rest.push(prefix + flag_item(item, project_dir))
        } else {
            rest
        }
    }
}

/// The flags that the lists of settings give, list after list.
pub open spec fn flags_of_lists(
    lists: Seq<Seq<char>>,
    prefix: Seq<char>,
    project_dir: Option<Seq<char>>,
) -> Seq<Seq<char>>
    decreases lists.len(),
{
    if lists.len() == 0 {
        Seq::empty()
    } else {
        flags_of_lists(lists.drop_last(), prefix, project_dir) + flags_of_items(
            pieces(lists.last(), ";"@),
            prefix,
            project_dir,
        )
    }
}

/// The arguments that every source of a Visual Studio project is compiled
/// with: the compiler, the definition of the configuration in upper case,
/// the include directories, with the project directory in place of
/// `$(ProjectDir)`, the preprocessor definitions, and `-c`.
pub open spec fn base_arguments(
    content: Seq<char>,
    project_dir: Seq<char>,
    configuration: Seq<char>,
) -> Seq<Seq<char>> {
    seq!["clang-cl"@, "/D_"@ + uppercase(configuration)] + flags_of_lists(
        group_texts(regex_all(include_pattern(), content), 1),
        "-I"@,
        Some(project_dir),
    ) + flags_of_lists(
        group_texts(regex_all(define_pattern(), content), 1),
        "-D"@,
        None,
    ) + seq!["-c"@]
}

/// The entry of a source of a Visual Studio project.
pub open spec fn source_entry(
    base: Seq<Seq<char>>,
    project_dir: Seq<char>,
    source: Seq<char>,
) -> EntryView {
    EntryView {
        directory: project_dir,
        file: source,
        command: None,
        arguments: Some(base.push(source)),
    }
}

/// The sources that a Visual Studio project names, in the order of the
/// file.
pub open spec fn project_sources(content: Seq<char>) -> Seq<Seq<char>> {
    group_texts(regex_all(cl_compile_pattern(), content), 1)
}

/// The entries of the sources of a Visual Studio project, one for each
/// source in the order of the file, given the path that each source
/// resolves to.
pub open spec fn project_entries(
    content: Seq<char>,
    project_dir: Seq<char>,
    configuration: Seq<char>,
    resolved: Seq<Seq<char>>,
) -> Seq<EntryView> {
    let base = base_arguments(content, project_dir, configuration);
    Seq::new(resolved.len(), |i: int| source_entry(base, project_dir, resolved[i]))
}

/// Whether the patterns for a Visual Studio project compile.
pub open spec fn project_patterns_compile() -> bool {
    regex_compiles(cl_compile_pattern()) && regex_compiles(include_pattern()) && regex_compiles(
        define_pattern(),
    )
}

/// Adds the flags of the lists of settings to the arguments.
fn add_flags(
    arguments: &mut Vec<String>,
    lists: &Vec<String>,
    prefix: &str,
    project_dir: Option<&str>,
)
    ensures
        texts(final(arguments)@) == texts(old(arguments)@) + flags_of_lists(
            lists.deep_view(),
            prefix@,
            crate::database::text_of(project_dir),
        ),
{
    proof {
        reveal_strlit("$(ProjectDir)");
        reveal_strlit(";");
    }
    let ghost start = texts(arguments@);
    let ghost all = lists.deep_view();
    let ghost place = crate::database::text_of(project_dir);
    let mut i: usize = 0;
    proof {
        assert(all.take(0) =~= Seq::empty());
        assert(texts(arguments@) =~= start + Seq::<Seq<char>>::empty());
    }
    while i < lists.len()
        invariant
            i <= lists.len(),
            "$(ProjectDir)"@.len() > 0,
            ";"@.len() > 0,
            place == crate::database::text_of(project_dir),
            all == lists.deep_view(),
            texts(arguments@) == start + flags_of_lists(all.take(i as int), prefix@, place),
        decreases lists.len() - i,
    {
        proof {
            assert(all.take(i as int + 1).drop_last() =~= all.take(i as int));
            assert(all.take(i as int + 1).last() == lists@[i as int]@);
        }
        let ghost before_list = texts(arguments@);
        let items = split_all(lists[i].as_str(), ";");
        let ghost shown = items.deep_view();
        let mut n: usize = 0;
        proof {
            assert(shown.take(0) =~= Seq::empty());
            assert(texts(arguments@) =~= before_list + Seq::<Seq<char>>::empty());
        }
        while n < items.len()
            invariant
                n <= items.len(),
                "$(ProjectDir)"@.len() > 0,
                place == crate::database::text_of(project_dir),
                shown == items.deep_view(),
                texts(arguments@) == before_list + flags_of_items(
                    shown.take(n as int),
                    prefix@,
                    place,
                ),
            decreases items.len() - n,
        {
            let ghost before_item = texts(arguments@);
            proof {
                assert(shown.take(n as int + 1).drop_last() =~= shown.take(n as int));
                assert(shown.take(n as int + 1).last() == items@[n as int]@);
            }
            let item = items[n].as_str();
            if item.unicode_len() > 0 && !str_starts_with(item, "%") {
                let flag = match project_dir {
                    Some(directory) => concat2(
                        prefix,
                        replace_all(item, "$(ProjectDir)", directory).as_str(),
                    ),
                    None => concat2(prefix, item),
                };
                arguments.push(flag);
                proof {
                    assert(texts(arguments@) =~= before_item.push(flag@));
                    assert(texts(arguments@) =~= before_list + flags_of_items(
                        shown.take(n as int + 1),
                        prefix@,
                        place,
                    ));
                }
            }
            n += 1;
        }
        proof {
            assert(shown.take(n as int) =~= shown);
            assert(texts(arguments@) =~= start + flags_of_lists(
                all.take(i as int + 1),
                prefix@,
                place,
            ));
        }
        i += 1;
    }
    proof {
        assert(all.take(i as int) =~= all);
    }
}

/// The entry of a source of a Visual Studio project, given the arguments
/// that every source is compiled with and the path that the source resolves
/// to: the path is the entry's file and the last of its arguments.
pub fn project_source_entry(base: &Vec<String>, project_dir: &str, resolved: &str) -> (r:
    CompileCommandEntry)
    ensures
        entry_view(r) == source_entry(texts(base@), project_dir@, resolved@),
{
    let mut arguments: Vec<String> = Vec::new();
    let mut n: usize = 0;
    while n < base.len()
        invariant
            n <= base.len(),
            arguments@.len() == n,
            forall|k: int| 0 <= k < n ==> (#[trigger] arguments@[k])@ == base@[k]@,
        decreases base.len() - n,
    {
        arguments.push(base[n].clone());
        n += 1;
    }
    arguments.push(String::from_str(resolved));
    proof {
        assert(texts(arguments@) =~= texts(base@).push(resolved@));
    }
    CompileCommandEntry {
        directory: String::from_str(project_dir),
        file: String::from_str(resolved),
        command: None,
        arguments: Some(arguments),
    }
}

/// The entries of the sources of a Visual Studio project, in the order of
/// the file. The file of an entry, which is also the last of its arguments,
/// is the source that the project names, resolved against the project
/// directory.
pub fn parse_vcxproj(content: &str, project_dir: &str, configuration: &str, _platform: &str) -> (r:
    Result<Vec<CompileCommandEntry>, BuildFileError>)
    ensures
        match r {
            Ok(entries) => exists|resolved: Seq<Seq<char>>|
                resolved.len() == project_sources(content@).len() && entries_view(entries@)
                    == #[trigger] project_entries(
                    content@,
                    project_dir@,
                    configuration@,
                    resolved,
                ),
            Err(_) => !project_patterns_compile(),
        },
{
    let compile_re = match regex_new(r#"<ClCompile\s+Include="([^"]+)""#) {
        Some(re) => re,
        None => {
            return Err(BuildFileError::Pattern);
        },
    };
    let include_re = match regex_new(
        r#"<AdditionalIncludeDirectories>([^<]+)</AdditionalIncludeDirectories>"#,
    ) {
        Some(re) => re,
        None => {
            return Err(BuildFileError::Pattern);
        },
    };
    let define_re = match regex_new(
        r#"<PreprocessorDefinitions>([^<]+)</PreprocessorDefinitions>"#,
    ) {
        Some(re) => re,
        None => {
            return Err(BuildFileError::Pattern);
        },
    };
    let includes = collect_group(&regex_captures_iter(&include_re, content), 1);
    let defines = collect_group(&regex_captures_iter(&define_re, content), 1);
    let sources = collect_group(&regex_captures_iter(&compile_re, content), 1);
    let mut base: Vec<String> = Vec::new();
    base.push(String::from_str("clang-cl"));
    base.push(concat2("/D_", str_to_uppercase(configuration).as_str()));
    proof {
        assert(texts(base@) =~= seq!["clang-cl"@, "/D_"@ + uppercase(configuration@)]);
    }
    add_flags(&mut base, &includes, "-I", Some(project_dir));
    add_flags(&mut base, &defines, "-D", None);
    let ghost before_last = texts(base@);
    base.push(String::from_str("-c"));
    proof {
        assert(texts(base@) =~= before_last + seq!["-c"@]);
        assert(texts(base@) == base_arguments(content@, project_dir@, configuration@));
        assert(sources.deep_view().len() == project_sources(content@).len());
    }
    let ghost shown_base = texts(base@);
    let ghost mut resolved: Seq<Seq<char>> = Seq::empty();
    let mut entries: Vec<CompileCommandEntry> = Vec::new();
    let mut i: usize = 0;
    while i < sources.len()
        invariant
            i <= sources.len(),
            shown_base == texts(base@),
            entries@.len() == i,
            resolved.len() == i,
            forall|k: int|
                0 <= k < i ==> entry_view(#[trigger] entries@[k]) == source_entry(
                    shown_base,
                    project_dir@,
                    resolved[k],
                ),
        decreases sources.len() - i,
    {
        let full_path = path_join(project_dir, sources[i].as_str());
        let entry = project_source_entry(&base, project_dir, full_path.as_str());
        entries.push(entry);
        proof {
            resolved = resolved.push(full_path@);
        }
        i += 1;
    }
    proof {
        assert(entries_view(entries@) =~= project_entries(
            content@,
            project_dir@,
            configuration@,
            resolved,
        ));
    }
    Ok(entries)
}

/// The paths of the project files of a Visual Studio solution, with `/` in
/// place of every backslash, in the order of the solution.
pub open spec fn projects_of_solution(content: Seq<char>) -> Seq<Seq<char>> {
    let found = group_texts(regex_all(project_pattern(), content), 1);
    Seq::new(found.len(), |i: int| replaced(found[i], "\\"@, "/"@))
}

/// The paths of the project files of a Visual Studio solution.
pub fn solution_projects(content: &str) -> (r: Result<Vec<String>, BuildFileError>)
    ensures
        match r {
            Ok(paths) => paths.deep_view() == projects_of_solution(content@),
            Err(_) => !regex_compiles(project_pattern()),
        },
{
    proof {
        reveal_strlit("\\");
    }
    let project_re = match regex_new(r#"Project\([^)]+\)\s*=\s*"[^"]+",\s*"([^"]+\.vcxproj)""#) {
        Some(re) => re,
        None => {
            return Err(BuildFileError::Pattern);
        },
    };
    let found = collect_group(&regex_captures_iter(&project_re, content), 1);
    let ghost shown = found.deep_view();
    let mut paths: Vec<String> = Vec::new();
    let mut i: usize = 0;
    while i < found.len()
        invariant
            i <= found.len(),
            "\\"@.len() > 0,
            shown == found.deep_view(),
            paths@.len() == i,
            forall|k: int| 0 <= k < i ==> (#[trigger] paths@[k])@ == replaced(shown[k], "\\"@, "/"@),
        decreases found.len() - i,
    {
        paths.push(replace_all(found[i].as_str(), "\\", "/"));
        i += 1;
    }
    proof {
        assert(paths.deep_view() =~= projects_of_solution(content@));
    }
    Ok(paths)
}

} // verus!
