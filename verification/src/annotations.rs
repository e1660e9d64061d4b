//! Notes on a project of a compiled language, worked out from the files that
//! the store knows: what the project is for, where it starts, and a sentence
//! that describes it.
//!
//! A file is given by its path, its category and its purpose, in that order.

use vstd::prelude::*;
use vstd::string::*;
use crate::cxx::file_name_of;
use crate::text::{
    after_first, before_first, concat2, contains_seq, count_where, decimal, ends_with_seq, lemma_count_step, lines_of,
    lowercase, split_first, split_once, starts_with_seq, str_contains, str_ends_with, str_eq,
    str_lines, str_starts_with, str_to_lowercase, str_trim, str_trim_matches, str_words, trimmed,
    usize_to_text, without_leading, without_trailing, words_of,
};

verus! {

/// What a project is for.
#[derive(Debug, Clone, Copy, PartialEq, Eq, Structural)]
pub enum ProjectPurpose {
    Application,
    Library,
    Framework,
    Tool,
    Game,
    SystemSoftware,
    Unknown,
}

/// The build system of a project.
#[derive(Debug, Clone, Copy, PartialEq, Eq, Structural)]
pub enum BuildSystem {
    CMake,
    Make,
    Cargo,
    MSBuild,
    Ninja,
    Unknown,
}

/// Whether a file of the list is an entry point by its category.
pub open spec fn has_entry_point(files: Seq<(String, String, String)>) -> bool {
    exists|i: int| 0 <= i < files.len() && (#[trigger] files[i]).1@ == "entrypoint"@
}

/// Whether the path of a file of the list, in lower case, holds `word`.
pub open spec fn some_path_holds(files: Seq<(String, String, String)>, word: Seq<char>) -> bool {
    exists|i: int| 0 <= i < files.len() && contains_seq(lowercase((#[trigger] files[i]).0@), word)
}

/// Whether the path of a file of the list ends with `ending`.
pub open spec fn some_path_ends(files: Seq<(String, String, String)>, ending: Seq<char>) -> bool {
    exists|i: int| 0 <= i < files.len() && ends_with_seq((#[trigger] files[i]).0@, ending)
}

/// What a C or C++ project is for: a game where a path speaks of a game or
/// an engine; else an application where there is an entry point and no path
/// speaks of a library; else a library where a path does.
pub open spec fn cpp_purpose(files: Seq<(String, String, String)>) -> ProjectPurpose {
    if some_path_holds(files, "game"@) || some_path_holds(files, "engine"@) {
        ProjectPurpose::Game
    } else if has_entry_point(files) && !some_path_holds(files, "lib"@) {
        ProjectPurpose::Application
    } else if some_path_holds(files, "lib"@) {
        ProjectPurpose::Library
    } else {
        ProjectPurpose::Unknown
    }
}

/// What a C or C++ project is for.
pub fn infer_cpp_purpose(files: &[(String, String, String)]) -> (r: ProjectPurpose)
    ensures
        r == cpp_purpose(files@),
{
    let mut has_main = false;
    let mut has_lib = false;
    let mut has_game = false;
    let mut i: usize = 0;
    while i < files.len()
        invariant
            i <= files.len(),
            has_main == has_entry_point(files@.take(i as int)),
            has_lib == some_path_holds(files@.take(i as int), "lib"@),
            has_game == (some_path_holds(files@.take(i as int), "game"@) || some_path_holds(
                files@.take(i as int),
                "engine"@,
            )),
        decreases files.len() - i,
    {
        let ghost before = files@.take(i as int);
        let ghost after = files@.take(i as int + 1);
        let path = str_to_lowercase(files[i].0.as_str());
        let is_main = str_eq(files[i].1.as_str(), "entrypoint");
        let is_lib = str_contains(path.as_str(), "lib");
        let is_game = str_contains(path.as_str(), "game") || str_contains(path.as_str(), "engine");
        proof {
            assert(after[i as int] == files@[i as int]);
            assert(forall|j: int| 0 <= j < i ==> after[j] == before[j]);
            assert(has_entry_point(after) == (has_entry_point(before) || is_main)) by {
                if has_entry_point(before) {
                    let j = choose|j: int|
                        0 <= j < before.len() && (#[trigger] before[j]).1@ == "entrypoint"@;
                    assert(after[j].1@ == "entrypoint"@);
                }
                if has_entry_point(after) {
                    let j = choose|j: int|
                        0 <= j < after.len() && (#[trigger] after[j]).1@ == "entrypoint"@;
                    if j < i {
                        assert(before[j].1@ == "entrypoint"@);
                    }
                }
            }
            lemma_some_path_holds_step(files@, i as int, "lib"@);
            lemma_some_path_holds_step(files@, i as int, "game"@);
            lemma_some_path_holds_step(files@, i as int, "engine"@);
        }
        has_main = has_main || is_main;
        has_lib = has_lib || is_lib;
        has_game = has_game || is_game;
        i += 1;
    }
    proof {
        assert(files@.take(i as int) =~= files@);
    }
    if has_game {
        ProjectPurpose::Game
    } else if has_main && !has_lib {
        ProjectPurpose::Application
    } else if has_lib {
        ProjectPurpose::Library
    } else {
        ProjectPurpose::Unknown
    }
}

/// One more file: a path of the longer list holds the word where one of the
/// shorter list does or the new file's does.
pub proof fn lemma_some_path_holds_step(
    files: Seq<(String, String, String)>,
    i: int,
    word: Seq<char>,
)
    requires
        0 <= i < files.len(),
    ensures
        some_path_holds(files.take(i + 1), word) == (some_path_holds(files.take(i), word)
            || contains_seq(lowercase(files[i].0@), word)),
{
    let before = files.take(i);
    let after = files.take(i + 1);
    assert(after[i] == files[i]);
    if some_path_holds(before, word) {
        let j = choose|j: int|
            0 <= j < before.len() && contains_seq(lowercase((#[trigger] before[j]).0@), word);
        assert(after[j] == before[j]);
    }
    if some_path_holds(after, word) {
        let j = choose|j: int|
            0 <= j < after.len() && contains_seq(lowercase((#[trigger] after[j]).0@), word);
        if j < i {
            assert(before[j] == after[j]);
        }
    }
}

/// One more file: a path of the longer list has the ending where one of the
/// shorter list does or the new file's does.
pub proof fn lemma_some_path_ends_step(
    files: Seq<(String, String, String)>,
    i: int,
    ending: Seq<char>,
)
    requires
        0 <= i < files.len(),
    ensures
        some_path_ends(files.take(i + 1), ending) == (some_path_ends(files.take(i), ending)
            || ends_with_seq(files[i].0@, ending)),
{
    let before = files.take(i);
    let after = files.take(i + 1);
    assert(after[i] == files[i]);
    if some_path_ends(before, ending) {
        let j = choose|j: int|
            0 <= j < before.len() && ends_with_seq((#[trigger] before[j]).0@, ending);
        assert(after[j] == before[j]);
    }
    if some_path_ends(after, ending) {
        let j = choose|j: int|
            0 <= j < after.len() && ends_with_seq((#[trigger] after[j]).0@, ending);
        if j < i {
            assert(before[j] == after[j]);
        }
    }
}

/// What a Rust project is for: a tool where it has both a main file and a
/// library root, an application with a main file alone, a library with a
/// library root alone. A file is a main file by its category or by its name.
pub open spec fn rust_purpose(files: Seq<(String, String, String)>) -> ProjectPurpose {
    let has_main = has_entry_point(files) || some_path_ends(files, "main.rs"@);
    let has_lib = some_path_ends(files, "lib.rs"@);
    if has_main && has_lib {
        ProjectPurpose::Tool
    } else if has_main {
        ProjectPurpose::Application
    } else if has_lib {
        ProjectPurpose::Library
    } else {
        ProjectPurpose::Unknown
    }
}

/// What a Rust project is for.
pub fn infer_rust_purpose(files: &[(String, String, String)]) -> (r: ProjectPurpose)
    ensures
        r == rust_purpose(files@),
{
    let mut has_main = false;
    let mut has_lib = false;
    let mut i: usize = 0;
    while i < files.len()
        invariant
            i <= files.len(),
            has_main == (has_entry_point(files@.take(i as int)) || some_path_ends(
                files@.take(i as int),
                "main.rs"@,
            )),
            has_lib == some_path_ends(files@.take(i as int), "lib.rs"@),
        decreases files.len() - i,
    {
        let ghost before = files@.take(i as int);
        let ghost after = files@.take(i as int + 1);
        let is_main = str_eq(files[i].1.as_str(), "entrypoint") || str_ends_with(
            files[i].0.as_str(),
            "main.rs",
        );
        let is_lib = str_ends_with(files[i].0.as_str(), "lib.rs");
        proof {
            assert(after[i as int] == files@[i as int]);
            assert(has_entry_point(after) == (has_entry_point(before) || files@[i as int].1@
                == "entrypoint"@)) by {
                if has_entry_point(before) {
                    let j = choose|j: int|
                        0 <= j < before.len() && (#[trigger] before[j]).1@ == "entrypoint"@;
                    assert(after[j] == before[j]);
                }
                if has_entry_point(after) {
                    let j = choose|j: int|
                        0 <= j < after.len() && (#[trigger] after[j]).1@ == "entrypoint"@;
                    if j < i {
                        assert(before[j] == after[j]);
                    }
                }
            }
            lemma_some_path_ends_step(files@, i as int, "main.rs"@);
            lemma_some_path_ends_step(files@, i as int, "lib.rs"@);
        }
        has_main = has_main || is_main;
        has_lib = has_lib || is_lib;
        i += 1;
    }
    proof {
        assert(files@.take(i as int) =~= files@);
    }
    if has_main && has_lib {
        ProjectPurpose::Tool
    } else if has_main {
        ProjectPurpose::Application
    } else if has_lib {
        ProjectPurpose::Library
    } else {
        ProjectPurpose::Unknown
    }
}

/// The build system of a C or C++ project, from which of the three build
/// files its root holds: CMake before Make before Ninja.
pub fn detect_cpp_build_system(has_cmake_lists: bool, has_makefile: bool, has_build_ninja: bool) -> (r:
    BuildSystem)
    ensures
        r == if has_cmake_lists {
            BuildSystem::CMake
        } else if has_makefile {
            BuildSystem::Make
        } else if has_build_ninja {
            BuildSystem::Ninja
        } else {
            BuildSystem::Unknown
        },
{
    if has_cmake_lists {
        BuildSystem::CMake
    } else if has_makefile {
        BuildSystem::Make
    } else if has_build_ninja {
        BuildSystem::Ninja
    } else {
        BuildSystem::Unknown
    }
}

/// Whether a file is an entry point of a C or C++ project: by its category.
pub open spec fn is_cpp_entry(file: (String, String, String)) -> bool {
    file.1@ == "entrypoint"@
}

/// Whether a file is an entry point of a Rust project: by its category, or
/// as a main file or a library root.
pub open spec fn is_rust_entry(file: (String, String, String)) -> bool {
    file.1@ == "entrypoint"@ || ends_with_seq(file.0@, "main.rs"@) || ends_with_seq(
        file.0@,
        "lib.rs"@,
    )
}

/// The paths of the files that `chosen` picks, in the order of the files.
pub open spec fn paths_of(
    files: Seq<(String, String, String)>,
    chosen: spec_fn((String, String, String)) -> bool,
) -> Seq<Seq<char>> {
    files.filter(chosen).map_values(|file: (String, String, String)| file.0@)
}

/// The paths of the entry points of a C or C++ project, in the order of the
/// files.
pub fn find_cpp_entry_points(files: &[(String, String, String)]) -> (r: Vec<String>)
    ensures
        r.deep_view() == paths_of(files@, |file: (String, String, String)| is_cpp_entry(file)),
{
    let ghost chosen = |file: (String, String, String)| is_cpp_entry(file);
    let mut found: Vec<String> = Vec::new();
    let mut i: usize = 0;
    proof {
        assert(files@.take(0) =~= Seq::empty());
        assert(found.deep_view() =~= paths_of(files@.take(0), chosen));
    }
    while i < files.len()
        invariant
            i <= files.len(),
            chosen == |file: (String, String, String)| is_cpp_entry(file),
            found.deep_view() == paths_of(files@.take(i as int), chosen),
        decreases files.len() - i,
    {
        let ghost before = found.deep_view();
        proof {
            lemma_paths_of_step(files@, i as int, chosen);
        }
        if str_eq(files[i].1.as_str(), "entrypoint") {
            found.push(files[i].0.clone());
            assert(found.deep_view() =~= before.push(files@[i as int].0@));
        }
        i += 1;
    }
    proof {
        assert(files@.take(i as int) =~= files@);
    }
    found
}

/// One more file: its path comes last where it is chosen, and else the
/// paths stay.
pub proof fn lemma_paths_of_step(
    files: Seq<(String, String, String)>,
    i: int,
    chosen: spec_fn((String, String, String)) -> bool,
)
    requires
        0 <= i < files.len(),
    ensures
        paths_of(files.take(i + 1), chosen) == if chosen(files[i]) {
            paths_of(files.take(i), chosen).push(files[i].0@)
        } else {
            paths_of(files.take(i), chosen)
        },
{
    let before = files.take(i);
    let after = files.take(i + 1);
    assert(after =~= before.push(files[i]));
    Seq::filter_distributes_over_add(before, seq![files[i]], chosen);
    assert(before.push(files[i]) =~= before + seq![files[i]]);
    reveal_with_fuel(Seq::filter, 2);
    let one = seq![files[i]];
    assert(one.drop_last() =~= Seq::empty());
    if chosen(files[i]) {
        assert(one.filter(chosen) =~= one);
        assert(after.filter(chosen) =~= before.filter(chosen).push(files[i]));
        assert(paths_of(after, chosen) =~= paths_of(before, chosen).push(files[i].0@));
    } else {
        assert(one.filter(chosen) =~= Seq::empty());
        assert(after.filter(chosen) =~= before.filter(chosen));
    }
}

/// The paths of the entry points of a Rust project, in the order of the
/// files.
pub fn find_rust_entry_points(files: &[(String, String, String)]) -> (r: Vec<String>)
    ensures
        r.deep_view() == paths_of(files@, |file: (String, String, String)| is_rust_entry(file)),
{
    let ghost chosen = |file: (String, String, String)| is_rust_entry(file);
    let mut found: Vec<String> = Vec::new();
    let mut i: usize = 0;
    proof {
        assert(files@.take(0) =~= Seq::empty());
        assert(found.deep_view() =~= paths_of(files@.take(0), chosen));
    }
    while i < files.len()
        invariant
            i <= files.len(),
            chosen == |file: (String, String, String)| is_rust_entry(file),
            found.deep_view() == paths_of(files@.take(i as int), chosen),
        decreases files.len() - i,
    {
        let ghost before = found.deep_view();
        proof {
            lemma_paths_of_step(files@, i as int, chosen);
        }
        if str_eq(files[i].1.as_str(), "entrypoint") || str_ends_with(
            files[i].0.as_str(),
            "main.rs",
        ) || str_ends_with(files[i].0.as_str(), "lib.rs") {
            found.push(files[i].0.clone());
            assert(found.deep_view() =~= before.push(files@[i as int].0@));
        }
        i += 1;
    }
    proof {
        assert(files@.take(i as int) =~= files@);
    }
    found
}

/// The libraries that a C or C++ project depends on. None are looked for.
pub fn extract_cpp_dependencies(_root_path: &str) -> (r: Vec<String>)
    ensures
        r@.len() == 0,
{
    Vec::new()
}

/// How a C or C++ project of a purpose is called in a sentence.
pub open spec fn cpp_kind(purpose: ProjectPurpose) -> Seq<char> {
    match purpose {
        ProjectPurpose::Application => "a C++ application"@,
        ProjectPurpose::Library => "a C++ library"@,
        ProjectPurpose::Game => "a C++ game or engine"@,
        ProjectPurpose::Tool => "a C++ tool"@,
        _ => "a C++ project"@,
    }
}

/// How a Rust project of a purpose is called in a sentence.
pub open spec fn rust_kind(purpose: ProjectPurpose) -> Seq<char> {
    match purpose {
        ProjectPurpose::Application => "a Rust application"@,
        ProjectPurpose::Library => "a Rust library crate"@,
        ProjectPurpose::Tool => "a Rust command-line tool"@,
        _ => "a Rust project"@,
    }
}

/// The sentence that describes a project called `kind` with `file_count`
/// source files.
pub open spec fn description(kind: Seq<char>, file_count: nat) -> Seq<char> {
    "This is "@ + kind + " with "@ + decimal(file_count) + " source files."@
}

/// The sentence for a project called `kind`.
fn describe(kind: &str, file_count: usize) -> (r: String)
    ensures
        r@ == description(kind@, file_count as nat),
{
    let mut text = concat2("This is ", kind);
    text.append(" with ");
    text.append(usize_to_text(file_count).as_str());
    text.append(" source files.");
    text
}

/// The sentence that describes a C or C++ project.
pub fn generate_cpp_description(purpose: &ProjectPurpose, file_count: usize) -> (r: String)
    ensures
        r@ == description(cpp_kind(*purpose), file_count as nat),
{
    match purpose {
        ProjectPurpose::Application => describe("a C++ application", file_count),
        ProjectPurpose::Library => describe("a C++ library", file_count),
        ProjectPurpose::Game => describe("a C++ game or engine", file_count),
        ProjectPurpose::Tool => describe("a C++ tool", file_count),
        _ => describe("a C++ project", file_count),
    }
}

/// The sentence that describes a Rust project.
pub fn generate_rust_description(purpose: &ProjectPurpose, file_count: usize) -> (r: String)
    ensures
        r@ == description(rust_kind(*purpose), file_count as nat),
{
    match purpose {
        ProjectPurpose::Application => describe("a Rust application", file_count),
        ProjectPurpose::Library => describe("a Rust library crate", file_count),
        ProjectPurpose::Tool => describe("a Rust command-line tool", file_count),
        _ => describe("a Rust project", file_count),
    }
}

/// The name that a CMake file gives its project: the first word between
/// the first `project(` and the `)` that follows it.
pub open spec fn cmake_project_name(content: Seq<char>) -> Option<Seq<char>> {
    match split_first(content, "project("@) {
        Some(parts) => match split_first(parts.1, ")"@) {
            Some(inner) => {
                let words = words_of(trimmed(inner.0));
                if words.len() > 0 && words[0].len() > 0 {
                    Some(words[0])
                } else {
                    None
                }
            },
            None => None,
        },
        None => None,
    }
}

/// The name of a project: `found` where there is one, else the name of the
/// root directory, else `otherwise`.
pub open spec fn project_name(
    found: Option<Seq<char>>,
    directory: Seq<char>,
    otherwise: Seq<char>,
) -> Seq<char> {
    match found {
        Some(name) => name,
        None => if directory.len() > 0 {
            directory
        } else {
            otherwise
        },
    }
}

/// The name that a CMake file gives its project, where there is a file.
pub open spec fn cmake_name_in(cmake_lists: Option<&str>) -> Option<Seq<char>> {
    match cmake_lists {
        Some(content) => cmake_project_name(content@),
        None => None,
    }
}

/// The name that a Cargo manifest gives the package, where there is a
/// manifest.
pub open spec fn cargo_name_in(cargo_toml: Option<&str>) -> Option<Seq<char>> {
    match cargo_toml {
        Some(content) => cargo_package_name(lines_of(content@)),
        None => None,
    }
}

/// The name that a CMake file gives its project.
pub fn cmake_name(content: &str) -> (r: Option<String>)
    ensures
        r.deep_view() == cmake_project_name(content@),
{
    proof {
        reveal_strlit("project(");
        reveal_strlit(")");
    }
    let (_, after) = split_once(content, "project(")?;
    let (inner, _) = split_once(after, ")")?;
    let words = str_words(str_trim(inner));
    if words.len() > 0 && words[0].as_str().unicode_len() > 0 {
        Some(words[0].clone())
    } else {
        None
    }
}

/// The name of a C or C++ project: the one that its `CMakeLists.txt` gives,
/// where the file could be read and gives one, else the name of the root
/// directory, else `cpp_project`. The name of the directory is that of the
/// platform's paths.
pub fn extract_project_name_cpp(root_path: &str, cmake_lists: Option<&str>) -> (r: String)
    ensures
        exists|directory: Seq<char>|
            contains_seq(root_path@, directory) && r@ == #[trigger] project_name(
                cmake_name_in(cmake_lists),
                directory,
                "cpp_project"@,
            ),
{
    let found = match cmake_lists {
        Some(content) => cmake_name(content),
        None => None,
    };
    let directory = file_name_of(root_path);
    let r = match found {
        Some(name) => name,
        None => if directory.as_str().unicode_len() > 0 {
            directory.clone()
        } else {
            String::from_str("cpp_project")
        },
    };
    assert(r@ == project_name(
        cmake_name_in(cmake_lists),
        directory@,
        "cpp_project"@,
    ));
    r
}

/// The name that the lines of a Cargo manifest give the package: what
/// follows the `=` of the first line that begins with `name` and has one,
/// without the white space and the quotes around it.
pub open spec fn cargo_package_name(lines: Seq<Seq<char>>) -> Option<Seq<char>>
    decreases lines.len(),
{
    if lines.len() == 0 {
        None
    } else if starts_with_seq(trimmed(lines[0]), "name"@) && split_first(lines[0], "="@) is Some {
        Some(
            without_trailing(without_leading(trimmed(after_first(lines[0], "="@)), '"'), '"'),
        )
    } else {
        cargo_package_name(lines.drop_first())
    }
}

/// The name that a Cargo manifest gives the package.
pub fn cargo_name(content: &str) -> (r: Option<String>)
    ensures
        r.deep_view() == cargo_package_name(lines_of(content@)),
{
    proof {
        reveal_strlit("=");
    }
    let lines = str_lines(content);
    let ghost all = lines.deep_view();
    let mut i: usize = 0;
    proof {
        assert(all.skip(0) =~= all);
    }
    while i < lines.len()
        invariant
            i <= lines.len(),
            all == lines.deep_view(),
            all == lines_of(content@),
            "="@.len() > 0,
            cargo_package_name(all) == cargo_package_name(all.skip(i as int)),
        decreases lines.len() - i,
    {
        proof {
            assert(all.skip(i as int)[0] == lines@[i as int]@);
            assert(all.skip(i as int).drop_first() =~= all.skip(i as int + 1));
        }
        let line = lines[i].as_str();
        if str_starts_with(str_trim(line), "name") {
            match split_once(line, "=") {
                Some(parts) => {
                    let name = String::from_str(str_trim_matches(str_trim(parts.1), '"'));
                    proof {
                        let rest = all.skip(i as int);
                        assert(after_first(rest[0], "="@) == parts.1@);
                        assert(cargo_package_name(rest) == Some(name@));
                    }
                    return Some(name);
                },
                None => {},
            }
        }
        i += 1;
    }
    None
}

/// The name of a Rust project: the one that its `Cargo.toml` gives, where
/// the file could be read and gives one, else the name of the root
/// directory, else `rust_project`.
pub fn extract_project_name_rust(root_path: &str, cargo_toml: Option<&str>) -> (r: String)
    ensures
        exists|directory: Seq<char>|
            contains_seq(root_path@, directory) && r@ == #[trigger] project_name(
                cargo_name_in(cargo_toml),
                directory,
                "rust_project"@,
            ),
{
    let found = match cargo_toml {
        Some(content) => cargo_name(content),
        None => None,
    };
    let directory = file_name_of(root_path);
    let r = match found {
        Some(name) => name,
        None => if directory.as_str().unicode_len() > 0 {
            directory.clone()
        } else {
            String::from_str("rust_project")
        },
    };
    assert(r@ == project_name(
        cargo_name_in(cargo_toml),
        directory@,
        "rust_project"@,
    ));
    r
}

/// Where a reading of a Cargo manifest stands: whether it is in the table
/// of dependencies, and the dependencies found.
pub struct DependencyScan {
    pub in_dependencies: bool,
    pub found: Seq<Seq<char>>,
}

/// A reading of a Cargo manifest after one more line. The line
/// `[dependencies]` opens the table of dependencies and any other line that
/// begins with `[` closes it; in the table, a line that is not empty, is no
/// comment and has a `=` names a dependency before the `=`.
pub open spec fn after_manifest_line(before: DependencyScan, line: Seq<char>) -> DependencyScan {
    let text = trimmed(line);
    if text == "[dependencies]"@ {
        DependencyScan { in_dependencies: true, found: before.found }
    } else {
        let inside = before.in_dependencies && !starts_with_seq(text, "["@);
        DependencyScan {
            in_dependencies: inside,
            found: if inside && text.len() > 0 && !starts_with_seq(text, "#"@) && split_first(
                text,
                "="@,
            ) is Some {
                before.found.push(trimmed(before_first(text, "="@)))
            } else {
                before.found
            },
        }
    }
}

/// A reading of a Cargo manifest after the lines given.
pub open spec fn after_manifest_lines(lines: Seq<Seq<char>>) -> DependencyScan
    decreases lines.len(),
{
    if lines.len() == 0 {
        DependencyScan { in_dependencies: false, found: Seq::empty() }
    } else {
        after_manifest_line(after_manifest_lines(lines.drop_last()), lines.last())
    }
}

/// The dependencies that a Cargo manifest names in its table of
/// dependencies, in the order of the lines.
pub fn extract_rust_dependencies(cargo_toml: &str) -> (r: Vec<String>)
    ensures
        r.deep_view() == after_manifest_lines(lines_of(cargo_toml@)).found,
{
    proof {
        reveal_strlit("=");
    }
    let lines = str_lines(cargo_toml);
    let ghost all = lines.deep_view();
    let mut found: Vec<String> = Vec::new();
    let mut in_dependencies = false;
    let mut i: usize = 0;
    proof {
        assert(all.take(0) =~= Seq::empty());
        assert(found.deep_view() =~= Seq::<Seq<char>>::empty());
    }
    while i < lines.len()
        invariant
            i <= lines.len(),
            all == lines.deep_view(),
            "="@.len() > 0,
            (DependencyScan { in_dependencies, found: found.deep_view() }) == after_manifest_lines(
                all.take(i as int),
            ),
        decreases lines.len() - i,
    {
        let ghost before = found.deep_view();
        proof {
            assert(all.take(i as int + 1).drop_last() =~= all.take(i as int));
            assert(all.take(i as int + 1).last() == lines@[i as int]@);
        }
        let text = str_trim(lines[i].as_str());
        if str_eq(text, "[dependencies]") {
            in_dependencies = true;
        } else {
            if str_starts_with(text, "[") {
                in_dependencies = false;
            }
            if in_dependencies && text.unicode_len() > 0 && !str_starts_with(text, "#") {
                match split_once(text, "=") {
                    Some(parts) => {
                        let name = String::from_str(str_trim(parts.0));
                        found.push(name);
                        assert(found.deep_view() =~= before.push(trimmed(parts.0@)));
                    },
                    None => {},
                }
            }
        }
        i += 1;
    }
    proof {
        assert(all.take(i as int) =~= all);
    }
    found
}

/// How many of the files are tests: those whose category holds `test`.
pub open spec fn test_file_count(files: Seq<(String, String, String)>) -> nat {
    count_where(files, |file: (String, String, String)| contains_seq(file.1@, "test"@))
}

/// How many of the files are tests. The share of tests among the files is
/// this number by the number of files.
pub fn count_test_files(files: &[(String, String, String)]) -> (r: usize)
    ensures
        r == test_file_count(files@),
        r <= files@.len(),
{
    let ghost chosen = |file: (String, String, String)| contains_seq(file.1@, "test"@);
    let mut count: usize = 0;
    let mut i: usize = 0;
    proof {
        assert(files@.take(0) =~= Seq::empty());
    }
    while i < files.len()
        invariant
            i <= files.len(),
            chosen == |file: (String, String, String)| contains_seq(file.1@, "test"@),
            count == count_where(files@.take(i as int), chosen),
            count <= i,
        decreases files.len() - i,
    {
        proof {
            lemma_count_step(files@, i as int, chosen);
        }
        if str_contains(files[i].1.as_str(), "test") {
            count += 1;
        }
        i += 1;
    }
    proof {
        assert(files@.take(i as int) =~= files@);
    }
    count
}

/// The language of a compiled project, from the paths of its files.
#[derive(Debug, Clone, Copy, PartialEq, Eq, Structural)]
pub enum CompiledLanguage {
    Cpp,
    Rust,
}

/// Whether a file is a C or C++ source: by its ending.
pub open spec fn is_cpp_source(file: (String, String, String)) -> bool {
    ends_with_seq(file.0@, ".cpp"@) || ends_with_seq(file.0@, ".cc"@) || ends_with_seq(
        file.0@,
        ".cxx"@,
    ) || ends_with_seq(file.0@, ".h"@)
}

/// The language of a compiled project: C++ where a file is a C or C++
/// source, else Rust where a path ends in `.rs`.
pub open spec fn compiled_language(files: Seq<(String, String, String)>) -> Option<
    CompiledLanguage,
> {
    if crate::text::any_where(files, |file: (String, String, String)| is_cpp_source(file)) {
        Some(CompiledLanguage::Cpp)
    } else if some_path_ends(files, ".rs"@) {
        Some(CompiledLanguage::Rust)
    } else {
        None
    }
}

/// The language of a compiled project, from the paths of its files.
pub fn detect_compiled_language(files: &[(String, String, String)]) -> (r: Option<CompiledLanguage>)
    ensures
        r == compiled_language(files@),
{
    let ghost is_cpp = |file: (String, String, String)| is_cpp_source(file);
    let mut cpp = false;
    let mut rust = false;
    let mut i: usize = 0;
    proof {
        assert(files@.take(0) =~= Seq::empty());
    }
    while i < files.len()
        invariant
            i <= files.len(),
            is_cpp == |file: (String, String, String)| is_cpp_source(file),
            cpp == crate::text::any_where(files@.take(i as int), is_cpp),
            rust == some_path_ends(files@.take(i as int), ".rs"@),
        decreases files.len() - i,
    {
        proof {
            crate::text::lemma_any_step(files@, i as int, is_cpp);
            lemma_some_path_ends_step(files@, i as int, ".rs"@);
        }
        let path = files[i].0.as_str();
        if str_ends_with(path, ".cpp") || str_ends_with(path, ".cc") || str_ends_with(path, ".cxx")
            || str_ends_with(path, ".h") {
            cpp = true;
        }
        if str_ends_with(path, ".rs") {
            rust = true;
        }
        i += 1;
    }
    proof {
        assert(files@.take(i as int) =~= files@);
    }
    if cpp {
        Some(CompiledLanguage::Cpp)
    } else if rust {
        Some(CompiledLanguage::Rust)
    } else {
        None
    }
}

} // verus!
