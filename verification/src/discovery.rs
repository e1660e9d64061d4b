//! Finding out how a project is built and indexed: the build system that a
//! directory shows, the entries of a compilation database, and the indexing
//! tool to run for a language.
//!
//! Nothing here touches the file system or starts a program. The functions
//! take what was observed and say what is to be done.

use vstd::prelude::*;
use vstd::string::*;
use vstd::utf8::encode_utf8;
use crate::json::{
    decode, json_parse, json_value, texts_from_json, texts_in, texts_view, Json, JsonError,
    JsonValue,
};
use crate::text::{concat2, lowercase, str_eq, str_to_lowercase};

verus! {

/// The build system found in a project directory.
#[derive(Debug, Clone, PartialEq, Eq, Structural)]
pub enum BuildSystem {
    /// CMake (`CMakeLists.txt`).
    CMake,
    /// Make (`Makefile`, `makefile`, `GNUmakefile`).
    Make,
    /// A Visual Studio project (`.vcxproj`).
    VcxProj,
    /// A Visual Studio solution (`.sln`).
    Solution,
    /// Cargo (`Cargo.toml`).
    Cargo,
    /// None that is known.
    Unknown,
}

/// An entry of a compilation database as it is written.
#[derive(Debug)]
pub struct CompileCommandEntry {
    /// The directory in which the compiler runs.
    pub directory: String,
    /// The source file.
    pub file: String,
    /// The compiler's command line as one text.
    pub command: Option<String>,
    /// The compiler's command line, argument by argument.
    pub arguments: Option<Vec<String>>,
}

/// An entry of a compilation database as it is read.
#[derive(Debug)]
pub struct CompileCommand {
    pub directory: String,
    pub file: String,
    pub command: Option<String>,
    pub arguments: Option<Vec<String>>,
}

/// A language for which an index can be made.
#[derive(Debug, Clone, PartialEq, Eq, Hash, Structural)]
pub enum ScipLanguage {
    Rust,
    Cpp,
    Python,
    JavaScript,
    TypeScript,
    Shell,
    Ruby,
    PHP,
    Lua,
    Unknown,
}

/// The language that a name or a file ending in lower case stands for.
pub open spec fn language_named(name: Seq<char>) -> ScipLanguage {
    if name == "rust"@ || name == "rs"@ {
        ScipLanguage::Rust
    } else if name == "c++"@ || name == "cpp"@ || name == "cxx"@ || name == "cc"@ || name == "c"@ {
        ScipLanguage::Cpp
    } else if name == "python"@ || name == "py"@ {
        ScipLanguage::Python
    } else if name == "javascript"@ || name == "js"@ {
        ScipLanguage::JavaScript
    } else if name == "typescript"@ || name == "ts"@ {
        ScipLanguage::TypeScript
    } else if name == "shell"@ || name == "bash"@ || name == "sh"@ {
        ScipLanguage::Shell
    } else if name == "ruby"@ || name == "rb"@ {
        ScipLanguage::Ruby
    } else if name == "php"@ {
        ScipLanguage::PHP
    } else if name == "lua"@ {
        ScipLanguage::Lua
    } else {
        ScipLanguage::Unknown
    }
}

impl ScipLanguage {
    /// The language's name as it is shown.
    pub open spec fn shown(self) -> Seq<char> {
        match self {
            ScipLanguage::Rust => "Rust"@,
            ScipLanguage::Cpp => "C++"@,
            ScipLanguage::Python => "Python"@,
            ScipLanguage::JavaScript => "JavaScript"@,
            ScipLanguage::TypeScript => "TypeScript"@,
            ScipLanguage::Shell => "Shell"@,
            ScipLanguage::Ruby => "Ruby"@,
            ScipLanguage::PHP => "PHP"@,
            ScipLanguage::Lua => "Lua"@,
            ScipLanguage::Unknown => "Unknown"@,
        }
    }

    /// The language's name as it is shown.
    pub fn name(&self) -> (r: String)
        ensures
            r@ == self.shown(),
    {
        match self {
            ScipLanguage::Rust => String::from_str("Rust"),
            ScipLanguage::Cpp => String::from_str("C++"),
            ScipLanguage::Python => String::from_str("Python"),
            ScipLanguage::JavaScript => String::from_str("JavaScript"),
            ScipLanguage::TypeScript => String::from_str("TypeScript"),
            ScipLanguage::Shell => String::from_str("Shell"),
            ScipLanguage::Ruby => String::from_str("Ruby"),
            ScipLanguage::PHP => String::from_str("PHP"),
            ScipLanguage::Lua => String::from_str("Lua"),
            ScipLanguage::Unknown => String::from_str("Unknown"),
        }
    }

    /// The language that a name or a file ending stands for, whatever its
    /// case.
    pub fn from_name(s: &str) -> (r: ScipLanguage)
        ensures
            r == language_named(lowercase(s@)),
    {
        let lower = str_to_lowercase(s);
        let name = lower.as_str();
        if str_eq(name, "rust") || str_eq(name, "rs") {
            ScipLanguage::Rust
        } else if str_eq(name, "c++") || str_eq(name, "cpp") || str_eq(name, "cxx") || str_eq(
            name,
            "cc",
        ) || str_eq(name, "c") {
            ScipLanguage::Cpp
        } else if str_eq(name, "python") || str_eq(name, "py") {
            ScipLanguage::Python
        } else if str_eq(name, "javascript") || str_eq(name, "js") {
            ScipLanguage::JavaScript
        } else if str_eq(name, "typescript") || str_eq(name, "ts") {
            ScipLanguage::TypeScript
        } else if str_eq(name, "shell") || str_eq(name, "bash") || str_eq(name, "sh") {
            ScipLanguage::Shell
        } else if str_eq(name, "ruby") || str_eq(name, "rb") {
            ScipLanguage::Ruby
        } else if str_eq(name, "php") {
            ScipLanguage::PHP
        } else if str_eq(name, "lua") {
            ScipLanguage::Lua
        } else {
            ScipLanguage::Unknown
        }
    }
}

impl From<&str> for ScipLanguage {
    fn from(s: &str) -> (r: ScipLanguage) {
        ScipLanguage::from_name(s)
    }
}

impl vstd::std_specs::convert::FromSpecImpl<&str> for ScipLanguage {
    open spec fn obeys_from_spec() -> bool {
        true
    }

    open spec fn from_spec(s: &str) -> ScipLanguage {
        language_named(lowercase(s@))
    }
}

/// What is needed to make an index of a project.
#[derive(Debug, Clone)]
pub struct ScipConfig {
    /// The language of the project.
    pub language: ScipLanguage,
    /// Where the project is.
    pub project_path: String,
    /// Where the index is to be written.
    pub output_path: String,
    /// More arguments for the indexing tool.
    pub extra_args: Vec<String>,
    /// Where the compilation database is; C++ needs one.
    pub compile_commands: Option<String>,
}

impl ScipConfig {
    /// A configuration without extra arguments and without a compilation
    /// database.
    pub fn new(language: ScipLanguage, project_path: &str, output_path: &str) -> (r: ScipConfig)
        ensures
            r.language == language,
            r.project_path@ == project_path@,
            r.output_path@ == output_path@,
            r.extra_args@.len() == 0,
            r.compile_commands is None,
    {
        ScipConfig {
            language,
            project_path: String::from_str(project_path),
            output_path: String::from_str(output_path),
            extra_args: Vec::new(),
            compile_commands: None,
        }
    }

    /// The configuration with `args` as its extra arguments, in place of
    /// those it had.
    pub fn with_extra_args(self, args: Vec<String>) -> (r: ScipConfig)
        ensures
            r.extra_args == args,
            r.language == self.language,
            r.project_path == self.project_path,
            r.output_path == self.output_path,
            r.compile_commands == self.compile_commands,
    {
        let mut config = self;
        config.extra_args = args;
        config
    }

    /// The configuration with the compilation database at `compdb`.
    pub fn with_compile_commands(self, compdb: &str) -> (r: ScipConfig)
        ensures
            r.compile_commands matches Some(path) && path@ == compdb@,
            r.language == self.language,
            r.project_path == self.project_path,
            r.output_path == self.output_path,
            r.extra_args == self.extra_args,
    {
        let mut config = self;
        config.compile_commands = Some(String::from_str(compdb));
        config
    }
}

/// How to get the indexing tool of a language.
pub open spec fn installation_instruction(language: ScipLanguage) -> Seq<char> {
    match language {
        ScipLanguage::Rust => "rustup component add rust-analyzer"@,
        ScipLanguage::Cpp => "cargo install scip-clang"@,
        ScipLanguage::Python => "pip install scip-python"@,
        ScipLanguage::JavaScript | ScipLanguage::TypeScript => "npm install -g @sourcegraph/scip-typescript"@,
        ScipLanguage::Shell => "cargo install scip-shell"@,
        ScipLanguage::Ruby => "gem install scip-ruby"@,
        ScipLanguage::PHP => "composer require sourcegraph/scip-php"@,
        ScipLanguage::Lua => "Install scip-lua from: https://github.com/sourcegraph/scip-lua"@,
        ScipLanguage::Unknown => "Unknown language"@,
    }
}

/// How to get the indexing tool of a language.
pub fn get_installation_instruction(language: &ScipLanguage) -> (r: &'static str)
    ensures
        r@ == installation_instruction(*language),
{
    match language {
        ScipLanguage::Rust => "rustup component add rust-analyzer",
        ScipLanguage::Cpp => "cargo install scip-clang",
        ScipLanguage::Python => "pip install scip-python",
        ScipLanguage::JavaScript | ScipLanguage::TypeScript => "npm install -g @sourcegraph/scip-typescript",
        ScipLanguage::Shell => "cargo install scip-shell",
        ScipLanguage::Ruby => "gem install scip-ruby",
        ScipLanguage::PHP => "composer require sourcegraph/scip-php",
        ScipLanguage::Lua => "Install scip-lua from: https://github.com/sourcegraph/scip-lua",
        ScipLanguage::Unknown => "Unknown language",
    }
}

/// The mathematical value of a [`CompileCommand`].
pub struct CompileCommandView {
    pub directory: Seq<char>,
    pub file: Seq<char>,
    pub command: Option<Seq<char>>,
    pub arguments: Option<Seq<Seq<char>>>,
}

impl View for CompileCommand {
    type V = CompileCommandView;

    open spec fn view(&self) -> CompileCommandView {
        CompileCommandView {
            directory: self.directory@,
            file: self.file@,
            command: self.command.deep_view(),
            arguments: match self.arguments {
                Some(arguments) => Some(texts_view(arguments@)),
                None => None,
            },
        }
    }
}

/// The arguments that an entry of a compilation database holds: none where
/// the entry has no `arguments` or has `null` there, and else the texts of
/// the list. `None` where `arguments` is anything else.
pub open spec fn arguments_in(v: JsonValue) -> Option<Option<Seq<Seq<char>>>> {
    match v.field("arguments"@) {
        None => Some(None),
        Some(JsonValue::Null) => Some(None),
        Some(list) => match texts_in(list) {
            Some(arguments) => Some(Some(arguments)),
            None => None,
        },
    }
}

/// The entry of a compilation database that a JSON value holds: an object
/// with the texts `directory` and `file`, and, where they are there, the
/// text `command` and the list of texts `arguments`.
pub open spec fn command_in(v: JsonValue) -> Option<CompileCommandView> {
    if v.text_at("directory"@) is Some && v.text_at("file"@) is Some && v.optional_text_at(
        "command"@,
    ) is Some && arguments_in(v) is Some {
        Some(
            CompileCommandView {
                directory: v.text_at("directory"@)->0,
                file: v.text_at("file"@)->0,
                command: v.optional_text_at("command"@)->0,
                arguments: arguments_in(v)->0,
            },
        )
    } else {
        None
    }
}

/// The entries that a compilation database holds: `None` where the value is
/// no list or one of its items is no entry.
pub open spec fn commands_in(v: JsonValue) -> Option<Seq<CompileCommandView>> {
    match v {
        JsonValue::List(items) => if forall|i: int|
            0 <= i < items.len() ==> command_in(#[trigger] items[i]) is Some {
            Some(Seq::new(items.len(), |i: int| command_in(items[i])->0))
        } else {
            None
        },
        _ => None,
    }
}

/// The entries that the text of a compilation database holds.
pub open spec fn commands_of_text(text: Seq<char>) -> Option<Seq<CompileCommandView>> {
    match json_parse(encode_utf8(text)) {
        Some(v) => commands_in(v),
        None => None,
    }
}

/// The values of a list of entries.
pub open spec fn commands_view(items: Seq<CompileCommand>) -> Seq<CompileCommandView> {
    Seq::new(items.len(), |i: int| items[i]@)
}

/// Why a compilation database could not be read.
#[derive(Debug)]
pub enum CompdbError {
    /// The text is not JSON; the message is the reader's.
    NotJson(String),
    /// The text is JSON but no list of entries.
    NotCommands,
}

impl CompileCommand {
    /// The entry that a JSON value holds.
    pub fn from_json(v: &Json) -> (r: Option<CompileCommand>)
        ensures
            match r {
                Some(entry) => command_in(v@) == Some(entry@),
                None => command_in(v@) is None,
            },
    {
        let directory = v.text_at("directory");
        let file = v.text_at("file");
        let command = v.optional_text_at("command");
        let arguments = match v.get("arguments") {
            None => Some(None),
            Some(Json::Null) => Some(None),
            Some(list) => match texts_from_json(list) {
                Some(arguments) => Some(Some(arguments)),
                None => None,
            },
        };
        match (directory, file, command, arguments) {
            (Some(directory), Some(file), Some(command), Some(arguments)) => Some(
                CompileCommand { directory, file, command, arguments },
            ),
            _ => None,
        }
    }
}

/// The entries of a compilation database, read from its text.
pub fn parse_compile_commands(json: &str) -> (r: Result<Vec<CompileCommand>, CompdbError>)
    ensures
        match r {
            Ok(commands) => commands_of_text(json@) == Some(commands_view(commands@)),
            Err(CompdbError::NotJson(_)) => json_parse(encode_utf8(json@)) is None,
            Err(CompdbError::NotCommands) => json_parse(encode_utf8(json@)) is Some
                && commands_of_text(json@) is None,
        },
{
    let v = match decode(json.as_bytes()) {
        Ok(v) => v,
        Err(e) => {
            return Err(
                CompdbError::NotJson(
                    match e {
                        JsonError::Read(m) => m,
                        JsonError::Write(m) => m,
                    },
                ),
            );
        },
    };
    match &v {
        Json::List(items) => {
            let ghost all = v@->List_0;
            proof {
                reveal_with_fuel(json_value, 2);
                assert(all.len() == items.len());
            }
            let mut out: Vec<CompileCommand> = Vec::new();
            let mut i: usize = 0;
            while i < items.len()
                invariant
                    i <= items.len(),
                    json_parse(encode_utf8(json@)) == Some(v@),
                    v@ == JsonValue::List(all),
                    all.len() == items.len(),
                    forall|j: int| 0 <= j < items.len() ==> all[j] == json_value(#[trigger] items[j]),
                    out@.len() == i,
                    forall|j: int| 0 <= j < i ==> command_in(all[j]) == Some((#[trigger] out@[j])@),
                decreases items.len() - i,
            {
                match CompileCommand::from_json(&items[i]) {
                    Some(entry) => {
                        out.push(entry);
                    },
                    None => {
                        assert(command_in(all[i as int]) is None);
                        return Err(CompdbError::NotCommands);
                    },
                }
                i += 1;
            }
            proof {
                assert forall|j: int| 0 <= j < all.len() implies command_in(
                    #[trigger] all[j],
                ) is Some by {
                    assert(command_in(all[j]) == Some(out@[j]@));
                }
                assert forall|j: int| 0 <= j < all.len() implies command_in(all[j])->0
                    == commands_view(out@)[j] by {
                    assert(command_in(all[j]) == Some(out@[j]@));
                }
                assert(commands_in(v@)->0 =~= commands_view(out@));
            }
            Ok(out)
        },
        _ => Err(CompdbError::NotCommands),
    }
}

/// What a look at a project directory shows of its build files.
#[derive(Debug)]
pub struct BuildFiles {
    /// Whether there is a `CMakeLists.txt`.
    pub cmake_lists: bool,
    /// Whether there is a `Cargo.toml`.
    pub cargo_toml: bool,
    /// The file endings of the entries of the directory, in the order in
    /// which the directory lists them; an entry without an ending is left
    /// out.
    pub extensions: Vec<String>,
    /// Whether there is a `Makefile`, a `makefile` or a `GNUmakefile`.
    pub makefile: bool,
}

/// The texts of a list.
pub open spec fn texts(items: Seq<String>) -> Seq<Seq<char>> {
    Seq::new(items.len(), |i: int| items[i]@)
}

/// What the first Visual Studio file among the endings says: a solution or a
/// project, or nothing where there is neither.
pub open spec fn studio_system(extensions: Seq<Seq<char>>) -> BuildSystem
    decreases extensions.len(),
{
    if extensions.len() == 0 {
        BuildSystem::Unknown
    } else if extensions[0] == "sln"@ {
        BuildSystem::Solution
    } else if extensions[0] == "vcxproj"@ {
        BuildSystem::VcxProj
    } else {
        studio_system(extensions.drop_first())
    }
}

/// The build system that a directory shows: CMake before Cargo, then the
/// first Visual Studio solution or project that the directory lists, then
/// Make.
pub open spec fn build_system_of(
    cmake_lists: bool,
    cargo_toml: bool,
    extensions: Seq<Seq<char>>,
    makefile: bool,
) -> BuildSystem {
    if cmake_lists {
        BuildSystem::CMake
    } else if cargo_toml {
        BuildSystem::Cargo
    } else if studio_system(extensions) != BuildSystem::Unknown {
        studio_system(extensions)
    } else if makefile {
        BuildSystem::Make
    } else {
        BuildSystem::Unknown
    }
}

/// The build system that a directory shows.
pub fn detect_build_system(files: &BuildFiles) -> (r: BuildSystem)
    ensures
        r == build_system_of(
            files.cmake_lists,
            files.cargo_toml,
            texts(files.extensions@),
            files.makefile,
        ),
{
    if files.cmake_lists {
        return BuildSystem::CMake;
    }
    if files.cargo_toml {
        return BuildSystem::Cargo;
    }
    let ghost all = texts(files.extensions@);
    let mut i: usize = 0;
    proof {
        assert(all.skip(0) =~= all);
    }
    while i < files.extensions.len()
        invariant
            i <= files.extensions.len(),
            !files.cmake_lists,
            !files.cargo_toml,
            all == texts(files.extensions@),
            studio_system(all) == studio_system(all.skip(i as int)),
        decreases files.extensions.len() - i,
    {
        proof {
            assert(all.skip(i as int)[0] == files.extensions@[i as int]@);
            assert(all.skip(i as int).drop_first() =~= all.skip(i as int + 1));
        }
        if str_eq(files.extensions[i].as_str(), "sln") {
            return BuildSystem::Solution;
        }
        if str_eq(files.extensions[i].as_str(), "vcxproj") {
            return BuildSystem::VcxProj;
        }
        i += 1;
    }
    if files.makefile {
        BuildSystem::Make
    } else {
        BuildSystem::Unknown
    }
}

/// How a compilation database is to be made.
#[derive(Debug)]
pub enum CompdbPlan {
    /// Run CMake on the project with the export of compile commands on; the
    /// build directory is the one given, or `build` under the project.
    CMake { source_dir: String, build_dir: Option<String>, generator: String },
    /// Read the commands that Make would run in the project.
    Make { dir: String, output: String },
    /// Read the first Visual Studio project of the directory.
    VcxProj { dir: String, output: String, configuration: String, platform: String },
    /// Read the projects of the first Visual Studio solution of the
    /// directory.
    Solution { dir: String, output: String, configuration: String, platform: String },
    /// Ask the Rust tooling for an index of the project.
    Cargo { dir: String, output: String },
}

/// What is said when a directory shows no build system.
pub open spec fn no_build_system(project_dir: Seq<char>) -> Seq<char> {
    "Could not detect build system in "@ + project_dir
        + ". \nSupported: CMakeLists.txt, Makefile, .vcxproj, .sln, Cargo.toml"@
}

/// How the compilation database of a project is to be made, by the build
/// system that its directory shows: CMake with the Ninja generator, Visual
/// Studio for `Debug` on `x64`. A directory that shows no build system is
/// answered with the message of [`no_build_system`].
pub fn generate_compile_commands(
    project_dir: &str,
    output_path: &str,
    build_dir: Option<&str>,
    files: &BuildFiles,
) -> (r: Result<CompdbPlan, String>)
    ensures
        match build_system_of(
            files.cmake_lists,
            files.cargo_toml,
            texts(files.extensions@),
            files.makefile,
        ) {
            BuildSystem::CMake => r matches Ok(
                CompdbPlan::CMake { source_dir, build_dir: planned, generator },
            ) && source_dir@ == project_dir@ && planned.deep_view() == crate::database::text_of(
                build_dir,
            ) && generator@ == "Ninja"@,
            BuildSystem::Make => r matches Ok(CompdbPlan::Make { dir, output }) && dir@
                == project_dir@ && output@ == output_path@,
            BuildSystem::VcxProj => r matches Ok(
                CompdbPlan::VcxProj { dir, output, configuration, platform },
            ) && dir@ == project_dir@ && output@ == output_path@ && configuration@ == "Debug"@
                && platform@ == "x64"@,
            BuildSystem::Solution => r matches Ok(
                CompdbPlan::Solution { dir, output, configuration, platform },
            ) && dir@ == project_dir@ && output@ == output_path@ && configuration@ == "Debug"@
                && platform@ == "x64"@,
            BuildSystem::Cargo => r matches Ok(CompdbPlan::Cargo { dir, output }) && dir@
                == project_dir@ && output@ == output_path@,
            BuildSystem::Unknown => r matches Err(message) && message@ == no_build_system(
                project_dir@,
            ),
        },
{
    match detect_build_system(files) {
        BuildSystem::CMake => Ok(
            CompdbPlan::CMake {
                source_dir: String::from_str(project_dir),
                build_dir: crate::database::owned(build_dir),
                generator: String::from_str("Ninja"),
            },
        ),
        BuildSystem::Make => Ok(
            CompdbPlan::Make {
                dir: String::from_str(project_dir),
                output: String::from_str(output_path),
            },
        ),
        BuildSystem::VcxProj => Ok(
            CompdbPlan::VcxProj {
                dir: String::from_str(project_dir),
                output: String::from_str(output_path),
                configuration: String::from_str("Debug"),
                platform: String::from_str("x64"),
            },
        ),
        BuildSystem::Solution => Ok(
            CompdbPlan::Solution {
                dir: String::from_str(project_dir),
                output: String::from_str(output_path),
                configuration: String::from_str("Debug"),
                platform: String::from_str("x64"),
            },
        ),
        BuildSystem::Cargo => Ok(
            CompdbPlan::Cargo {
                dir: String::from_str(project_dir),
                output: String::from_str(output_path),
            },
        ),
        BuildSystem::Unknown => {
            let mut message = concat2("Could not detect build system in ", project_dir);
            message.append(". \nSupported: CMakeLists.txt, Makefile, .vcxproj, .sln, Cargo.toml");
            Err(message)
        },
    }
}

/// The language of a project, from its directory: Rust where there is a
/// `Cargo.toml`, and else the language of the first file ending that is one
/// of a language. The endings are those of the directory's entries, in the
/// order in which the directory lists them.
pub open spec fn language_of_directory(cargo_toml: bool, extensions: Seq<Seq<char>>) -> ScipLanguage
    decreases extensions.len(),
{
    if cargo_toml {
        ScipLanguage::Rust
    } else if extensions.len() == 0 {
        ScipLanguage::Unknown
    } else if language_of_ending(extensions[0]) != ScipLanguage::Unknown {
        language_of_ending(extensions[0])
    } else {
        language_of_directory(false, extensions.drop_first())
    }
}

/// The language that a file ending stands for.
pub open spec fn language_of_ending(ending: Seq<char>) -> ScipLanguage {
    if ending == "rs"@ {
        ScipLanguage::Rust
    } else if ending == "cpp"@ || ending == "cxx"@ || ending == "cc"@ || ending == "c"@ || ending
        == "h"@ || ending == "hpp"@ || ending == "hxx"@ {
        ScipLanguage::Cpp
    } else if ending == "py"@ {
        ScipLanguage::Python
    } else if ending == "js"@ || ending == "mjs"@ {
        ScipLanguage::JavaScript
    } else if ending == "ts"@ {
        ScipLanguage::TypeScript
    } else if ending == "sh"@ || ending == "bash"@ {
        ScipLanguage::Shell
    } else if ending == "rb"@ {
        ScipLanguage::Ruby
    } else if ending == "php"@ {
        ScipLanguage::PHP
    } else if ending == "lua"@ {
        ScipLanguage::Lua
    } else {
        ScipLanguage::Unknown
    }
}

/// The language that a file ending stands for.
pub fn language_by_ending(ending: &str) -> (r: ScipLanguage)
    ensures
        r == language_of_ending(ending@),
{
    if str_eq(ending, "rs") {
        ScipLanguage::Rust
    } else if str_eq(ending, "cpp") || str_eq(ending, "cxx") || str_eq(ending, "cc") || str_eq(
        ending,
        "c",
    ) || str_eq(ending, "h") || str_eq(ending, "hpp") || str_eq(ending, "hxx") {
        ScipLanguage::Cpp
    } else if str_eq(ending, "py") {
        ScipLanguage::Python
    } else if str_eq(ending, "js") || str_eq(ending, "mjs") {
        ScipLanguage::JavaScript
    } else if str_eq(ending, "ts") {
        ScipLanguage::TypeScript
    } else if str_eq(ending, "sh") || str_eq(ending, "bash") {
        ScipLanguage::Shell
    } else if str_eq(ending, "rb") {
        ScipLanguage::Ruby
    } else if str_eq(ending, "php") {
        ScipLanguage::PHP
    } else if str_eq(ending, "lua") {
        ScipLanguage::Lua
    } else {
        ScipLanguage::Unknown
    }
}

/// The language of a project, from what its directory shows.
pub fn detect_language(cargo_toml: bool, extensions: &Vec<String>) -> (r: ScipLanguage)
    ensures
        r == language_of_directory(cargo_toml, texts(extensions@)),
{
    if cargo_toml {
        return ScipLanguage::Rust;
    }
    let ghost all = texts(extensions@);
    let mut i: usize = 0;
    proof {
        assert(all.skip(0) =~= all);
    }
    while i < extensions.len()
        invariant
            i <= extensions.len(),
            !cargo_toml,
            all == texts(extensions@),
            language_of_directory(false, all) == language_of_directory(false, all.skip(i as int)),
        decreases extensions.len() - i,
    {
        proof {
            assert(all.skip(i as int)[0] == extensions@[i as int]@);
            assert(all.skip(i as int).drop_first() =~= all.skip(i as int + 1));
        }
        let language = language_by_ending(extensions[i].as_str());
        if language != ScipLanguage::Unknown {
            return language;
        }
        i += 1;
    }
    ScipLanguage::Unknown
}

/// The program that makes an index for a language.
pub open spec fn tool_of(language: ScipLanguage) -> Option<Seq<char>> {
    match language {
        ScipLanguage::Rust => Some("rust-analyzer"@),
        ScipLanguage::Cpp => Some("scip-clang"@),
        ScipLanguage::Python => Some("scip-python"@),
        ScipLanguage::JavaScript | ScipLanguage::TypeScript => Some("scip-typescript"@),
        ScipLanguage::Shell => Some("scip-shell"@),
        ScipLanguage::Ruby => Some("scip-ruby"@),
        ScipLanguage::PHP => Some("vendor/bin/scip-php"@),
        ScipLanguage::Lua => Some("scip-lua"@),
        ScipLanguage::Unknown => None,
    }
}

/// The program to ask for help in order to find out whether the indexing
/// tool of a language is there; none for a language that is not known.
pub fn check_scip_tool_availability(language: &ScipLanguage) -> (r: Option<&'static str>)
    ensures
        crate::database::text_of(r) == tool_of(*language),
{
    match language {
        ScipLanguage::Rust => Some("rust-analyzer"),
        ScipLanguage::Cpp => Some("scip-clang"),
        ScipLanguage::Python => Some("scip-python"),
        ScipLanguage::JavaScript | ScipLanguage::TypeScript => Some("scip-typescript"),
        ScipLanguage::Shell => Some("scip-shell"),
        ScipLanguage::Ruby => Some("scip-ruby"),
        ScipLanguage::PHP => Some("vendor/bin/scip-php"),
        ScipLanguage::Lua => Some("scip-lua"),
        ScipLanguage::Unknown => None,
    }
}

/// One run of an indexing tool.
#[derive(Debug)]
pub struct ToolRun {
    /// The program to start.
    pub program: String,
    /// Its arguments.
    pub args: Vec<String>,
    /// The directory in which it runs.
    pub current_dir: String,
    /// A file that must be there before the run.
    pub needed_input: Option<String>,
    /// Where the index is expected after the run.
    pub output: String,
    /// Whether the tool writes the index to its standard output, from where
    /// it is to be written to `output`.
    pub output_from_stdout: bool,
    /// What to say when the program cannot be started.
    pub install_hint: String,
}

/// The arguments that the indexing tool of a language gets before the extra
/// ones.
pub open spec fn tool_arguments(
    language: ScipLanguage,
    output: Seq<char>,
    compdb: Seq<char>,
) -> Seq<Seq<char>> {
    match language {
        ScipLanguage::Rust => seq![
            "scip"@,
            "."@,
            "--output"@,
            output,
            "--exclude-vendored-libraries"@,
        ],
        ScipLanguage::Cpp => seq!["index"@, compdb, "--output"@, output],
        ScipLanguage::JavaScript | ScipLanguage::TypeScript => seq![
            "index"@,
            "--project-root"@,
            "."@,
            "--output"@,
            output,
        ],
        ScipLanguage::Shell => seq!["index"@, "."@],
        ScipLanguage::PHP => seq!["index"@, "--output"@, output],
        _ => seq!["index"@, "."@, "--output"@, output],
    }
}

/// What to say when the indexing tool of a language cannot be started.
pub open spec fn install_hint_of(language: ScipLanguage) -> Seq<char> {
    match language {
        ScipLanguage::Rust => "Failed to execute rust-analyzer. Install with: rustup component add rust-analyzer"@,
        ScipLanguage::Cpp => "Failed to execute scip-clang. Install with: cargo install scip-clang"@,
        ScipLanguage::Python => "Failed to execute scip-python. Install with: pip install scip-python"@,
        ScipLanguage::JavaScript | ScipLanguage::TypeScript => "Failed to execute scip-typescript. Install with: npm install -g @sourcegraph/scip-typescript"@,
        ScipLanguage::Shell => "Failed to execute scip-shell. Install with: cargo install scip-shell"@,
        ScipLanguage::Ruby => "Failed to execute scip-ruby. Install with: gem install scip-ruby"@,
        ScipLanguage::PHP => "Failed to execute scip-php. Install with: composer require sourcegraph/scip-php"@,
        _ => "Failed to execute scip-lua. Install scip-lua from: https://github.com/sourcegraph/scip-lua"@,
    }
}

/// What to say when the indexing tool of a language cannot be started.
fn install_hint(language: &ScipLanguage) -> (r: String)
    ensures
        r@ == install_hint_of(*language),
{
    match language {
        ScipLanguage::Rust => String::from_str(
            "Failed to execute rust-analyzer. Install with: rustup component add rust-analyzer",
        ),
        ScipLanguage::Cpp => String::from_str(
            "Failed to execute scip-clang. Install with: cargo install scip-clang",
        ),
        ScipLanguage::Python => String::from_str(
            "Failed to execute scip-python. Install with: pip install scip-python",
        ),
        ScipLanguage::JavaScript | ScipLanguage::TypeScript => String::from_str(
            "Failed to execute scip-typescript. Install with: npm install -g @sourcegraph/scip-typescript",
        ),
        ScipLanguage::Shell => String::from_str(
            "Failed to execute scip-shell. Install with: cargo install scip-shell",
        ),
        ScipLanguage::Ruby => String::from_str(
            "Failed to execute scip-ruby. Install with: gem install scip-ruby",
        ),
        ScipLanguage::PHP => String::from_str(
            "Failed to execute scip-php. Install with: composer require sourcegraph/scip-php",
        ),
        _ => String::from_str(
            "Failed to execute scip-lua. Install scip-lua from: https://github.com/sourcegraph/scip-lua",
        ),
    }
}

/// The extra arguments that a tool gets: those of the configuration, but
/// none for the shell indexer, which takes none.
pub open spec fn extra_arguments(language: ScipLanguage, extra: Seq<Seq<char>>) -> Seq<Seq<char>> {
    if language == ScipLanguage::Shell {
        Seq::empty()
    } else {
        extra
    }
}

/// The path of the compilation database of a configuration, or the empty
/// text where it has none.
pub open spec fn compdb_of(config: ScipConfig) -> Seq<char> {
    match config.compile_commands {
        Some(path) => path@,
        None => Seq::empty(),
    }
}

/// The run of the indexing tool that a configuration asks for.
///
/// A language that is not known has no tool, and C++ needs a compilation
/// database: both are answered with a message. The C++ run needs the
/// compilation database to be there; the shell indexer writes to its
/// standard output.
pub fn generate_scip_index(config: &ScipConfig) -> (r: Result<ToolRun, String>)
    ensures
        match r {
            Ok(run) => {
                &&& tool_of(config.language) == Some(run.program@)
                &&& config.language == ScipLanguage::Cpp ==> config.compile_commands is Some
                &&& texts(run.args@) == tool_arguments(
                    config.language,
                    config.output_path@,
                    compdb_of(*config),
                ) + extra_arguments(config.language, texts(config.extra_args@))
                &&& run.current_dir@ == config.project_path@
                &&& run.needed_input.deep_view() == if config.language == ScipLanguage::Cpp {
                    config.compile_commands.deep_view()
                } else {
                    None
                }
                &&& run.output@ == config.output_path@
                &&& run.output_from_stdout == (config.language == ScipLanguage::Shell)
                &&& run.install_hint@ == install_hint_of(config.language)
            },
            Err(message) => {
                ||| config.language == ScipLanguage::Unknown && message@
                    == "Unknown language for SCIP generation"@
                ||| config.language == ScipLanguage::Cpp && config.compile_commands is None
                    && message@ == "compile_commands.json is required for C++ SCIP generation"@
            },
        },
{
    let program = match check_scip_tool_availability(&config.language) {
        Some(program) => program,
        None => {
            return Err(String::from_str("Unknown language for SCIP generation"));
        },
    };
    let mut args: Vec<String> = Vec::new();
    let mut needed_input: Option<String> = None;
    let output = config.output_path.as_str();
    match config.language {
        ScipLanguage::Rust => {
            args.push(String::from_str("scip"));
            args.push(String::from_str("."));
            args.push(String::from_str("--output"));
            args.push(String::from_str(output));
            args.push(String::from_str("--exclude-vendored-libraries"));
        },
        ScipLanguage::Cpp => {
            match &config.compile_commands {
                Some(compdb) => {
                    args.push(String::from_str("index"));
                    args.push(compdb.clone());
                    args.push(String::from_str("--output"));
                    args.push(String::from_str(output));
                    needed_input = Some(compdb.clone());
                },
                None => {
                    return Err(
                        String::from_str(
                            "compile_commands.json is required for C++ SCIP generation",
                        ),
                    );
                },
            }
        },
        ScipLanguage::JavaScript | ScipLanguage::TypeScript => {
            args.push(String::from_str("index"));
            args.push(String::from_str("--project-root"));
            args.push(String::from_str("."));
            args.push(String::from_str("--output"));
            args.push(String::from_str(output));
        },
        ScipLanguage::Shell => {
            args.push(String::from_str("index"));
            args.push(String::from_str("."));
        },
        ScipLanguage::PHP => {
            args.push(String::from_str("index"));
            args.push(String::from_str("--output"));
            args.push(String::from_str(output));
        },
        _ => {
            args.push(String::from_str("index"));
            args.push(String::from_str("."));
            args.push(String::from_str("--output"));
            args.push(String::from_str(output));
        },
    }
    let ghost base = tool_arguments(config.language, config.output_path@, compdb_of(*config));
    proof {
        assert(texts(args@) =~= base);
    }
    let from_stdout = config.language == ScipLanguage::Shell;
    if !from_stdout {
        let mut i: usize = 0;
        proof {
            assert(texts(config.extra_args@).take(0) =~= Seq::empty());
            assert(base + Seq::<Seq<char>>::empty() =~= base);
        }
        while i < config.extra_args.len()
            invariant
                i <= config.extra_args.len(),
                texts(args@) == base + texts(config.extra_args@).take(i as int),
            decreases config.extra_args.len() - i,
        {
            let ghost before = texts(args@);
            args.push(config.extra_args[i].clone());
            proof {
                assert(texts(args@) =~= before.push(config.extra_args@[i as int]@));
                assert(texts(config.extra_args@).take(i as int + 1) =~= texts(
                    config.extra_args@,
                ).take(i as int).push(config.extra_args@[i as int]@));
                assert(texts(args@) =~= base + texts(config.extra_args@).take(i as int + 1));
            }
            i += 1;
        }
        proof {
            assert(texts(config.extra_args@).take(i as int) =~= texts(config.extra_args@));
        }
    } else {
        proof {
            assert(base + Seq::<Seq<char>>::empty() =~= base);
        }
    }
    Ok(
        ToolRun {
            program: String::from_str(program),
            args,
            current_dir: config.project_path.clone(),
            needed_input,
            output: config.output_path.clone(),
            output_from_stdout: from_stdout,
            install_hint: install_hint(&config.language),
        },
    )
}

} // verus!
