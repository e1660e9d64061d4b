//! Notes on a project of a scripting language, worked out from what a scan
//! found in its files.

use vstd::prelude::*;
use vstd::string::*;
use vstd::utf8::encode_utf8;
use crate::cxx::file_name_of;
use crate::json::{decode, json_parse, json_value, texts_view, Json, JsonValue};
use crate::text::{
    after_first, after_last, any_where, before_first, concat2, contains_seq, count_where, decimal,
    ends_with_seq, lemma_any_step, lemma_count_step, lines_of, lowercase, rsplit_once,
    split_first, split_last, split_once, starts_with_seq, str_contains, str_ends_with, str_eq,
    str_lines, str_starts_with, str_to_lowercase, str_trim, str_trim_matches, str_words,
    text_after_last, trimmed, usize_to_text, without_leading, without_trailing, words_of,
};

verus! {

/// What kind of file a script is.
#[derive(Debug, Clone, Copy, PartialEq, Eq, Structural)]
pub enum FileCategory {
    EntryPoint,
    UnitTest,
    IntegrationTest,
    CoreLogic,
    Utility,
    Configuration,
    Documentation,
    BuildScript,
    Unknown,
}

/// What a scan found in one script.
#[derive(Debug, Clone)]
pub struct FileInfo {
    pub path: String,
    pub language: String,
    pub category: FileCategory,
    pub purpose: String,
    pub imports: Vec<String>,
    pub exports: Vec<String>,
    pub functions: Vec<String>,
    pub classes: Vec<String>,
}

/// What a project is for.
#[derive(Debug, Clone, Copy, PartialEq, Eq, Structural)]
pub enum ProjectPurpose {
    WebApplication,
    WebAPI,
    DesktopApplication,
    Library,
    CLI,
    DataProcessing,
    MachineLearning,
    GameDevelopment,
    MobileApp,
    Unknown,
}

/// How a project is laid out.
#[derive(Debug, Clone)]
pub struct ProjectStructure {
    pub architecture: ArchitecturePattern,
    pub layers: Vec<Layer>,
    pub modules: Vec<ModuleInfo>,
}

/// The architecture that a project follows.
#[derive(Debug, Clone, Copy, PartialEq, Eq, Structural)]
pub enum ArchitecturePattern {
    MVC,
    MVP,
    MVVM,
    Layered,
    Microservices,
    Monolithic,
    Unknown,
}

/// A layer of a project and the files in it.
#[derive(Debug, Clone)]
pub struct Layer {
    pub name: String,
    pub purpose: String,
    pub files: Vec<String>,
}

/// A module of a project: a directory of files.
#[derive(Debug, Clone)]
pub struct ModuleInfo {
    pub name: String,
    pub path: String,
    pub purpose: String,
    pub dependencies: Vec<String>,
}

/// A package that a project depends on.
#[derive(Debug, Clone)]
pub struct Dependency {
    pub name: String,
    pub version: Option<String>,
    pub dep_type: DependencyType,
    pub purpose: String,
}

/// When a dependency is needed.
#[derive(Debug, Clone, Copy, PartialEq, Eq, Structural)]
pub enum DependencyType {
    Runtime,
    Development,
    Testing,
    Build,
}

/// Works out the notes on a project.
#[derive(Debug, Clone, Copy)]
pub struct ProjectAnalyzer;

/// Whether a text holds one of up to five words; an empty word stands for
/// no word.
pub open spec fn holds_one_of(
    text: Seq<char>,
    a: Seq<char>,
    b: Seq<char>,
    c: Seq<char>,
    d: Seq<char>,
    e: Seq<char>,
) -> bool {
    ||| a.len() > 0 && contains_seq(text, a)
    ||| b.len() > 0 && contains_seq(text, b)
    ||| c.len() > 0 && contains_seq(text, c)
    ||| d.len() > 0 && contains_seq(text, d)
    ||| e.len() > 0 && contains_seq(text, e)
}

/// Whether a text holds one of up to five words.
fn holds(text: &str, a: &str, b: &str, c: &str, d: &str, e: &str) -> (r: bool)
    ensures
        r == holds_one_of(text@, a@, b@, c@, d@, e@),
{
    (a.unicode_len() > 0 && str_contains(text, a)) || (b.unicode_len() > 0 && str_contains(text, b))
        || (c.unicode_len() > 0 && str_contains(text, c)) || (d.unicode_len() > 0 && str_contains(
        text,
        d,
    )) || (e.unicode_len() > 0 && str_contains(text, e))
}

/// Whether one of the imports holds one of the words.
pub open spec fn import_holds(
    imports: Seq<String>,
    a: Seq<char>,
    b: Seq<char>,
    c: Seq<char>,
    d: Seq<char>,
    e: Seq<char>,
) -> bool {
    any_where(imports, |import: String| holds_one_of(import@, a, b, c, d, e))
}

/// Whether one of the imports holds one of the words.
fn some_import_holds(imports: &Vec<String>, a: &str, b: &str, c: &str, d: &str, e: &str) -> (r:
    bool)
    ensures
        r == import_holds(imports@, a@, b@, c@, d@, e@),
{
    let ghost chosen = |import: String| holds_one_of(import@, a@, b@, c@, d@, e@);
    let mut found = false;
    let mut i: usize = 0;
    proof {
        assert(imports@.take(0) =~= Seq::empty());
    }
    while i < imports.len()
        invariant
            i <= imports.len(),
            chosen == |import: String| holds_one_of(import@, a@, b@, c@, d@, e@),
            found == any_where(imports@.take(i as int), chosen),
        decreases imports.len() - i,
    {
        proof {
            lemma_any_step(imports@, i as int, chosen);
        }
        if holds(imports[i].as_str(), a, b, c, d, e) {
            found = true;
        }
        i += 1;
    }
    proof {
        assert(imports@.take(i as int) =~= imports@);
    }
    found
}

/// Whether a file speaks for a web application: by its path in lower case.
pub open spec fn is_web_file(file: FileInfo) -> bool {
    holds_one_of(lowercase(file.path@), "template"@, "static"@, "html"@, "css"@, ""@)
}

/// Whether a file speaks for a web API: by its path in lower case.
pub open spec fn is_api_file(file: FileInfo) -> bool {
    holds_one_of(lowercase(file.path@), "api"@, "endpoint"@, "route"@, ""@, ""@)
}

/// Whether a file speaks for a command-line tool: by its path in lower case
/// or by an import of a library for command lines.
pub open spec fn is_cli_file(file: FileInfo) -> bool {
    holds_one_of(lowercase(file.path@), "cli"@, "command"@, ""@, ""@, ""@) || import_holds(
        file.imports@,
        "argparse"@,
        "click"@,
        ""@,
        ""@,
        ""@,
    )
}

/// Whether a file speaks for a library: by its path in lower case or as the
/// root of a Python package.
pub open spec fn is_library_file(file: FileInfo) -> bool {
    contains_seq(lowercase(file.path@), "lib"@) || ends_with_seq(file.path@, "__init__.py"@)
}

/// Whether a file speaks for machine learning: by an import.
pub open spec fn is_learning_file(file: FileInfo) -> bool {
    import_holds(file.imports@, "tensorflow"@, "pytorch"@, "sklearn"@, "numpy"@, "pandas"@)
}

/// What a project of scripts is for, from how many of its files speak for
/// each purpose: machine learning where any does; else a web application
/// where more files speak for it than for a web API; else a web API, a
/// command-line tool or a library, the first for which a file speaks.
pub open spec fn project_purpose(files: Seq<FileInfo>) -> ProjectPurpose {
    let web = count_where(files, |f: FileInfo| is_web_file(f));
    let api = count_where(files, |f: FileInfo| is_api_file(f));
    let cli = count_where(files, |f: FileInfo| is_cli_file(f));
    let library = count_where(files, |f: FileInfo| is_library_file(f));
    let learning = count_where(files, |f: FileInfo| is_learning_file(f));
    if learning > 0 {
        ProjectPurpose::MachineLearning
    } else if web > api && web > 0 {
        ProjectPurpose::WebApplication
    } else if api > 0 {
        ProjectPurpose::WebAPI
    } else if cli > 0 {
        ProjectPurpose::CLI
    } else if library > 0 {
        ProjectPurpose::Library
    } else {
        ProjectPurpose::Unknown
    }
}

/// The name of a layer with what the layer is for, or nothing where the path
/// puts the file in no layer: data before business before presentation
/// before utility.
pub open spec fn layer_of(path: Seq<char>) -> Option<Seq<char>> {
    if contains_seq(path, "model"@) || contains_seq(path, "entity"@) {
        Some("Data Layer"@)
    } else if contains_seq(path, "service"@) || contains_seq(path, "business"@) {
        Some("Business Layer"@)
    } else if contains_seq(path, "controller"@) || contains_seq(path, "handler"@) || contains_seq(
        path,
        "api"@,
    ) {
        Some("Presentation Layer"@)
    } else if contains_seq(path, "util"@) || contains_seq(path, "helper"@) {
        Some("Utility Layer"@)
    } else {
        None
    }
}

/// What a layer is for.
pub open spec fn layer_purpose(name: Seq<char>) -> Seq<char> {
    if name == "Data Layer"@ {
        "Data models and persistence"@
    } else if name == "Business Layer"@ {
        "Business logic and services"@
    } else if name == "Presentation Layer"@ {
        "User interface and API endpoints"@
    } else if name == "Utility Layer"@ {
        "Helper functions and utilities"@
    } else {
        "Unknown purpose"@
    }
}

/// The architecture that the paths of a project show: MVC where there are
/// models, views and controllers; else layered where a path speaks of
/// services or layers.
pub open spec fn architecture_of(files: Seq<FileInfo>) -> ArchitecturePattern {
    let models = any_where(files, |f: FileInfo| contains_seq(f.path@, "model"@));
    let views = any_where(
        files,
        |f: FileInfo| contains_seq(f.path@, "view"@) || contains_seq(f.path@, "template"@),
    );
    let controllers = any_where(
        files,
        |f: FileInfo| contains_seq(f.path@, "controller"@) || contains_seq(f.path@, "handler"@),
    );
    let layered = any_where(
        files,
        |f: FileInfo| contains_seq(f.path@, "service"@) || contains_seq(f.path@, "layer"@),
    );
    if models && views && controllers {
        ArchitecturePattern::MVC
    } else if layered {
        ArchitecturePattern::Layered
    } else {
        ArchitecturePattern::Unknown
    }
}

/// What a dependency is for, by the first word that its name holds.
pub open spec fn dependency_purpose(name: Seq<char>) -> Seq<char> {
    if contains_seq(name, "test"@) || contains_seq(name, "jest"@) || contains_seq(name, "mocha"@) {
        "Testing framework"@
    } else if contains_seq(name, "express"@) || contains_seq(name, "flask"@) || contains_seq(
        name,
        "django"@,
    ) {
        "Web framework"@
    } else if contains_seq(name, "react"@) || contains_seq(name, "vue"@) || contains_seq(
        name,
        "angular"@,
    ) {
        "Frontend framework"@
    } else if contains_seq(name, "database"@) || contains_seq(name, "sql"@) || contains_seq(
        name,
        "mongo"@,
    ) {
        "Database connectivity"@
    } else if contains_seq(name, "auth"@) {
        "Authentication"@
    } else if contains_seq(name, "log"@) {
        "Logging"@
    } else if contains_seq(name, "config"@) {
        "Configuration management"@
    } else {
        "General purpose library"@
    }
}

/// What a module with a well-known name is for.
pub open spec fn known_module_purpose(name: Seq<char>) -> Option<Seq<char>> {
    if name == "auth"@ || name == "authentication"@ {
        Some("User authentication and authorization"@)
    } else if name == "api"@ {
        Some("API endpoints and routing"@)
    } else if name == "models"@ || name == "model"@ {
        Some("Data models and schemas"@)
    } else if name == "services"@ || name == "service"@ {
        Some("Business logic services"@)
    } else if name == "utils"@ || name == "utilities"@ {
        Some("Utility functions and helpers"@)
    } else if name == "tests"@ || name == "test"@ {
        Some("Test cases and test utilities"@)
    } else if name == "config"@ || name == "configuration"@ {
        Some("Configuration management"@)
    } else {
        None
    }
}

/// What a module is for: by its name where that is well known, and else by
/// the categories of its files, unit tests before core logic.
pub open spec fn module_purpose(name: Seq<char>, categories: Seq<FileCategory>) -> Seq<char> {
    match known_module_purpose(name) {
        Some(purpose) => purpose,
        None => if categories.contains(FileCategory::UnitTest) {
            "Testing module"@
        } else if categories.contains(FileCategory::CoreLogic) {
            "Core functionality module"@
        } else {
            "General purpose module"@
        },
    }
}

/// Whether the category is among the categories.
fn has_category(categories: &Vec<FileCategory>, wanted: FileCategory) -> (r: bool)
    ensures
        r == categories@.contains(wanted),
{
    let mut i: usize = 0;
    while i < categories.len()
        invariant
            i <= categories.len(),
            forall|j: int| 0 <= j < i ==> categories@[j] != wanted,
        decreases categories.len() - i,
    {
        if categories[i] == wanted {
            return true;
        }
        i += 1;
    }
    false
}

/// The paths of the files that are entry points, in the order of the files.
pub open spec fn entry_paths(files: Seq<FileInfo>) -> Seq<Seq<char>> {
    files.filter(|f: FileInfo| f.category == FileCategory::EntryPoint).map_values(
        |f: FileInfo| f.path@,
    )
}

/// The category of a script, from its path and file name in lower case, its
/// text and its language. The first rule that applies decides.
pub open spec fn script_category(
    path: Seq<char>,
    name: Seq<char>,
    content: Seq<char>,
    language: Seq<char>,
) -> FileCategory {
    if name == "main.py"@ || name == "app.py"@ || name == "index.js"@ || name == "server.js"@
        || name == "__main__.py"@ {
        FileCategory::EntryPoint
    } else if contains_seq(path, "test"@) || contains_seq(path, "spec"@) || starts_with_seq(
        name,
        "test_"@,
    ) || ends_with_seq(name, "_test.py"@) || ends_with_seq(name, ".test.js"@) || ends_with_seq(
        name,
        ".spec.js"@,
    ) {
        if contains_seq(path, "integration"@) || contains_seq(path, "e2e"@) {
            FileCategory::IntegrationTest
        } else {
            FileCategory::UnitTest
        }
    } else if ends_with_seq(name, ".config.js"@) || name == "setup.py"@ || name == "package.json"@
        || name == "requirements.txt"@ || name == "pyproject.toml"@ {
        FileCategory::Configuration
    } else if name == "build.py"@ || name == "gulpfile.js"@ {
        FileCategory::BuildScript
    } else if ends_with_seq(name, ".md"@) || contains_seq(path, "doc"@) {
        FileCategory::Documentation
    } else if contains_seq(path, "util"@) || contains_seq(path, "helper"@) || contains_seq(
        path,
        "common"@,
    ) || starts_with_seq(name, "utils"@) {
        FileCategory::Utility
    } else if has_main_logic(content, language) {
        FileCategory::CoreLogic
    } else {
        FileCategory::Unknown
    }
}

/// Whether the text of a script looks like the logic of an application:
/// classes and functions, and no sign of a test framework.
pub open spec fn has_main_logic(content: Seq<char>, language: Seq<char>) -> bool {
    if language == "python"@ {
        contains_seq(content, "class "@) && contains_seq(content, "def "@) && !contains_seq(
            content,
            "import unittest"@,
        ) && !contains_seq(content, "import pytest"@)
    } else if language == "javascript"@ || language == "typescript"@ {
        (contains_seq(content, "class "@) || contains_seq(content, "function "@)) && !contains_seq(
            content,
            "describe("@,
        ) && !contains_seq(content, "it("@) && !contains_seq(content, "test("@)
    } else {
        false
    }
}

/// What a script is for, from its category and, for the logic of an
/// application, from what its text speaks of.
pub open spec fn script_purpose(content: Seq<char>, category: FileCategory) -> Seq<char> {
    match category {
        FileCategory::EntryPoint => "Application entry point"@,
        FileCategory::UnitTest => "Unit tests"@,
        FileCategory::IntegrationTest => "Integration tests"@,
        FileCategory::Configuration => "Configuration file"@,
        FileCategory::BuildScript => "Build automation script"@,
        FileCategory::Documentation => "Documentation"@,
        FileCategory::Utility => "Utility functions and helpers"@,
        FileCategory::CoreLogic => if contains_seq(content, "database"@) || contains_seq(
            content,
            "db"@,
        ) {
            "Database operations"@
        } else if contains_seq(content, "api"@) || contains_seq(content, "endpoint"@) {
            "API endpoints"@
        } else if contains_seq(content, "model"@) || contains_seq(content, "schema"@) {
            "Data models"@
        } else {
            "Core application logic"@
        },
        FileCategory::Unknown => "Unknown purpose"@,
    }
}

/// Whether the text of a script looks like the logic of an application.
pub fn has_main_logic_patterns(content: &str, language: &str) -> (r: bool)
    ensures
        r == has_main_logic(content@, language@),
{
    if str_eq(language, "python") {
        str_contains(content, "class ") && str_contains(content, "def ") && !str_contains(
            content,
            "import unittest",
        ) && !str_contains(content, "import pytest")
    } else if str_eq(language, "javascript") || str_eq(language, "typescript") {
        (str_contains(content, "class ") || str_contains(content, "function ")) && !str_contains(
            content,
            "describe(",
        ) && !str_contains(content, "it(") && !str_contains(content, "test(")
    } else {
        false
    }
}

/// The category of a script, from its path and file name in lower case, its
/// text and its language.
pub fn categorize_file(path: &str, name: &str, content: &str, language: &str) -> (r: FileCategory)
    ensures
        r == script_category(path@, name@, content@, language@),
{
    if str_eq(name, "main.py") || str_eq(name, "app.py") || str_eq(name, "index.js") || str_eq(
        name,
        "server.js",
    ) || str_eq(name, "__main__.py") {
        return FileCategory::EntryPoint;
    }
    if str_contains(path, "test") || str_contains(path, "spec") || str_starts_with(name, "test_")
        || str_ends_with(name, "_test.py") || str_ends_with(name, ".test.js") || str_ends_with(
        name,
        ".spec.js",
    ) {
        if str_contains(path, "integration") || str_contains(path, "e2e") {
            return FileCategory::IntegrationTest;
        }
        return FileCategory::UnitTest;
    }
    if str_ends_with(name, ".config.js") || str_eq(name, "setup.py") || str_eq(
        name,
        "package.json",
    ) || str_eq(name, "requirements.txt") || str_eq(name, "pyproject.toml") {
        return FileCategory::Configuration;
    }
    if str_eq(name, "setup.py") || str_eq(name, "build.py") || str_eq(name, "webpack.config.js")
        || str_eq(name, "gulpfile.js") {
        proof {
            reveal_strlit("webpack.config.js");
            reveal_strlit(".config.js");
            if name@ == "webpack.config.js"@ {
                assert(name@.subrange(7, 17) =~= ".config.js"@);
            }
        }
        return FileCategory::BuildScript;
    }
    if str_ends_with(name, ".md") || str_contains(path, "doc") {
        return FileCategory::Documentation;
    }
    if str_contains(path, "util") || str_contains(path, "helper") || str_contains(path, "common")
        || str_starts_with(name, "utils") {
        return FileCategory::Utility;
    }
    if has_main_logic_patterns(content, language) {
        return FileCategory::CoreLogic;
    }
    FileCategory::Unknown
}

/// What a script is for.
pub fn infer_purpose(content: &str, category: &FileCategory) -> (r: String)
    ensures
        r@ == script_purpose(content@, *category),
{
    match category {
        FileCategory::EntryPoint => String::from_str("Application entry point"),
        FileCategory::UnitTest => String::from_str("Unit tests"),
        FileCategory::IntegrationTest => String::from_str("Integration tests"),
        FileCategory::Configuration => String::from_str("Configuration file"),
        FileCategory::BuildScript => String::from_str("Build automation script"),
        FileCategory::Documentation => String::from_str("Documentation"),
        FileCategory::Utility => String::from_str("Utility functions and helpers"),
        FileCategory::CoreLogic => {
            if str_contains(content, "database") || str_contains(content, "db") {
                String::from_str("Database operations")
            } else if str_contains(content, "api") || str_contains(content, "endpoint") {
                String::from_str("API endpoints")
            } else if str_contains(content, "model") || str_contains(content, "schema") {
                String::from_str("Data models")
            } else {
                String::from_str("Core application logic")
            }
        },
        FileCategory::Unknown => String::from_str("Unknown purpose"),
    }
}

impl ProjectAnalyzer {
    /// What a project of scripts is for.
    pub fn infer_project_purpose(files: &[FileInfo]) -> (r: ProjectPurpose)
        ensures
            r == project_purpose(files@),
    {
        let ghost is_web = |f: FileInfo| is_web_file(f);
        let ghost is_api = |f: FileInfo| is_api_file(f);
        let ghost is_cli = |f: FileInfo| is_cli_file(f);
        let ghost is_library = |f: FileInfo| is_library_file(f);
        let ghost is_learning = |f: FileInfo| is_learning_file(f);
        let mut web: usize = 0;
        let mut api: usize = 0;
        let mut cli: usize = 0;
        let mut library: usize = 0;
        let mut learning: usize = 0;
        let mut i: usize = 0;
        proof {
            assert(files@.take(0) =~= Seq::empty());
        }
        while i < files.len()
            invariant
                i <= files.len(),
                is_web == |f: FileInfo| is_web_file(f),
                is_api == |f: FileInfo| is_api_file(f),
                is_cli == |f: FileInfo| is_cli_file(f),
                is_library == |f: FileInfo| is_library_file(f),
                is_learning == |f: FileInfo| is_learning_file(f),
                web == count_where(files@.take(i as int), is_web),
                api == count_where(files@.take(i as int), is_api),
                cli == count_where(files@.take(i as int), is_cli),
                library == count_where(files@.take(i as int), is_library),
                learning == count_where(files@.take(i as int), is_learning),
                web <= i && api <= i && cli <= i && library <= i && learning <= i,
            decreases files.len() - i,
        {
            proof {
                lemma_count_step(files@, i as int, is_web);
                lemma_count_step(files@, i as int, is_api);
                lemma_count_step(files@, i as int, is_cli);
                lemma_count_step(files@, i as int, is_library);
                lemma_count_step(files@, i as int, is_learning);
            }
            let file = &files[i];
            let path = str_to_lowercase(file.path.as_str());
            if holds(path.as_str(), "template", "static", "html", "css", "") {
                web += 1;
            }
            if holds(path.as_str(), "api", "endpoint", "route", "", "") {
                api += 1;
            }
            if holds(path.as_str(), "cli", "command", "", "", "") || some_import_holds(
                &file.imports,
                "argparse",
                "click",
                "",
                "",
                "",
            ) {
                cli += 1;
            }
            if str_contains(path.as_str(), "lib") || str_ends_with(
                file.path.as_str(),
                "__init__.py",
            ) {
                library += 1;
            }
            if some_import_holds(
                &file.imports,
                "tensorflow",
                "pytorch",
                "sklearn",
                "numpy",
                "pandas",
            ) {
                learning += 1;
            }
            i += 1;
        }
        proof {
            assert(files@.take(i as int) =~= files@);
        }
        if learning > 0 {
            ProjectPurpose::MachineLearning
        } else if web > api && web > 0 {
            ProjectPurpose::WebApplication
        } else if api > 0 {
            ProjectPurpose::WebAPI
        } else if cli > 0 {
            ProjectPurpose::CLI
        } else if library > 0 {
            ProjectPurpose::Library
        } else {
            ProjectPurpose::Unknown
        }
    }

    /// The architecture that the paths of a project show.
    pub fn detect_architecture(files: &[FileInfo]) -> (r: ArchitecturePattern)
        ensures
            r == architecture_of(files@),
    {
        let ghost is_model = |f: FileInfo| contains_seq(f.path@, "model"@);
        let ghost is_view = |f: FileInfo|
            contains_seq(f.path@, "view"@) || contains_seq(f.path@, "template"@);
        let ghost is_controller = |f: FileInfo|
            contains_seq(f.path@, "controller"@) || contains_seq(f.path@, "handler"@);
        let ghost is_layered = |f: FileInfo|
            contains_seq(f.path@, "service"@) || contains_seq(f.path@, "layer"@);
        let mut models = false;
        let mut views = false;
        let mut controllers = false;
        let mut layered = false;
        let mut i: usize = 0;
        proof {
            assert(files@.take(0) =~= Seq::empty());
        }
        while i < files.len()
            invariant
                i <= files.len(),
                is_model == |f: FileInfo| contains_seq(f.path@, "model"@),
                is_view == |f: FileInfo|
                    contains_seq(f.path@, "view"@) || contains_seq(f.path@, "template"@),
                is_controller == |f: FileInfo|
                    contains_seq(f.path@, "controller"@) || contains_seq(f.path@, "handler"@),
                is_layered == |f: FileInfo|
                    contains_seq(f.path@, "service"@) || contains_seq(f.path@, "layer"@),
                models == any_where(files@.take(i as int), is_model),
                views == any_where(files@.take(i as int), is_view),
                controllers == any_where(files@.take(i as int), is_controller),
                layered == any_where(files@.take(i as int), is_layered),
            decreases files.len() - i,
        {
            proof {
                lemma_any_step(files@, i as int, is_model);
                lemma_any_step(files@, i as int, is_view);
                lemma_any_step(files@, i as int, is_controller);
                lemma_any_step(files@, i as int, is_layered);
            }
            let path = files[i].path.as_str();
            if str_contains(path, "model") {
                models = true;
            }
            if str_contains(path, "view") || str_contains(path, "template") {
                views = true;
            }
            if str_contains(path, "controller") || str_contains(path, "handler") {
                controllers = true;
            }
            if str_contains(path, "service") || str_contains(path, "layer") {
                layered = true;
            }
            i += 1;
        }
        proof {
            assert(files@.take(i as int) =~= files@);
        }
        if models && views && controllers {
            ArchitecturePattern::MVC
        } else if layered {
            ArchitecturePattern::Layered
        } else {
            ArchitecturePattern::Unknown
        }
    }

    /// What a dependency is for.
    pub fn infer_dependency_purpose(name: &str) -> (r: String)
        ensures
            r@ == dependency_purpose(name@),
    {
        if str_contains(name, "test") || str_contains(name, "jest") || str_contains(name, "mocha") {
            String::from_str("Testing framework")
        } else if str_contains(name, "express") || str_contains(name, "flask") || str_contains(
            name,
            "django",
        ) {
            String::from_str("Web framework")
        } else if str_contains(name, "react") || str_contains(name, "vue") || str_contains(
            name,
            "angular",
        ) {
            String::from_str("Frontend framework")
        } else if str_contains(name, "database") || str_contains(name, "sql") || str_contains(
            name,
            "mongo",
        ) {
            String::from_str("Database connectivity")
        } else if str_contains(name, "auth") {
            String::from_str("Authentication")
        } else if str_contains(name, "log") {
            String::from_str("Logging")
        } else if str_contains(name, "config") {
            String::from_str("Configuration management")
        } else {
            String::from_str("General purpose library")
        }
    }

    /// What a module is for, from its name and the categories of its files.
    pub fn infer_module_purpose(name: &str, categories: &Vec<FileCategory>) -> (r: String)
        ensures
            r@ == module_purpose(name@, categories@),
    {
        if str_eq(name, "auth") || str_eq(name, "authentication") {
            String::from_str("User authentication and authorization")
        } else if str_eq(name, "api") {
            String::from_str("API endpoints and routing")
        } else if str_eq(name, "models") || str_eq(name, "model") {
            String::from_str("Data models and schemas")
        } else if str_eq(name, "services") || str_eq(name, "service") {
            String::from_str("Business logic services")
        } else if str_eq(name, "utils") || str_eq(name, "utilities") {
            String::from_str("Utility functions and helpers")
        } else if str_eq(name, "tests") || str_eq(name, "test") {
            String::from_str("Test cases and test utilities")
        } else if str_eq(name, "config") || str_eq(name, "configuration") {
            String::from_str("Configuration management")
        } else if has_category(categories, FileCategory::UnitTest) {
            String::from_str("Testing module")
        } else if has_category(categories, FileCategory::CoreLogic) {
            String::from_str("Core functionality module")
        } else {
            String::from_str("General purpose module")
        }
    }

    /// The paths of the files that are entry points, in the order of the
    /// files.
    pub fn find_entry_points(files: &[FileInfo]) -> (r: Vec<String>)
        ensures
            r.deep_view() == entry_paths(files@),
    {
        let ghost chosen = |f: FileInfo| f.category == FileCategory::EntryPoint;
        let ghost path_of = |f: FileInfo| f.path@;
        let mut found: Vec<String> = Vec::new();
        let mut i: usize = 0;
        proof {
            assert(files@.take(0) =~= Seq::empty());
            assert(found.deep_view() =~= files@.take(0).filter(chosen).map_values(path_of));
        }
        while i < files.len()
            invariant
                i <= files.len(),
                chosen == |f: FileInfo| f.category == FileCategory::EntryPoint,
                path_of == |f: FileInfo| f.path@,
                found.deep_view() == files@.take(i as int).filter(chosen).map_values(path_of),
            decreases files.len() - i,
        {
            let ghost before = found.deep_view();
            proof {
                crate::database::lemma_filter_step(files@, i as int, chosen);
            }
            if files[i].category == FileCategory::EntryPoint {
                found.push(files[i].path.clone());
                proof {
                    assert(found.deep_view() =~= before.push(files@[i as int].path@));
                    assert(files@.take(i as int + 1).filter(chosen).map_values(path_of)
                        =~= files@.take(i as int).filter(chosen).map_values(path_of).push(
                        files@[i as int].path@,
                    ));
                }
            }
            i += 1;
        }
        proof {
            assert(files@.take(i as int) =~= files@);
        }
        found
    }
}

/// The paths of the files that belong to the layer called `name`, in the
/// order of the files.
pub open spec fn layer_paths(files: Seq<FileInfo>, name: Seq<char>) -> Seq<Seq<char>> {
    files.filter(|f: FileInfo| layer_of(f.path@) == Some(name)).map_values(|f: FileInfo| f.path@)
}

/// The mathematical value of a [`Layer`].
pub struct LayerView {
    pub name: Seq<char>,
    pub purpose: Seq<char>,
    pub files: Seq<Seq<char>>,
}

impl View for Layer {
    type V = LayerView;

    open spec fn view(&self) -> LayerView {
        LayerView { name: self.name@, purpose: self.purpose@, files: texts_view(self.files@) }
    }
}

/// The layer called `name` where a file belongs to it, and else nothing.
pub open spec fn layer_if_any(files: Seq<FileInfo>, name: Seq<char>) -> Seq<LayerView> {
    if layer_paths(files, name).len() > 0 {
        seq![LayerView { name, purpose: layer_purpose(name), files: layer_paths(files, name) }]
    } else {
        Seq::empty()
    }
}

/// The layers of a project: those to which a file belongs, the data layer
/// before the business layer before the presentation layer before the
/// utility layer, each with the paths of its files.
pub open spec fn layers_of(files: Seq<FileInfo>) -> Seq<LayerView> {
    layer_if_any(files, "Data Layer"@) + layer_if_any(files, "Business Layer"@) + layer_if_any(
        files,
        "Presentation Layer"@,
    ) + layer_if_any(files, "Utility Layer"@)
}

/// The values of a list of layers.
pub open spec fn layers_view(layers: Seq<Layer>) -> Seq<LayerView> {
    Seq::new(layers.len(), |i: int| layers[i]@)
}

/// The name of the layer that a path puts a file in.
pub fn layer_name(path: &str) -> (r: Option<&'static str>)
    ensures
        crate::database::text_of(r) == layer_of(path@),
{
    if str_contains(path, "model") || str_contains(path, "entity") {
        Some("Data Layer")
    } else if str_contains(path, "service") || str_contains(path, "business") {
        Some("Business Layer")
    } else if str_contains(path, "controller") || str_contains(path, "handler") || str_contains(
        path,
        "api",
    ) {
        Some("Presentation Layer")
    } else if str_contains(path, "util") || str_contains(path, "helper") {
        Some("Utility Layer")
    } else {
        None
    }
}

/// What a layer is for.
fn purpose_of_layer(name: &str) -> (r: String)
    ensures
        r@ == layer_purpose(name@),
{
    if str_eq(name, "Data Layer") {
        String::from_str("Data models and persistence")
    } else if str_eq(name, "Business Layer") {
        String::from_str("Business logic and services")
    } else if str_eq(name, "Presentation Layer") {
        String::from_str("User interface and API endpoints")
    } else if str_eq(name, "Utility Layer") {
        String::from_str("Helper functions and utilities")
    } else {
        String::from_str("Unknown purpose")
    }
}

/// Adds the layer called `name` to the layers where a file belongs to it.
fn add_layer(layers: &mut Vec<Layer>, files: &[FileInfo], name: &str)
    ensures
        layers_view(final(layers)@) == layers_view(old(layers)@) + layer_if_any(files@, name@),
{
    let ghost before = layers_view(layers@);
    let ghost chosen = |f: FileInfo| layer_of(f.path@) == Some(name@);
    let ghost path_of = |f: FileInfo| f.path@;
    let mut paths: Vec<String> = Vec::new();
    let mut i: usize = 0;
    proof {
        assert(files@.take(0) =~= Seq::empty());
        assert(paths.deep_view() =~= files@.take(0).filter(chosen).map_values(path_of));
    }
    while i < files.len()
        invariant
            i <= files.len(),
            chosen == |f: FileInfo| layer_of(f.path@) == Some(name@),
            path_of == |f: FileInfo| f.path@,
            paths.deep_view() == files@.take(i as int).filter(chosen).map_values(path_of),
        decreases files.len() - i,
    {
        let ghost paths_before = paths.deep_view();
        proof {
            crate::database::lemma_filter_step(files@, i as int, chosen);
        }
        let belongs = match layer_name(files[i].path.as_str()) {
            Some(layer) => str_eq(layer, name),
            None => false,
        };
        if belongs {
            paths.push(files[i].path.clone());
            proof {
                assert(paths.deep_view() =~= paths_before.push(files@[i as int].path@));
                assert(files@.take(i as int + 1).filter(chosen).map_values(path_of)
                    =~= files@.take(i as int).filter(chosen).map_values(path_of).push(
                    files@[i as int].path@,
                ));
            }
        }
        i += 1;
    }
    proof {
        assert(files@.take(i as int) =~= files@);
        assert(texts_view(paths@) =~= paths.deep_view());
    }
    if paths.len() > 0 {
        let layer = Layer { name: String::from_str(name), purpose: purpose_of_layer(name), files: paths };
        layers.push(layer);
        proof {
            assert(layers_view(layers@) =~= before + seq![layer@]);
        }
    } else {
        proof {
            assert(layers_view(layers@) =~= before + Seq::<LayerView>::empty());
        }
    }
}

/// The module that an import names: the second word of a `from` import, and
/// of an `import` the second word up to its first dot.
pub open spec fn imported_module(import: Seq<char>) -> Option<Seq<char>> {
    if starts_with_seq(import, "from "@) {
        if words_of(import).len() > 1 {
            Some(words_of(import)[1])
        } else {
            None
        }
    } else if starts_with_seq(import, "import "@) {
        if words_of(import).len() > 1 {
            Some(before_first(words_of(import)[1], "."@))
        } else {
            None
        }
    } else {
        None
    }
}

/// The name of the module that a file belongs to: the name of the directory
/// that holds the file, where its path has one.
pub open spec fn module_name_of(path: Seq<char>) -> Option<Seq<char>> {
    match split_last(path, "/"@) {
        Some(parts) => Some(after_last(parts.0, "/"@)),
        None => None,
    }
}

/// A list of names with one more name noted: it comes last where the list
/// did not have it.
pub open spec fn noted(names: Seq<Seq<char>>, name: Seq<char>) -> Seq<Seq<char>> {
    if names.contains(name) {
        names
    } else {
        names.push(name)
    }
}

/// The names of the modules of the files, each once, in the order in which
/// they are first met.
pub open spec fn module_names(files: Seq<FileInfo>) -> Seq<Seq<char>>
    decreases files.len(),
{
    if files.len() == 0 {
        Seq::empty()
    } else {
        let rest = module_names(files.drop_last());
        match module_name_of(files.last().path@) {
            Some(name) => noted(rest, name),
            None => rest,
        }
    }
}

/// The names noted so far with the modules that the imports name.
pub open spec fn with_imports(imports: Seq<String>, so_far: Seq<Seq<char>>) -> Seq<Seq<char>>
    decreases imports.len(),
{
    if imports.len() == 0 {
        so_far
    } else {
        let rest = with_imports(imports.drop_last(), so_far);
        match imported_module(imports.last()@) {
            Some(module) => noted(rest, module),
            None => rest,
        }
    }
}

/// The modules that the files of the module called `name` import, each
/// once, in the order in which they are first met.
pub open spec fn module_dependencies(files: Seq<FileInfo>, name: Seq<char>) -> Seq<Seq<char>>
    decreases files.len(),
{
    if files.len() == 0 {
        Seq::empty()
    } else {
        let rest = module_dependencies(files.drop_last(), name);
        if module_name_of(files.last().path@) == Some(name) {
            with_imports(files.last().imports@, rest)
        } else {
            rest
        }
    }
}

/// The modules that the files import, each once, in the order in which they
/// are first met.
pub open spec fn all_dependencies(files: Seq<FileInfo>) -> Seq<Seq<char>>
    decreases files.len(),
{
    if files.len() == 0 {
        Seq::empty()
    } else {
        with_imports(files.last().imports@, all_dependencies(files.drop_last()))
    }
}

/// The categories of the files of the module called `name`.
pub open spec fn module_categories(files: Seq<FileInfo>, name: Seq<char>) -> Seq<FileCategory> {
    files.filter(|f: FileInfo| module_name_of(f.path@) == Some(name)).map_values(
        |f: FileInfo| f.category,
    )
}

/// The mathematical value of a [`ModuleInfo`].
pub struct ModuleInfoView {
    pub name: Seq<char>,
    pub path: Seq<char>,
    pub purpose: Seq<char>,
    pub dependencies: Seq<Seq<char>>,
}

impl View for ModuleInfo {
    type V = ModuleInfoView;

    open spec fn view(&self) -> ModuleInfoView {
        ModuleInfoView {
            name: self.name@,
            path: self.path@,
            purpose: self.purpose@,
            dependencies: texts_view(self.dependencies@),
        }
    }
}

/// The module called `name`: its path is its name, its purpose that of
/// [`module_purpose`], and its dependencies the modules that its files
/// import.
pub open spec fn module_called(files: Seq<FileInfo>, name: Seq<char>) -> ModuleInfoView {
    ModuleInfoView {
        name,
        path: name,
        purpose: module_purpose(name, module_categories(files, name)),
        dependencies: module_dependencies(files, name),
    }
}

/// The modules of a project: one for each directory that holds a file, in
/// the order in which the directories are first met.
pub open spec fn modules_of(files: Seq<FileInfo>) -> Seq<ModuleInfoView> {
    Seq::new(module_names(files).len(), |i: int| module_called(files, module_names(files)[i]))
}

/// The values of a list of modules.
pub open spec fn modules_view(modules: Seq<ModuleInfo>) -> Seq<ModuleInfoView> {
    Seq::new(modules.len(), |i: int| modules[i]@)
}

/// The name of the module that a file belongs to.
pub fn module_name(path: &str) -> (r: Option<String>)
    ensures
        r.deep_view() == module_name_of(path@),
{
    proof {
        reveal_strlit("/");
    }
    match rsplit_once(path, "/") {
        Some(parts) => Some(String::from_str(text_after_last(parts.0, "/"))),
        None => None,
    }
}

/// Notes a name in a list of names.
pub fn note(names: &mut Vec<String>, name: String)
    ensures
        final(names).deep_view() == noted(old(names).deep_view(), name@),
{
    let ghost before = names.deep_view();
    let mut i: usize = 0;
    while i < names.len()
        invariant
            i <= names.len(),
            names.deep_view() == before,
            before == old(names).deep_view(),
            forall|k: int| 0 <= k < i ==> before[k] != name@,
        decreases names.len() - i,
    {
        proof {
            assert(before[i as int] == names@[i as int]@);
        }
        if str_eq(names[i].as_str(), name.as_str()) {
            proof {
                assert(before.contains(name@));
            }
            return ;
        }
        i += 1;
    }
    names.push(name);
    proof {
        assert(!before.contains(name@));
        assert(names.deep_view() =~= before.push(name@));
    }
}

/// Notes the modules that the imports name.
fn note_imports(names: &mut Vec<String>, imports: &Vec<String>)
    ensures
        final(names).deep_view() == with_imports(imports@, old(names).deep_view()),
{
    let mut i: usize = 0;
    proof {
        assert(imports@.take(0) =~= Seq::empty());
    }
    while i < imports.len()
        invariant
            i <= imports.len(),
            names.deep_view() == with_imports(imports@.take(i as int), old(names).deep_view()),
        decreases imports.len() - i,
    {
        proof {
            assert(imports@.take(i as int + 1).drop_last() =~= imports@.take(i as int));
            assert(imports@.take(i as int + 1).last() == imports@[i as int]);
        }
        match ProjectAnalyzer::extract_module_from_import(imports[i].as_str()) {
            Some(module) => {
                note(names, module);
            },
            None => {},
        }
        i += 1;
    }
    proof {
        assert(imports@.take(i as int) =~= imports@);
    }
}

/// The module called `name`.
fn module_of(files: &[FileInfo], name: &str) -> (r: ModuleInfo)
    ensures
        r@ == module_called(files@, name@),
{
    let ghost chosen = |f: FileInfo| module_name_of(f.path@) == Some(name@);
    let ghost category_of = |f: FileInfo| f.category;
    let mut categories: Vec<FileCategory> = Vec::new();
    let mut dependencies: Vec<String> = Vec::new();
    let mut i: usize = 0;
    proof {
        assert(files@.take(0) =~= Seq::empty());
        assert(categories@ =~= files@.take(0).filter(chosen).map_values(category_of));
        assert(dependencies.deep_view() =~= Seq::<Seq<char>>::empty());
    }
    while i < files.len()
        invariant
            i <= files.len(),
            chosen == |f: FileInfo| module_name_of(f.path@) == Some(name@),
            category_of == |f: FileInfo| f.category,
            categories@ == files@.take(i as int).filter(chosen).map_values(category_of),
            dependencies.deep_view() == module_dependencies(files@.take(i as int), name@),
        decreases files.len() - i,
    {
        let ghost before = categories@;
        proof {
            crate::database::lemma_filter_step(files@, i as int, chosen);
            assert(files@.take(i as int + 1).drop_last() =~= files@.take(i as int));
            assert(files@.take(i as int + 1).last() == files@[i as int]);
        }
        let belongs = match module_name(files[i].path.as_str()) {
            Some(module) => str_eq(module.as_str(), name),
            None => false,
        };
        if belongs {
            categories.push(files[i].category);
            note_imports(&mut dependencies, &files[i].imports);
            proof {
                assert(categories@ =~= before.push(files@[i as int].category));
                assert(files@.take(i as int + 1).filter(chosen).map_values(category_of)
                    =~= files@.take(i as int).filter(chosen).map_values(category_of).push(
                    files@[i as int].category,
                ));
            }
        }
        i += 1;
    }
    proof {
        assert(files@.take(i as int) =~= files@);
        assert(texts_view(dependencies@) =~= dependencies.deep_view());
    }
    ModuleInfo {
        name: String::from_str(name),
        path: String::from_str(name),
        purpose: ProjectAnalyzer::infer_module_purpose(name, &categories),
        dependencies,
    }
}

/// The mathematical value of a [`Dependency`].
pub struct DependencyView {
    pub name: Seq<char>,
    pub version: Option<Seq<char>>,
    pub dep_type: DependencyType,
    pub purpose: Seq<char>,
}

impl View for Dependency {
    type V = DependencyView;

    open spec fn view(&self) -> DependencyView {
        DependencyView {
            name: self.name@,
            version: self.version.deep_view(),
            dep_type: self.dep_type,
            purpose: self.purpose@,
        }
    }
}

/// The values of a list of dependencies.
pub open spec fn dependencies_view(items: Seq<Dependency>) -> Seq<DependencyView> {
    Seq::new(items.len(), |i: int| items[i]@)
}

/// A dependency with its purpose worked out from its name.
pub open spec fn dependency(
    name: Seq<char>,
    version: Option<Seq<char>>,
    dep_type: DependencyType,
) -> DependencyView {
    DependencyView { name, version, dep_type, purpose: dependency_purpose(name) }
}

/// The dependency that a line of a requirements file names: none for an
/// empty line and for a comment; else the name before the first `==` and
/// the version between the first `==` and the next.
pub open spec fn requirement_of(line: Seq<char>) -> Option<DependencyView> {
    let text = trimmed(line);
    if text.len() == 0 || starts_with_seq(text, "#"@) {
        None
    } else {
        Some(
            dependency(
                before_first(text, "=="@),
                if split_first(text, "=="@) is Some {
                    Some(before_first(after_first(text, "=="@), "=="@))
                } else {
                    None
                },
                DependencyType::Runtime,
            ),
        )
    }
}

/// The dependencies that the lines of a requirements file name.
pub open spec fn requirements_of(lines: Seq<Seq<char>>) -> Seq<DependencyView>
    decreases lines.len(),
{
    if lines.len() == 0 {
        Seq::empty()
    } else {
        let rest = requirements_of(lines.drop_last());
        match requirement_of(lines.last()) {
            Some(found) => rest.push(found),
            None => rest,
        }
    }
}

/// The version that a JSON value gives: its text, or none where it is no
/// text.
pub open spec fn version_of(v: JsonValue) -> Option<Seq<char>> {
    match v {
        JsonValue::Text(version) => Some(version),
        _ => None,
    }
}

/// The dependencies that a package file lists under `key`, in the order in
/// which it lists them; none where there is no object under `key`.
pub open spec fn listed_under(v: JsonValue, key: Seq<char>, dep_type: DependencyType) -> Seq<
    DependencyView,
> {
    match v.field(key) {
        Some(JsonValue::Object(fields)) => Seq::new(
            fields.len(),
            |i: int| dependency(fields[i].0, version_of(fields[i].1), dep_type),
        ),
        _ => Seq::empty(),
    }
}

/// The dependencies of a package file: those for running, then those for
/// development.
pub open spec fn package_dependencies(v: JsonValue) -> Seq<DependencyView> {
    listed_under(v, "dependencies"@, DependencyType::Runtime) + listed_under(
        v,
        "devDependencies"@,
        DependencyType::Development,
    )
}

/// The name that a package file gives the project.
pub open spec fn package_name(content: Seq<char>) -> Option<Seq<char>> {
    match json_parse(encode_utf8(content)) {
        Some(v) => v.text_at("name"@),
        None => None,
    }
}

/// The name that a setup script gives the project: what stands between the
/// first `name=` and the comma that follows it, without the white space and
/// the quotes around it.
pub open spec fn setup_name(content: Seq<char>) -> Option<Seq<char>> {
    if split_first(content, "name="@) is Some && split_first(
        after_first(content, "name="@),
        ","@,
    ) is Some {
        let part = trimmed(before_first(after_first(content, "name="@), ","@));
        let unquoted = without_trailing(without_leading(part, '"'), '"');
        Some(without_trailing(without_leading(unquoted, '\''), '\''))
    } else {
        None
    }
}

/// The name that a package file or a setup script gives the project, the
/// package file first.
pub open spec fn named_by_files(
    package_json: Option<&str>,
    setup_py: Option<&str>,
) -> Option<Seq<char>> {
    let by_package = match package_json {
        Some(content) => package_name(content@),
        None => None,
    };
    let by_setup = match setup_py {
        Some(content) => setup_name(content@),
        None => None,
    };
    if by_package is Some {
        by_package
    } else {
        by_setup
    }
}

/// Why the dependencies of a project could not be read.
#[derive(Debug)]
pub enum DependencyError {
    /// The package file is not JSON; the message is the reader's.
    PackageJson(String),
}

/// The path of the first file whose path ends with `ending`.
pub open spec fn first_ending(files: Seq<FileInfo>, ending: Seq<char>) -> Option<Seq<char>>
    decreases files.len(),
{
    if files.len() == 0 {
        None
    } else if ends_with_seq(files[0].path@, ending) {
        Some(files[0].path@)
    } else {
        first_ending(files.drop_first(), ending)
    }
}

/// The path of the first file whose path ends with `ending`.
pub fn find_file_ending(files: &[FileInfo], ending: &str) -> (r: Option<String>)
    ensures
        r.deep_view() == first_ending(files@, ending@),
{
    let mut i: usize = 0;
    proof {
        assert(files@.skip(0) =~= files@);
    }
    while i < files.len()
        invariant
            i <= files.len(),
            first_ending(files@, ending@) == first_ending(files@.skip(i as int), ending@),
        decreases files.len() - i,
    {
        proof {
            assert(files@.skip(i as int)[0] == files@[i as int]);
            assert(files@.skip(i as int).drop_first() =~= files@.skip(i as int + 1));
        }
        if str_ends_with(files[i].path.as_str(), ending) {
            return Some(files[i].path.clone());
        }
        i += 1;
    }
    None
}

/// Whether an import speaks of a Python test framework.
pub open spec fn is_python_test_import(import: Seq<char>) -> bool {
    contains_seq(import, "unittest"@) || contains_seq(import, "pytest"@)
}

/// Whether an import speaks of a JavaScript test framework.
pub open spec fn is_script_test_import(import: Seq<char>) -> bool {
    contains_seq(import, "jest"@) || contains_seq(import, "mocha"@)
}

/// The names noted so far with the test frameworks that the imports speak
/// of.
pub open spec fn with_frameworks(imports: Seq<String>, so_far: Seq<Seq<char>>) -> Seq<Seq<char>>
    decreases imports.len(),
{
    if imports.len() == 0 {
        so_far
    } else {
        let rest = with_frameworks(imports.drop_last(), so_far);
        if is_python_test_import(imports.last()@) {
            noted(rest, "pytest/unittest"@)
        } else if is_script_test_import(imports.last()@) {
            noted(rest, "jest/mocha"@)
        } else {
            rest
        }
    }
}

/// The test frameworks that the imports of the files speak of, each once,
/// in the order in which they are first met.
pub open spec fn frameworks_of(files: Seq<FileInfo>) -> Seq<Seq<char>>
    decreases files.len(),
{
    if files.len() == 0 {
        Seq::empty()
    } else {
        with_frameworks(files.last().imports@, frameworks_of(files.drop_last()))
    }
}

/// How many tests a project has, and of which frameworks.
#[derive(Debug)]
pub struct TestFiles {
    /// The files that are unit tests.
    pub unit_tests: usize,
    /// The files that are integration tests.
    pub integration_tests: usize,
    /// The test frameworks that the files import.
    pub frameworks: Vec<String>,
}

/// The scripting language of a file, by its ending.
pub open spec fn script_language_of(ending: Seq<char>) -> Option<Seq<char>> {
    if ending == "py"@ {
        Some("python"@)
    } else if ending == "js"@ || ending == "mjs"@ {
        Some("javascript"@)
    } else if ending == "ts"@ {
        Some("typescript"@)
    } else {
        None
    }
}

/// The scripting language of a file, by its ending.
pub fn script_language(ending: &str) -> (r: Option<&'static str>)
    ensures
        crate::database::text_of(r) == script_language_of(ending@),
{
    if str_eq(ending, "py") {
        Some("python")
    } else if str_eq(ending, "js") || str_eq(ending, "mjs") {
        Some("javascript")
    } else if str_eq(ending, "ts") {
        Some("typescript")
    } else {
        None
    }
}

/// What the top of the syntax tree of a script shows in one place: the kind
/// of the node, its text and the text of its name, the two where they can
/// be read.
#[derive(Debug)]
pub struct TopNode {
    pub kind: String,
    pub text: Option<String>,
    pub name: Option<String>,
}

/// The text given, where the kind is the one wanted and there is a text.
pub open spec fn if_kind(kind: Seq<char>, wanted: Seq<char>, value: Option<String>) -> Seq<
    Seq<char>,
> {
    if kind == wanted && value is Some {
        seq![value->0@]
    } else {
        Seq::empty()
    }
}

/// Adds the text to the list where the kind is the one wanted and there is
/// a text.
fn push_if(list: &mut Vec<String>, kind: &str, wanted: &str, value: &Option<String>)
    ensures
        texts_view(final(list)@) == texts_view(old(list)@) + if_kind(kind@, wanted@, *value),
{
    let ghost before = texts_view(list@);
    if str_eq(kind, wanted) {
        match value {
            Some(text) => {
                list.push(text.clone());
                proof {
                    assert(texts_view(list@) =~= before + seq![text@]);
                }
                return ;
            },
            None => {},
        }
    }
    proof {
        assert(texts_view(list@) =~= before + Seq::<Seq<char>>::empty());
    }
}

/// Takes one node of the top of a Python script's syntax tree into what is
/// known of the file: the text of an import, the name of a function, the
/// name of a class.
pub fn extract_python_symbols(info: &mut FileInfo, node: &TopNode)
    ensures
        final(info).path == old(info).path,
        final(info).language == old(info).language,
        final(info).category == old(info).category,
        final(info).purpose == old(info).purpose,
        final(info).exports == old(info).exports,
        texts_view(final(info).imports@) == texts_view(old(info).imports@) + if_kind(
            node.kind@,
            "import_statement"@,
            node.text,
        ) + if_kind(node.kind@, "import_from_statement"@, node.text),
        texts_view(final(info).functions@) == texts_view(old(info).functions@) + if_kind(
            node.kind@,
            "function_definition"@,
            node.name,
        ),
        texts_view(final(info).classes@) == texts_view(old(info).classes@) + if_kind(
            node.kind@,
            "class_definition"@,
            node.name,
        ),
{
    let kind = node.kind.as_str();
    push_if(&mut info.imports, kind, "import_statement", &node.text);
    push_if(&mut info.imports, kind, "import_from_statement", &node.text);
    push_if(&mut info.functions, kind, "function_definition", &node.name);
    push_if(&mut info.classes, kind, "class_definition", &node.name);
}

/// Takes one node of the top of a JavaScript script's syntax tree into what
/// is known of the file: the text of an import or an export, the name of a
/// function, the name of a class.
pub fn extract_javascript_symbols(info: &mut FileInfo, node: &TopNode)
    ensures
        final(info).path == old(info).path,
        final(info).language == old(info).language,
        final(info).category == old(info).category,
        final(info).purpose == old(info).purpose,
        texts_view(final(info).imports@) == texts_view(old(info).imports@) + if_kind(
            node.kind@,
            "import_statement"@,
            node.text,
        ),
        texts_view(final(info).exports@) == texts_view(old(info).exports@) + if_kind(
            node.kind@,
            "export_statement"@,
            node.text,
        ),
        texts_view(final(info).functions@) == texts_view(old(info).functions@) + if_kind(
            node.kind@,
            "function_declaration"@,
            node.name,
        ),
        texts_view(final(info).classes@) == texts_view(old(info).classes@) + if_kind(
            node.kind@,
            "class_declaration"@,
            node.name,
        ),
{
    let kind = node.kind.as_str();
    push_if(&mut info.imports, kind, "import_statement", &node.text);
    push_if(&mut info.exports, kind, "export_statement", &node.text);
    push_if(&mut info.functions, kind, "function_declaration", &node.name);
    push_if(&mut info.classes, kind, "class_declaration", &node.name);
}

/// Takes one node of the top of a TypeScript script's syntax tree into what
/// is known of the file, as for JavaScript.
pub fn extract_typescript_symbols(info: &mut FileInfo, node: &TopNode)
    ensures
        final(info).path == old(info).path,
        final(info).language == old(info).language,
        final(info).category == old(info).category,
        final(info).purpose == old(info).purpose,
        texts_view(final(info).imports@) == texts_view(old(info).imports@) + if_kind(
            node.kind@,
            "import_statement"@,
            node.text,
        ),
        texts_view(final(info).exports@) == texts_view(old(info).exports@) + if_kind(
            node.kind@,
            "export_statement"@,
            node.text,
        ),
        texts_view(final(info).functions@) == texts_view(old(info).functions@) + if_kind(
            node.kind@,
            "function_declaration"@,
            node.name,
        ),
        texts_view(final(info).classes@) == texts_view(old(info).classes@) + if_kind(
            node.kind@,
            "class_declaration"@,
            node.name,
        ),
{
    extract_javascript_symbols(info, node)
}

/// The language of most files, the first such language in the order of the
/// files where several have most; `unknown` where there are no files.
pub open spec fn main_language(tally: crate::stats::Tally) -> Seq<char>
    decreases tally.len(),
{
    if tally.len() == 0 {
        "unknown"@
    } else if tally.len() == 1 {
        tally[0].0
    } else {
        let rest = tally.drop_last();
        if greatest_count(rest) >= tally.last().1 {
            main_language(rest)
        } else {
            tally.last().0
        }
    }
}

/// The greatest count of a tally.
pub open spec fn greatest_count(tally: crate::stats::Tally) -> nat
    decreases tally.len(),
{
    if tally.len() == 0 {
        0
    } else {
        let rest = greatest_count(tally.drop_last());
        if rest >= tally.last().1 {
            rest
        } else {
            tally.last().1
        }
    }
}

/// How a project of a purpose is called in a sentence.
pub open spec fn purpose_words(purpose: ProjectPurpose) -> Seq<char> {
    match purpose {
        ProjectPurpose::WebApplication => "a web application"@,
        ProjectPurpose::WebAPI => "a web API service"@,
        ProjectPurpose::CLI => "a command-line tool"@,
        ProjectPurpose::Library => "a software library"@,
        ProjectPurpose::MachineLearning => "a machine learning project"@,
        _ => "a software project"@,
    }
}

/// What a sentence says of an architecture.
pub open spec fn architecture_words(architecture: ArchitecturePattern) -> Seq<char> {
    match architecture {
        ArchitecturePattern::MVC => " following MVC architecture pattern"@,
        ArchitecturePattern::Layered => " with layered architecture"@,
        _ => ""@,
    }
}

/// The languages of the files, in the order of the files.
pub open spec fn languages_of(files: Seq<FileInfo>) -> Seq<Seq<char>> {
    Seq::new(files.len(), |i: int| files[i].language@)
}

/// The sentence that describes a project of scripts.
pub open spec fn description_of(
    purpose: ProjectPurpose,
    architecture: ArchitecturePattern,
    layers: nat,
    files: Seq<FileInfo>,
) -> Seq<char> {
    "This is "@ + purpose_words(purpose) + " written primarily in "@ + main_language(
        crate::stats::tally_of(languages_of(files)),
    ) + architecture_words(architecture) + ", containing "@ + decimal(files.len()) + " files across "@
        + decimal(layers) + " layers."@
}

/// The language of most files of a tally.
fn language_of_most(tally: &Vec<(String, usize)>) -> (r: String)
    ensures
        r@ == main_language(crate::stats::tally_view(tally@)),
{
    let ghost all = crate::stats::tally_view(tally@);
    if tally.len() == 0 {
        return String::from_str("unknown");
    }
    let mut best: usize = 0;
    let mut i: usize = 1;
    proof {
        assert(all.take(1).drop_last() =~= Seq::empty());
        assert(all.take(1)[0] == all[0]);
        reveal_with_fuel(greatest_count, 2);
    }
    while i < tally.len()
        invariant
            1 <= i <= tally.len(),
            best < i,
            all == crate::stats::tally_view(tally@),
            all[best as int].0 == main_language(all.take(i as int)),
            all[best as int].1 == greatest_count(all.take(i as int)),
        decreases tally.len() - i,
    {
        proof {
            assert(all.take(i as int + 1).drop_last() =~= all.take(i as int));
            assert(all.take(i as int + 1).last() == all[i as int]);
            assert(all[i as int] == (tally@[i as int].0@, tally@[i as int].1 as nat));
            assert(all[best as int] == (tally@[best as int].0@, tally@[best as int].1 as nat));
        }
        if tally[best].1 < tally[i].1 {
            best = i;
        }
        i += 1;
    }
    proof {
        assert(all.take(i as int) =~= all);
        assert(all[best as int] == (tally@[best as int].0@, tally@[best as int].1 as nat));
    }
    tally[best].0.clone()
}

impl ProjectAnalyzer {
    /// The layers of a project.
    pub fn identify_layers(files: &[FileInfo]) -> (r: Vec<Layer>)
        ensures
            layers_view(r@) == layers_of(files@),
    {
        let mut layers: Vec<Layer> = Vec::new();
        proof {
            assert(layers_view(layers@) =~= Seq::empty());
        }
        add_layer(&mut layers, files, "Data Layer");
        add_layer(&mut layers, files, "Business Layer");
        add_layer(&mut layers, files, "Presentation Layer");
        add_layer(&mut layers, files, "Utility Layer");
        proof {
            assert(layers_view(layers@) =~= layers_of(files@));
        }
        layers
    }

    /// The modules of a project: one for each directory that holds a file.
    pub fn identify_modules(files: &[FileInfo]) -> (r: Vec<ModuleInfo>)
        ensures
            modules_view(r@) == modules_of(files@),
    {
        let mut names: Vec<String> = Vec::new();
        let mut i: usize = 0;
        proof {
            assert(files@.take(0) =~= Seq::empty());
            assert(names.deep_view() =~= Seq::<Seq<char>>::empty());
        }
        while i < files.len()
            invariant
                i <= files.len(),
                names.deep_view() == module_names(files@.take(i as int)),
            decreases files.len() - i,
        {
            proof {
                assert(files@.take(i as int + 1).drop_last() =~= files@.take(i as int));
                assert(files@.take(i as int + 1).last() == files@[i as int]);
            }
            match module_name(files[i].path.as_str()) {
                Some(name) => {
                    note(&mut names, name);
                },
                None => {},
            }
            i += 1;
        }
        proof {
            assert(files@.take(i as int) =~= files@);
        }
        let mut modules: Vec<ModuleInfo> = Vec::new();
        let mut n: usize = 0;
        while n < names.len()
            invariant
                n <= names.len(),
                names.deep_view() == module_names(files@),
                modules@.len() == n,
                forall|k: int|
                    0 <= k < n ==> (#[trigger] modules@[k])@ == module_called(
                        files@,
                        module_names(files@)[k],
                    ),
            decreases names.len() - n,
        {
            proof {
                assert(names.deep_view()[n as int] == names@[n as int]@);
            }
            modules.push(module_of(files, names[n].as_str()));
            n += 1;
        }
        proof {
            assert(names.deep_view().len() == names@.len());
            assert(modules_view(modules@) =~= modules_of(files@));
        }
        modules
    }

    /// The modules that the files of a module import, each once, in the
    /// order in which they are first met.
    pub fn extract_module_dependencies(files: &[FileInfo]) -> (r: Vec<String>)
        ensures
            r.deep_view() == all_dependencies(files@),
    {
        let mut dependencies: Vec<String> = Vec::new();
        let mut i: usize = 0;
        proof {
            assert(files@.take(0) =~= Seq::empty());
            assert(dependencies.deep_view() =~= Seq::<Seq<char>>::empty());
        }
        while i < files.len()
            invariant
                i <= files.len(),
                dependencies.deep_view() == all_dependencies(files@.take(i as int)),
            decreases files.len() - i,
        {
            proof {
                assert(files@.take(i as int + 1).drop_last() =~= files@.take(i as int));
                assert(files@.take(i as int + 1).last() == files@[i as int]);
            }
            note_imports(&mut dependencies, &files[i].imports);
            i += 1;
        }
        proof {
            assert(files@.take(i as int) =~= files@);
        }
        dependencies
    }

    /// How a project is laid out: its architecture, its layers and its
    /// modules.
    pub fn analyze_structure(files: &[FileInfo]) -> (r: ProjectStructure)
        ensures
            r.architecture == architecture_of(files@),
            layers_view(r.layers@) == layers_of(files@),
            modules_view(r.modules@) == modules_of(files@),
    {
        ProjectStructure {
            architecture: ProjectAnalyzer::detect_architecture(files),
            layers: ProjectAnalyzer::identify_layers(files),
            modules: ProjectAnalyzer::identify_modules(files),
        }
    }

    /// The dependencies that a requirements file names, in the order of its
    /// lines.
    pub fn parse_requirements_txt(content: &str) -> (r: Vec<Dependency>)
        ensures
            dependencies_view(r@) == requirements_of(lines_of(content@)),
    {
        proof {
            reveal_strlit("==");
        }
        let lines = str_lines(content);
        let ghost all = lines.deep_view();
        let mut found: Vec<Dependency> = Vec::new();
        let mut i: usize = 0;
        proof {
            assert(all.take(0) =~= Seq::empty());
            assert(dependencies_view(found@) =~= Seq::empty());
        }
        while i < lines.len()
            invariant
                i <= lines.len(),
                "=="@.len() > 0,
                all == lines.deep_view(),
                dependencies_view(found@) == requirements_of(all.take(i as int)),
            decreases lines.len() - i,
        {
            let ghost before = dependencies_view(found@);
            proof {
                assert(all.take(i as int + 1).drop_last() =~= all.take(i as int));
                assert(all.take(i as int + 1).last() == lines@[i as int]@);
            }
            let text = str_trim(lines[i].as_str());
            if text.unicode_len() > 0 && !str_starts_with(text, "#") {
                let (name, version) = match split_once(text, "==") {
                    Some(parts) => {
                        let version = match split_once(parts.1, "==") {
                            Some(more) => String::from_str(more.0),
                            None => String::from_str(parts.1),
                        };
                        (String::from_str(parts.0), Some(version))
                    },
                    None => (String::from_str(text), None),
                };
                let purpose = ProjectAnalyzer::infer_dependency_purpose(name.as_str());
                let item = Dependency { name, version, dep_type: DependencyType::Runtime, purpose };
                found.push(item);
                proof {
                    assert(dependencies_view(found@) =~= before.push(item@));
                }
            }
            i += 1;
        }
        proof {
            assert(all.take(i as int) =~= all);
        }
        found
    }

    /// The dependencies that a package file lists under a key.
    fn listed(v: &Json, key: &str, dep_type: DependencyType) -> (r: Vec<Dependency>)
        ensures
            dependencies_view(r@) == listed_under(v@, key@, dep_type),
    {
        let mut found: Vec<Dependency> = Vec::new();
        match v.get(key) {
            Some(Json::Object(fields)) => {
                let ghost all = v@.field(key@)->0->Object_0;
                proof {
                    reveal_with_fuel(json_value, 2);
                    assert(all.len() == fields.len());
                }
                let mut i: usize = 0;
                while i < fields.len()
                    invariant
                        i <= fields.len(),
                        all.len() == fields.len(),
                        forall|k: int|
                            0 <= k < fields.len() ==> all[k] == (
                                (#[trigger] fields[k]).0@,
                                fields[k].1@,
                            ),
                        found@.len() == i,
                        forall|k: int|
                            0 <= k < i ==> (#[trigger] found@[k])@ == dependency(
                                all[k].0,
                                version_of(all[k].1),
                                dep_type,
                            ),
                    decreases fields.len() - i,
                {
                    let version = match &fields[i].1 {
                        Json::Text(version) => Some(version.clone()),
                        _ => None,
                    };
                    let purpose = ProjectAnalyzer::infer_dependency_purpose(fields[i].0.as_str());
                    found.push(Dependency { name: fields[i].0.clone(), version, dep_type, purpose });
                    i += 1;
                }
                proof {
                    assert(dependencies_view(found@) =~= listed_under(v@, key@, dep_type));
                }
            },
            _ => {
                proof {
                    assert(dependencies_view(found@) =~= Seq::empty());
                }
            },
        }
        found
    }

    /// The dependencies of a package file: `PackageJson` exactly where its
    /// text is not JSON.
    pub fn parse_package_json(content: &str) -> (r: Result<Vec<Dependency>, DependencyError>)
        ensures
            match r {
                Ok(found) => json_parse(encode_utf8(content@)) matches Some(v)
                    && dependencies_view(found@) == package_dependencies(v),
                Err(_) => json_parse(encode_utf8(content@)) is None,
            },
    {
        let v = match decode(content.as_bytes()) {
            Ok(v) => v,
            Err(e) => {
                return Err(DependencyError::PackageJson(crate::database::json_error_message(e)));
            },
        };
        let mut found = ProjectAnalyzer::listed(&v, "dependencies", DependencyType::Runtime);
        let ghost first = dependencies_view(found@);
        let mut development = ProjectAnalyzer::listed(
            &v,
            "devDependencies",
            DependencyType::Development,
        );
        let ghost second = dependencies_view(development@);
        found.append(&mut development);
        proof {
            assert(dependencies_view(found@) =~= first + second);
        }
        Ok(found)
    }

    /// The dependencies of a project, from the text of its requirements file
    /// and of its package file, where it has them.
    pub fn extract_dependencies(requirements: Option<&str>, package_json: Option<&str>) -> (r:
        Result<Vec<Dependency>, DependencyError>)
        ensures
            match r {
                Ok(found) => {
                    let first = match requirements {
                        Some(content) => requirements_of(lines_of(content@)),
                        None => Seq::empty(),
                    };
                    match package_json {
                        Some(content) => json_parse(encode_utf8(content@)) matches Some(v)
                            && dependencies_view(found@) == first + package_dependencies(v),
                        None => dependencies_view(found@) == first,
                    }
                },
                Err(_) => package_json matches Some(content) && json_parse(encode_utf8(content@))
                    is None,
            },
    {
        let mut found = match requirements {
            Some(content) => ProjectAnalyzer::parse_requirements_txt(content),
            None => Vec::new(),
        };
        let ghost first = dependencies_view(found@);
        proof {
            if requirements is None {
                assert(first =~= Seq::empty());
            }
        }
        match package_json {
            Some(content) => {
                let mut more = ProjectAnalyzer::parse_package_json(content)?;
                let ghost second = dependencies_view(more@);
                found.append(&mut more);
                proof {
                    assert(dependencies_view(found@) =~= first + second);
                }
            },
            None => {},
        }
        Ok(found)
    }

    /// The name that a package file gives the project.
    pub fn package_json_name(content: &str) -> (r: Option<String>)
        ensures
            r.deep_view() == package_name(content@),
    {
        match decode(content.as_bytes()) {
            Ok(v) => v.text_at("name"),
            Err(_) => None,
        }
    }

    /// The name that a setup script gives the project.
    pub fn setup_py_name(content: &str) -> (r: Option<String>)
        ensures
            r.deep_view() == setup_name(content@),
    {
        proof {
            reveal_strlit("name=");
            reveal_strlit(",");
        }
        let (_, after) = split_once(content, "name=")?;
        let (part, _) = split_once(after, ",")?;
        Some(
            String::from_str(str_trim_matches(str_trim_matches(str_trim(part), '"'), '\'')),
        )
    }

    /// The name of a project: the one that its package file gives, else the
    /// one that its setup script gives, else the name of the root directory,
    /// else `unknown`. The name of the directory is that of the platform's
    /// paths.
    pub fn extract_project_name(
        root_path: &str,
        package_json: Option<&str>,
        setup_py: Option<&str>,
    ) -> (r: String)
        ensures
            exists|directory: Seq<char>|
                contains_seq(root_path@, directory) && r@ == #[trigger] crate::annotations::project_name(
                    named_by_files(package_json, setup_py),
                    directory,
                    "unknown"@,
                ),
    {
        let by_package = match package_json {
            Some(content) => ProjectAnalyzer::package_json_name(content),
            None => None,
        };
        let found = match by_package {
            Some(name) => Some(name),
            None => match setup_py {
                Some(content) => ProjectAnalyzer::setup_py_name(content),
                None => None,
            },
        };
        let directory = file_name_of(root_path);
        let r = match found {
            Some(name) => name,
            None => if directory.as_str().unicode_len() > 0 {
                directory.clone()
            } else {
                String::from_str("unknown")
            },
        };
        assert(r@ == crate::annotations::project_name(
            named_by_files(package_json, setup_py),
            directory@,
            "unknown"@,
        ));
        r
    }

    /// How many of the files are unit tests and integration tests, and which
    /// test frameworks the files import. The share of tests among the files
    /// is the sum of the two numbers by the number of files.
    pub fn analyze_test_coverage(files: &[FileInfo]) -> (r: TestFiles)
        ensures
            r.unit_tests == count_where(files@, |f: FileInfo| f.category == FileCategory::UnitTest),
            r.integration_tests == count_where(
                files@,
                |f: FileInfo| f.category == FileCategory::IntegrationTest,
            ),
            r.frameworks.deep_view() == frameworks_of(files@),
    {
        let ghost is_unit = |f: FileInfo| f.category == FileCategory::UnitTest;
        let ghost is_integration = |f: FileInfo| f.category == FileCategory::IntegrationTest;
        let mut unit_tests: usize = 0;
        let mut integration_tests: usize = 0;
        let mut frameworks: Vec<String> = Vec::new();
        let mut i: usize = 0;
        proof {
            assert(files@.take(0) =~= Seq::empty());
            assert(frameworks.deep_view() =~= Seq::<Seq<char>>::empty());
        }
        while i < files.len()
            invariant
                i <= files.len(),
                is_unit == |f: FileInfo| f.category == FileCategory::UnitTest,
                is_integration == |f: FileInfo| f.category == FileCategory::IntegrationTest,
                unit_tests == count_where(files@.take(i as int), is_unit),
                integration_tests == count_where(files@.take(i as int), is_integration),
                unit_tests <= i,
                integration_tests <= i,
                frameworks.deep_view() == frameworks_of(files@.take(i as int)),
            decreases files.len() - i,
        {
            proof {
                lemma_count_step(files@, i as int, is_unit);
                lemma_count_step(files@, i as int, is_integration);
                assert(files@.take(i as int + 1).drop_last() =~= files@.take(i as int));
                assert(files@.take(i as int + 1).last() == files@[i as int]);
            }
            if files[i].category == FileCategory::UnitTest {
                unit_tests += 1;
            }
            if files[i].category == FileCategory::IntegrationTest {
                integration_tests += 1;
            }
            let imports = &files[i].imports;
            let ghost start = frameworks.deep_view();
            let mut n: usize = 0;
            proof {
                assert(imports@.take(0) =~= Seq::empty());
            }
            while n < imports.len()
                invariant
                    n <= imports.len(),
                    frameworks.deep_view() == with_frameworks(imports@.take(n as int), start),
                decreases imports.len() - n,
            {
                proof {
                    assert(imports@.take(n as int + 1).drop_last() =~= imports@.take(n as int));
                    assert(imports@.take(n as int + 1).last() == imports@[n as int]);
                }
                let import = imports[n].as_str();
                if str_contains(import, "unittest") || str_contains(import, "pytest") {
                    note(&mut frameworks, String::from_str("pytest/unittest"));
                } else if str_contains(import, "jest") || str_contains(import, "mocha") {
                    note(&mut frameworks, String::from_str("jest/mocha"));
                }
                n += 1;
            }
            proof {
                assert(imports@.take(n as int) =~= imports@);
            }
            i += 1;
        }
        proof {
            assert(files@.take(i as int) =~= files@);
        }
        TestFiles { unit_tests, integration_tests, frameworks }
    }

    /// The module that an import names.
    pub fn extract_module_from_import(import: &str) -> (r: Option<String>)
        ensures
            r.deep_view() == imported_module(import@),
    {
        proof {
            reveal_strlit(".");
        }
        if str_starts_with(import, "from ") {
            let words = str_words(import);
            if words.len() > 1 {
                Some(words[1].clone())
            } else {
                None
            }
        } else if str_starts_with(import, "import ") {
            let words = str_words(import);
            if words.len() > 1 {
                match split_once(words[1].as_str(), ".") {
                    Some(parts) => Some(String::from_str(parts.0)),
                    None => Some(words[1].clone()),
                }
            } else {
                None
            }
        } else {
            None
        }
    }

    /// How many files there are of each language, in the order in which the
    /// languages are first met.
    pub fn count_languages(files: &[FileInfo]) -> (r: Vec<(String, usize)>)
        ensures
            crate::stats::tally_view(r@) == crate::stats::tally_of(languages_of(files@)),
    {
        let ghost all = languages_of(files@);
        let mut tally: Vec<(String, usize)> = Vec::new();
        let mut i: usize = 0;
        proof {
            assert(all.take(0) =~= Seq::empty());
            assert(crate::stats::tally_view(tally@) =~= Seq::empty());
        }
        while i < files.len()
            invariant
                i <= files.len(),
                all == languages_of(files@),
                crate::stats::tally_view(tally@) == crate::stats::tally_of(all.take(i as int)),
                crate::stats::counts_within(crate::stats::tally_view(tally@), i as nat),
            decreases files.len() - i,
        {
            proof {
                assert(all.take(i as int + 1).drop_last() =~= all.take(i as int));
                assert(all.take(i as int + 1).last() == files@[i as int].language@);
                crate::stats::lemma_bumped_within(
                    crate::stats::tally_view(tally@),
                    files@[i as int].language@,
                    i as nat,
                );
            }
            crate::stats::bump(&mut tally, files[i].language.clone());
            i += 1;
        }
        proof {
            assert(all.take(i as int) =~= all);
        }
        tally
    }

    /// The sentence that describes a project of scripts.
    pub fn generate_description(
        purpose: &ProjectPurpose,
        structure: &ProjectStructure,
        files: &[FileInfo],
    ) -> (r: String)
        ensures
            r@ == description_of(
                *purpose,
                structure.architecture,
                structure.layers@.len(),
                files@,
            ),
    {
        let purpose_words = match purpose {
            ProjectPurpose::WebApplication => "a web application",
            ProjectPurpose::WebAPI => "a web API service",
            ProjectPurpose::CLI => "a command-line tool",
            ProjectPurpose::Library => "a software library",
            ProjectPurpose::MachineLearning => "a machine learning project",
            _ => "a software project",
        };
        let architecture_words = match structure.architecture {
            ArchitecturePattern::MVC => " following MVC architecture pattern",
            ArchitecturePattern::Layered => " with layered architecture",
            _ => "",
        };
        let tally = ProjectAnalyzer::count_languages(files);
        let language = language_of_most(&tally);
        let mut text = concat2("This is ", purpose_words);
        text.append(" written primarily in ");
        text.append(language.as_str());
        text.append(architecture_words);
        text.append(", containing ");
        text.append(usize_to_text(files.len()).as_str());
        text.append(" files across ");
        text.append(usize_to_text(structure.layers.len()).as_str());
        text.append(" layers.");
        text
    }
}

} // verus!
