//! The commands of the command line, as plain values.

use vstd::prelude::*;
use vstd::string::*;
use crate::database::{owned, text_of};
use crate::text::concat2;

verus! {

/// The build system named on the command line.
#[derive(Debug, Clone, Copy, PartialEq, Eq, Structural)]
pub enum BuildSystemType {
    /// Find out from the project directory.
    Auto,
    /// CMake (`CMakeLists.txt`).
    CMake,
    /// Make (`Makefile`).
    Make,
    /// A Visual Studio solution (`.sln`).
    Solution,
    /// Cargo (`Cargo.toml`).
    Cargo,
}

/// One command with its arguments.
#[derive(Debug, Clone)]
#[allow(inconsistent_fields)]
pub enum Command {
    /// Make a compilation database from a build system.
    GenerateCompdb {
        project: String,
        output: Option<String>,
        build_dir: Option<String>,
        build_system: Option<BuildSystemType>,
        generator: Option<String>,
        configuration: Option<String>,
        platform: Option<String>,
    },
    /// Scan C and C++ sources by a compilation database.
    ScanCxx { compdb: String, db: String },
    /// Bring the imports of C++20 modules into the store.
    ImportModules { root: String, db: String },
    /// Scan C++20 modules from their source.
    ScanModules { root: String, db: String },
    /// Make an LSIF index of a Rust project.
    GenerateLsif { project: String, output: String },
    /// Scan a Rust project.
    ScanRust { manifest: String, lsif: Option<String>, db: String },
    /// List what a symbol calls.
    QueryCalls { db: String, usr: String },
    /// List the modules of the store and what they import.
    ListModules { db: String },
    /// Show how much the store holds.
    ShowStats { db: String },
    /// Make notes on a project of a compiled language.
    AnnotateCompiled { root: String, db: String },
    /// Scan a project of a scripting language through an index.
    ScanScripts { root: String, db: String },
    /// Make an index of a project and bring it into the store.
    ScanScip { root: String, db: String },
    /// Start the viewer.
    WebViewer { db: String },
    /// Answer a request of the viewer.
    Api { endpoint: String, db: String, search: Option<String> },
}

/// What the command line says.
#[derive(Debug, Clone)]
pub struct Args {
    pub cmd: Command,
}

/// What a look at a project directory shows of its build files.
#[derive(Debug, Clone, Copy)]
pub struct ProjectFacts {
    /// Whether there is a `CMakeLists.txt`.
    pub cmake_lists: bool,
    /// Whether there is a `Makefile`.
    pub makefile: bool,
    /// Whether there is a `Cargo.toml`.
    pub cargo_toml: bool,
    /// Whether there is a file that ends in `.sln`.
    pub solution: bool,
}

/// The generator of compilation databases that is to run, by build system.
#[derive(Debug, Clone, Copy, PartialEq, Eq, Structural)]
pub enum CompdbGenerator {
    CMake,
    Make,
    Cargo,
    Solution,
}

/// How a compilation database is to be made.
#[derive(Debug)]
pub struct CompdbCommand {
    /// The generator to run.
    pub generator: CompdbGenerator,
    /// The project directory.
    pub project: String,
    /// Where the compilation database is to be written.
    pub output: String,
    /// The build directory under the project, for CMake.
    pub build_dir: String,
    /// The CMake generator, where one was named.
    pub cmake_generator: Option<String>,
    /// The Visual Studio configuration, where one was named.
    pub configuration: Option<String>,
    /// The Visual Studio platform, where one was named.
    pub platform: Option<String>,
}

/// The generator for a build system that was named, or for what the
/// directory shows where none was: CMake before Make before Cargo before a
/// Visual Studio solution.
pub open spec fn generator_for(build_system: Option<BuildSystemType>, facts: ProjectFacts) -> Option<
    CompdbGenerator,
> {
    match build_system {
        Some(BuildSystemType::CMake) => Some(CompdbGenerator::CMake),
        Some(BuildSystemType::Make) => Some(CompdbGenerator::Make),
        Some(BuildSystemType::Solution) => Some(CompdbGenerator::Solution),
        Some(BuildSystemType::Cargo) => Some(CompdbGenerator::Cargo),
        _ => if facts.cmake_lists {
            Some(CompdbGenerator::CMake)
        } else if facts.makefile {
            Some(CompdbGenerator::Make)
        } else if facts.cargo_toml {
            Some(CompdbGenerator::Cargo)
        } else if facts.solution {
            Some(CompdbGenerator::Solution)
        } else {
            None
        },
    }
}

/// The text, or `otherwise` where there is none.
pub open spec fn text_or(text: Option<Seq<char>>, otherwise: Seq<char>) -> Seq<char> {
    match text {
        Some(s) => s,
        None => otherwise,
    }
}

/// How the compilation database of a project is to be made.
///
/// The database goes to `compile_commands.json` and CMake builds in `build`
/// where the command line says nothing else. A directory that shows no build
/// system, with none named, is answered with a message.
pub fn generate_compdb(
    project: &str,
    output: Option<&str>,
    build_dir: Option<&str>,
    build_system: Option<BuildSystemType>,
    generator: Option<&str>,
    configuration: Option<&str>,
    platform: Option<&str>,
    facts: &ProjectFacts,
) -> (r: Result<CompdbCommand, String>)
    ensures
        match generator_for(build_system, *facts) {
            Some(chosen) => r matches Ok(command) && {
                &&& command.generator == chosen
                &&& command.project@ == project@
                &&& command.output@ == text_or(text_of(output), "compile_commands.json"@)
                &&& command.build_dir@ == text_or(text_of(build_dir), "build"@)
                &&& command.cmake_generator.deep_view() == text_of(generator)
                &&& command.configuration.deep_view() == text_of(configuration)
                &&& command.platform.deep_view() == text_of(platform)
            },
            None => r matches Err(message) && message@ == "Could not detect build system in "@
                + project@,
        },
{
    let chosen = match build_system {
        Some(BuildSystemType::CMake) => CompdbGenerator::CMake,
        Some(BuildSystemType::Make) => CompdbGenerator::Make,
        Some(BuildSystemType::Solution) => CompdbGenerator::Solution,
        Some(BuildSystemType::Cargo) => CompdbGenerator::Cargo,
        _ => {
            if facts.cmake_lists {
                CompdbGenerator::CMake
            } else if facts.makefile {
                CompdbGenerator::Make
            } else if facts.cargo_toml {
                CompdbGenerator::Cargo
            } else if facts.solution {
                CompdbGenerator::Solution
            } else {
                return Err(concat2("Could not detect build system in ", project));
            }
        },
    };
    Ok(
        CompdbCommand {
            generator: chosen,
            project: String::from_str(project),
            output: match output {
                Some(path) => String::from_str(path),
                None => String::from_str("compile_commands.json"),
            },
            build_dir: match build_dir {
                Some(dir) => String::from_str(dir),
                None => String::from_str("build"),
            },
            cmake_generator: owned(generator),
            configuration: owned(configuration),
            platform: owned(platform),
        },
    )
}

} // verus!
