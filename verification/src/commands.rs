//! The command lines of the build tools and indexers that the front ends
//! start, and what is written for them: the arguments of each tool, and the
//! JSON of a compilation database.

use vstd::prelude::*;
use vstd::string::*;
use crate::database::text_of;
use crate::discovery::{texts, CompileCommandEntry, ScipLanguage};
use crate::buildfiles::{entry_view, EntryView};
use crate::json::{json_value, texts_json, texts_to_json, texts_view, Json, JsonValue};
use crate::records::entry;
use crate::text::concat2;

verus! {

/// The arguments that say which generator CMake is to use, where one is
/// named.
pub open spec fn generator_arguments(generator: Option<Seq<char>>) -> Seq<Seq<char>> {
    match generator {
        Some(name) => seq!["-G"@, name],
        None => Seq::empty(),
    }
}

/// The arguments with which CMake configures a project from outside its
/// build directory, with the export of compile commands on.
pub open spec fn cmake_configure_arguments_of(
    source_dir: Seq<char>,
    build_dir: Seq<char>,
    generator: Option<Seq<char>>,
    extra: Seq<Seq<char>>,
) -> Seq<Seq<char>> {
    seq!["-S"@, source_dir, "-B"@, build_dir, "-DCMAKE_EXPORT_COMPILE_COMMANDS=ON"@]
        + generator_arguments(generator) + extra
}

/// Adds the texts of a list to the arguments.
fn extend(arguments: &mut Vec<String>, more: &[String])
    ensures
        texts(final(arguments)@) == texts(old(arguments)@) + texts(more@),
{
    let ghost start = texts(arguments@);
    let mut i: usize = 0;
    proof {
        assert(texts(arguments@) =~= start + texts(more@).take(0));
    }
    while i < more.len()
        invariant
            i <= more.len(),
            texts(arguments@) == start + texts(more@).take(i as int),
        decreases more.len() - i,
    {
        let ghost before = texts(arguments@);
        arguments.push(more[i].clone());
        proof {
            assert(texts(arguments@) =~= before.push(more@[i as int]@));
            assert(texts(arguments@) =~= start + texts(more@).take(i as int + 1));
        }
        i += 1;
    }
    proof {
        assert(texts(more@).take(i as int) =~= texts(more@));
    }
}

/// Adds the generator to the arguments, where one is named.
fn add_generator(arguments: &mut Vec<String>, generator: Option<&str>)
    ensures
        texts(final(arguments)@) == texts(old(arguments)@) + generator_arguments(
            text_of(generator),
        ),
{
    let ghost before = texts(arguments@);
    match generator {
        Some(name) => {
            arguments.push(String::from_str("-G"));
            arguments.push(String::from_str(name));
            proof {
                assert(texts(arguments@) =~= before + seq!["-G"@, name@]);
            }
        },
        None => {
            proof {
                assert(texts(arguments@) =~= before + Seq::<Seq<char>>::empty());
            }
        },
    }
}

/// The arguments with which CMake configures a project from outside its
/// build directory.
pub fn cmake_configure_arguments(
    source_dir: &str,
    build_dir: &str,
    generator: Option<&str>,
    extra: &[String],
) -> (r: Vec<String>)
    ensures
        texts(r@) == cmake_configure_arguments_of(
            source_dir@,
            build_dir@,
            text_of(generator),
            texts(extra@),
        ),
{
    let mut arguments: Vec<String> = Vec::new();
    arguments.push(String::from_str("-S"));
    arguments.push(String::from_str(source_dir));
    arguments.push(String::from_str("-B"));
    arguments.push(String::from_str(build_dir));
    arguments.push(String::from_str("-DCMAKE_EXPORT_COMPILE_COMMANDS=ON"));
    proof {
        assert(texts(arguments@) =~= seq![
            "-S"@,
            source_dir@,
            "-B"@,
            build_dir@,
            "-DCMAKE_EXPORT_COMPILE_COMMANDS=ON"@,
        ]);
    }
    add_generator(&mut arguments, generator);
    extend(&mut arguments, extra);
    arguments
}

/// The arguments with which CMake configures a project from inside its
/// build directory, for a debug build with the export of compile commands
/// on.
pub open spec fn cmake_build_arguments_of(generator: Option<Seq<char>>) -> Seq<Seq<char>> {
    generator_arguments(generator) + seq![
        ".."@,
        "-DCMAKE_EXPORT_COMPILE_COMMANDS=ON"@,
        "-DCMAKE_BUILD_TYPE=Debug"@,
    ]
}

/// The arguments with which CMake configures a project from inside its
/// build directory.
pub fn cmake_build_arguments(generator: Option<&str>) -> (r: Vec<String>)
    ensures
        texts(r@) == cmake_build_arguments_of(text_of(generator)),
{
    let mut arguments: Vec<String> = Vec::new();
    proof {
        assert(texts(arguments@) =~= Seq::empty());
    }
    add_generator(&mut arguments, generator);
    let ghost before = texts(arguments@);
    arguments.push(String::from_str(".."));
    arguments.push(String::from_str("-DCMAKE_EXPORT_COMPILE_COMMANDS=ON"));
    arguments.push(String::from_str("-DCMAKE_BUILD_TYPE=Debug"));
    proof {
        assert(before =~= generator_arguments(text_of(generator)));
        assert(texts(arguments@) =~= before + seq![
            ".."@,
            "-DCMAKE_EXPORT_COMPILE_COMMANDS=ON"@,
            "-DCMAKE_BUILD_TYPE=Debug"@,
        ]);
    }
    arguments
}

/// The arguments with which Make prints what it would run, and the
/// directories it enters, before the arguments given.
pub fn make_dry_run_arguments(make_args: &[String]) -> (r: Vec<String>)
    ensures
        texts(r@) == seq!["-n"@, "-w"@] + texts(make_args@),
{
    let mut arguments: Vec<String> = Vec::new();
    arguments.push(String::from_str("-n"));
    arguments.push(String::from_str("-w"));
    proof {
        assert(texts(arguments@) =~= seq!["-n"@, "-w"@]);
    }
    extend(&mut arguments, make_args);
    arguments
}

/// The arguments with which the tool for Visual Studio solutions is asked
/// for a compilation database: the solution, then the configuration and the
/// platform where they are named.
pub open spec fn solution_arguments_of(
    solution: Seq<char>,
    configuration: Option<Seq<char>>,
    platform: Option<Seq<char>>,
) -> Seq<Seq<char>> {
    seq!["-p"@, solution] + match configuration {
        Some(name) => seq!["-c"@, name],
        None => Seq::empty(),
    } + match platform {
        Some(name) => seq!["-p"@, name],
        None => Seq::empty(),
    }
}

/// The arguments with which the tool for Visual Studio solutions is asked
/// for a compilation database.
pub fn solution_arguments(solution: &str, configuration: Option<&str>, platform: Option<&str>) -> (r:
    Vec<String>)
    ensures
        texts(r@) == solution_arguments_of(solution@, text_of(configuration), text_of(platform)),
{
    let mut arguments: Vec<String> = Vec::new();
    arguments.push(String::from_str("-p"));
    arguments.push(String::from_str(solution));
    proof {
        assert(texts(arguments@) =~= seq!["-p"@, solution@]);
    }
    let ghost first = texts(arguments@);
    match configuration {
        Some(name) => {
            arguments.push(String::from_str("-c"));
            arguments.push(String::from_str(name));
            proof {
                assert(texts(arguments@) =~= first + seq!["-c"@, name@]);
            }
        },
        None => {
            proof {
                assert(texts(arguments@) =~= first + Seq::<Seq<char>>::empty());
            }
        },
    }
    let ghost second = texts(arguments@);
    match platform {
        Some(name) => {
            arguments.push(String::from_str("-p"));
            arguments.push(String::from_str(name));
            proof {
                assert(texts(arguments@) =~= second + seq!["-p"@, name@]);
            }
        },
        None => {
            proof {
                assert(texts(arguments@) =~= second + Seq::<Seq<char>>::empty());
            }
        },
    }
    arguments
}

/// The arguments with which the Rust analyzer is asked for an LSIF index of
/// a project, written to a file.
pub fn lsif_arguments(project_dir: &str, output_path: &str) -> (r: Vec<String>)
    ensures
        texts(r@) == seq!["lsif"@, project_dir@, "--output"@, output_path@],
{
    let mut arguments: Vec<String> = Vec::new();
    arguments.push(String::from_str("lsif"));
    arguments.push(String::from_str(project_dir));
    arguments.push(String::from_str("--output"));
    arguments.push(String::from_str(output_path));
    proof {
        assert(texts(arguments@) =~= seq!["lsif"@, project_dir@, "--output"@, output_path@]);
    }
    arguments
}

/// The program that is the Rust analyzer: the one that the environment
/// names, or `rust-analyzer`.
pub fn analyzer_program(named: Option<&str>) -> (r: String)
    ensures
        r@ == match named {
            Some(program) => program@,
            None => "rust-analyzer"@,
        },
{
    match named {
        Some(program) => String::from_str(program),
        None => String::from_str("rust-analyzer"),
    }
}

/// Whether a package of a workspace is scanned: the packages of this tool,
/// whose names begin with `symgraph`, are not.
pub fn is_scanned_package(name: &str) -> (r: bool)
    ensures
        r == !crate::text::starts_with_seq(name@, "symgraph"@),
{
    !crate::text::str_starts_with(name, "symgraph")
}

/// Whether a project of a language is scanned as a project of scripts: a
/// Python, JavaScript or TypeScript project is; for any other the message
/// says why not.
pub fn script_scan(language: &ScipLanguage) -> (r: Result<(), String>)
    ensures
        match *language {
            ScipLanguage::Python | ScipLanguage::JavaScript | ScipLanguage::TypeScript => r is Ok,
            ScipLanguage::Unknown => r matches Err(message) && message@
                == "Cannot detect language for project annotation. Supported: Python, JavaScript, TypeScript"@,
            other => r matches Err(message) && message@
                == "This is not a script project. Use scan-scip for "@ + other.shown()
                + " projects"@,
        },
{
    match language {
        ScipLanguage::Python | ScipLanguage::JavaScript | ScipLanguage::TypeScript => Ok(()),
        ScipLanguage::Unknown => Err(
            String::from_str(
                "Cannot detect language for project annotation. Supported: Python, JavaScript, TypeScript",
            ),
        ),
        other => {
            let mut message = concat2(
                "This is not a script project. Use scan-scip for ",
                other.name().as_str(),
            );
            message.append(" projects");
            Err(message)
        },
    }
}

/// An entry of a compilation database as JSON: its directory and its file,
/// and its command and its arguments where it has them.
pub open spec fn entry_json(e: EntryView) -> JsonValue {
    JsonValue::Object(
        seq![("directory"@, JsonValue::Text(e.directory)), ("file"@, JsonValue::Text(e.file))]
            + match e.command {
            Some(command) => seq![("command"@, JsonValue::Text(command))],
            None => Seq::empty(),
        } + match e.arguments {
            Some(arguments) => seq![("arguments"@, texts_json(arguments))],
            None => Seq::empty(),
        },
    )
}

/// A compilation database as JSON: the list of its entries.
pub open spec fn entries_json(entries: Seq<CompileCommandEntry>) -> JsonValue {
    JsonValue::List(Seq::new(entries.len(), |i: int| entry_json(entry_view(entries[i]))))
}

/// An entry of a compilation database as JSON.
pub fn entry_to_json(e: &CompileCommandEntry) -> (r: Json)
    ensures
        r@ == entry_json(entry_view(*e)),
        r@.nesting_within(2),
{
    let mut fields: Vec<(String, Json)> = Vec::new();
    fields.push(entry("directory", Json::Text(e.directory.clone())));
    fields.push(entry("file", Json::Text(e.file.clone())));
    match &e.command {
        Some(command) => {
            fields.push(entry("command", Json::Text(command.clone())));
        },
        None => {},
    }
    match &e.arguments {
        Some(arguments) => {
            let list = texts_to_json(arguments);
            proof {
                assert(texts(arguments@) =~= texts_view(arguments@));
            }
            fields.push(entry("arguments", list));
        },
        None => {},
    }
    let r = Json::Object(fields);
    proof {
        reveal_with_fuel(json_value, 2);
        reveal_with_fuel(JsonValue::nesting_within, 2);
        let stored = r@->Object_0;
        assert(stored =~= entry_json(entry_view(*e))->Object_0);
        assert forall|i: int| 0 <= i < stored.len() implies (#[trigger] stored[i]).1.nesting_within(
            1,
        ) by {}
    }
    r
}

/// A compilation database as JSON.
pub fn entries_to_json(entries: &Vec<CompileCommandEntry>) -> (r: Json)
    ensures
        r@ == entries_json(entries@),
        r@.nesting_within(3),
{
    let mut out: Vec<Json> = Vec::new();
    let mut i: usize = 0;
    while i < entries.len()
        invariant
            i <= entries.len(),
            out@.len() == i,
            forall|k: int| 0 <= k < i ==> (#[trigger] out@[k])@ == entry_json(
                entry_view(entries@[k]),
            ),
            forall|k: int| 0 <= k < i ==> (#[trigger] out@[k])@.nesting_within(2),
        decreases entries.len() - i,
    {
        out.push(entry_to_json(&entries[i]));
        i += 1;
    }
    let r = Json::List(out);
    proof {
        reveal_with_fuel(json_value, 2);
        assert(r@->List_0 =~= entries_json(entries@)->List_0);
        assert(r@.nesting_within(3));
    }
    r
}

/// The compilation database that stands for a Cargo project: one entry for
/// its main file, compiled by `rustc` in the 2021 edition.
pub open spec fn cargo_compdb(project: Seq<char>) -> JsonValue {
    JsonValue::List(
        seq![
            JsonValue::Object(
                seq![
                    (
                        "arguments"@,
                        texts_json(seq!["rustc"@, "--edition=2021"@, "src/main.rs"@]),
                    ),
                    ("directory"@, JsonValue::Text(project)),
                    ("file"@, JsonValue::Text("src/main.rs"@)),
                    ("output"@, JsonValue::Text("target/debug/main"@)),
                ],
            ),
        ],
    )
}

/// The compilation database that stands for a Cargo project.
pub fn cargo_compdb_json(project: &str) -> (r: Json)
    ensures
        r@ == cargo_compdb(project@),
        r@.nesting_within(3),
{
    let mut arguments: Vec<String> = Vec::new();
    arguments.push(String::from_str("rustc"));
    arguments.push(String::from_str("--edition=2021"));
    arguments.push(String::from_str("src/main.rs"));
    proof {
        assert(texts_view(arguments@) =~= seq!["rustc"@, "--edition=2021"@, "src/main.rs"@]);
    }
    let mut fields: Vec<(String, Json)> = Vec::new();
    fields.push(entry("arguments", texts_to_json(&arguments)));
    fields.push(entry("directory", Json::Text(String::from_str(project))));
    fields.push(entry("file", Json::Text(String::from_str("src/main.rs"))));
    fields.push(entry("output", Json::Text(String::from_str("target/debug/main"))));
    let one = Json::Object(fields);
    proof {
        reveal_with_fuel(json_value, 2);
        reveal_with_fuel(JsonValue::nesting_within, 2);
        assert(one@->Object_0 =~= cargo_compdb(project@)->List_0[0]->Object_0);
        let stored = one@->Object_0;
        assert forall|i: int| 0 <= i < stored.len() implies (#[trigger] stored[i]).1.nesting_within(
            1,
        ) by {}
        assert(one@.nesting_within(2));
    }
    let mut list: Vec<Json> = Vec::new();
    list.push(one);
    let r = Json::List(list);
    proof {
        reveal_with_fuel(json_value, 2);
        assert(r@->List_0 =~= cargo_compdb(project@)->List_0);
        assert(r@.nesting_within(3));
    }
    r
}

} // verus!
