use symgraph::buildfiles::{
    is_source_extension, keep_source, parse_make_dry_run, parse_vcxproj, project_source_entry,
    solution_projects,
};
use symgraph::commands::{
    analyzer_program, cargo_compdb_json, cmake_build_arguments, cmake_configure_arguments,
    entries_to_json, is_scanned_package, lsif_arguments, make_dry_run_arguments, script_scan,
    solution_arguments,
};
use symgraph::discovery::{CompileCommandEntry, ScipLanguage};
use symgraph::json::encode;

#[test]
fn test_parse_make_dry_run() {
    let output = r#"
make[1]: Entering directory '/home/user/project'
gcc -I./include -DDEBUG -c src/main.c -o build/main.o
g++ -std=c++17 -c src/app.cpp -o build/app.o
make[1]: Leaving directory '/home/user/project'
"#;
    let entries = parse_make_dry_run(output, "/home/user/project").unwrap();
    assert_eq!(entries.len(), 2);
    assert!(entries[0].file.contains("main.c"));
    assert!(entries[1].file.contains("app.cpp"));
}

#[test]
fn make_sources_are_resolved_against_the_directory() {
    let output = r#"
make[1]: Entering directory '/home/user/project'
gcc -I./include -DDEBUG -c src/main.c -o build/main.o
g++ -std=c++17 -c src/app.cpp -o build/app.o
make[1]: Leaving directory '/home/user/project'
"#;
    let entries = parse_make_dry_run(output, "/home/user/project").unwrap();
    assert_eq!(entries.len(), 2);
    assert_eq!(entries[0].file, "/home/user/project/src/main.c");
    assert_eq!(entries[1].file, "/home/user/project/src/app.cpp");
    for entry in &entries {
        assert_eq!(entry.directory, "/home/user/project");
        assert_eq!(entry.arguments, None);
    }
    assert_eq!(
        entries[0].command.as_deref(),
        Some("gcc -I./include -DDEBUG -c src/main.c -o build/main.o")
    );
    assert_eq!(entries[1].command.as_deref(), Some("g++ -std=c++17 -c src/app.cpp -o build/app.o"));
}

#[test]
fn a_command_is_kept_by_the_ending_of_its_source() {
    let entry = || CompileCommandEntry {
        directory: "/w".to_string(),
        file: "a.CPP".to_string(),
        command: Some("cc -c a.CPP".to_string()),
        arguments: None,
    };
    let kept = keep_source(entry(), "/w/a.CPP", Some("CPP")).unwrap();
    assert_eq!(kept.file, "/w/a.CPP");
    assert_eq!(kept.directory, "/w");
    assert_eq!(kept.command.as_deref(), Some("cc -c a.CPP"));
    assert_eq!(kept.arguments, None);
    assert!(keep_source(entry(), "/w/a.mm", Some("mm")).is_some());
    assert!(keep_source(entry(), "/w/a.h", Some("h")).is_none());
    assert!(keep_source(entry(), "/w/a", None).is_none());
    assert!(keep_source(entry(), "/w/a.", Some("")).is_none());
}

#[test]
fn test_parse_vcxproj_basic() {
    let vcxproj = r#"
<?xml version="1.0" encoding="utf-8"?>
<Project>
  <ItemGroup>
    <ClCompile Include="src\main.cpp" />
    <ClCompile Include="src\utils.cpp" />
  </ItemGroup>
  <ItemDefinitionGroup>
    <ClCompile>
      <AdditionalIncludeDirectories>include;external</AdditionalIncludeDirectories>
      <PreprocessorDefinitions>DEBUG;WIN32</PreprocessorDefinitions>
    </ClCompile>
  </ItemDefinitionGroup>
</Project>
"#;
    let entries = parse_vcxproj(vcxproj, "C:/project", "Debug", "x64").unwrap();
    assert_eq!(entries.len(), 2);
}

#[test]
fn make_output_is_read_line_by_line() {
    let output = "  clang -O2 -c a.c -o a.o  \nmake[2]: Entering directory \"/w/sub\"\ncc -Wall -c b.txt\necho done\nmake[2]: Entering directory '/w/other'\n";
    let entries = parse_make_dry_run(output, "/w").unwrap();
    assert_eq!(entries.len(), 1);
    assert_eq!(entries[0].directory, "/w");
    assert_eq!(entries[0].file, "/w/a.c");
    assert_eq!(entries[0].command.as_deref(), Some("clang -O2 -c a.c -o a.o"));
    assert_eq!(entries[0].arguments, None);
    let entered =
        parse_make_dry_run("make[2]: Entering directory \"/w/sub\"\ncc -Wall -c /abs/b.C\n", "/w")
            .unwrap();
    assert_eq!(entered.len(), 1);
    assert_eq!(entered[0].directory, "/w/sub");
    assert_eq!(entered[0].file, "/abs/b.C");
    assert!(parse_make_dry_run("", "/w").unwrap().is_empty());
    assert!(is_source_extension("c") && is_source_extension("c++") && is_source_extension("mm"));
    assert!(!is_source_extension("txt") && !is_source_extension("C") && !is_source_extension(""));
}

#[test]
fn project_settings_become_arguments() {
    let vcxproj = r#"<ClCompile Include="a.cpp" />
<AdditionalIncludeDirectories>$(ProjectDir)inc;;%(AdditionalIncludeDirectories);third</AdditionalIncludeDirectories>
<PreprocessorDefinitions>A=1;%(PreprocessorDefinitions);$(ProjectDir)B</PreprocessorDefinitions>
<AdditionalIncludeDirectories>more</AdditionalIncludeDirectories>"#;
    let entries = parse_vcxproj(vcxproj, "C:/p/", "release", "Win32").unwrap();
    assert_eq!(entries.len(), 1);
    assert_eq!(entries[0].directory, "C:/p/");
    assert_eq!(entries[0].file, "C:/p/a.cpp");
    assert_eq!(entries[0].command, None);
    assert_eq!(
        entries[0].arguments.as_ref().unwrap(),
        &vec![
            "clang-cl".to_string(),
            "/D_RELEASE".to_string(),
            "-IC:/p/inc".to_string(),
            "-Ithird".to_string(),
            "-Imore".to_string(),
            "-DA=1".to_string(),
            "-D$(ProjectDir)B".to_string(),
            "-c".to_string(),
            "C:/p/a.cpp".to_string(),
        ]
    );
    let entry = project_source_entry(&vec!["clang-cl".to_string(), "-c".to_string()], "d", "C:/p/a.cpp");
    assert_eq!(entry.file, "C:/p/a.cpp");
    assert_eq!(entry.directory, "d");
    assert_eq!(entry.command, None);
    assert_eq!(
        entry.arguments.unwrap(),
        vec!["clang-cl".to_string(), "-c".to_string(), "C:/p/a.cpp".to_string()]
    );
}

#[test]
fn projects_of_a_solution() {
    let sln = "Project(\"{8BC9CEB8}\") = \"app\", \"src\\app\\app.vcxproj\", \"{1}\"\nEndProject\nProject(\"{8BC9CEB8}\") = \"lib\", \"lib.vcxproj\", \"{2}\"\nProject(\"{X}\") = \"cs\", \"cs.csproj\", \"{3}\"\n";
    assert_eq!(
        solution_projects(sln).unwrap(),
        vec!["src/app/app.vcxproj".to_string(), "lib.vcxproj".to_string()]
    );
    assert!(solution_projects("").unwrap().is_empty());
}

#[test]
fn command_lines() {
    assert_eq!(
        cmake_configure_arguments("/s", "/b", Some("Ninja"), &["-DX=1".to_string()]),
        vec!["-S", "/s", "-B", "/b", "-DCMAKE_EXPORT_COMPILE_COMMANDS=ON", "-G", "Ninja", "-DX=1"]
    );
    assert_eq!(
        cmake_configure_arguments("/s", "/b", None, &[]),
        vec!["-S", "/s", "-B", "/b", "-DCMAKE_EXPORT_COMPILE_COMMANDS=ON"]
    );
    assert_eq!(
        cmake_build_arguments(Some("Unix Makefiles")),
        vec!["-G", "Unix Makefiles", "..", "-DCMAKE_EXPORT_COMPILE_COMMANDS=ON", "-DCMAKE_BUILD_TYPE=Debug"]
    );
    assert_eq!(
        cmake_build_arguments(None),
        vec!["..", "-DCMAKE_EXPORT_COMPILE_COMMANDS=ON", "-DCMAKE_BUILD_TYPE=Debug"]
    );
    assert_eq!(make_dry_run_arguments(&["all".to_string()]), vec!["-n", "-w", "all"]);
    assert_eq!(
        solution_arguments("a.sln", Some("Release"), Some("x64")),
        vec!["-p", "a.sln", "-c", "Release", "-p", "x64"]
    );
    assert_eq!(solution_arguments("a.sln", None, None), vec!["-p", "a.sln"]);
    assert_eq!(lsif_arguments("/p", "/o.lsif"), vec!["lsif", "/p", "--output", "/o.lsif"]);
    assert_eq!(analyzer_program(None), "rust-analyzer");
    assert_eq!(analyzer_program(Some("/fake/ra")), "/fake/ra");
    assert!(is_scanned_package("serde"));
    assert!(!is_scanned_package("symgraph-core"));
}

#[test]
fn scans_of_scripts() {
    assert_eq!(script_scan(&ScipLanguage::Python), Ok(()));
    assert_eq!(script_scan(&ScipLanguage::TypeScript), Ok(()));
    assert_eq!(
        script_scan(&ScipLanguage::Unknown).unwrap_err(),
        "Cannot detect language for project annotation. Supported: Python, JavaScript, TypeScript"
    );
    assert_eq!(
        script_scan(&ScipLanguage::Cpp).unwrap_err(),
        "This is not a script project. Use scan-scip for C++ projects"
    );
}

#[test]
fn compilation_databases_as_json() {
    let entries = vec![
        CompileCommandEntry {
            directory: "/d".to_string(),
            file: "a.c".to_string(),
            command: Some("cc -c a.c".to_string()),
            arguments: None,
        },
        CompileCommandEntry {
            directory: "/d".to_string(),
            file: "b.c".to_string(),
            command: None,
            arguments: Some(vec!["cc".to_string(), "b.c".to_string()]),
        },
    ];
    assert_eq!(
        String::from_utf8(encode(&entries_to_json(&entries)).unwrap()).unwrap(),
        "[{\"directory\":\"/d\",\"file\":\"a.c\",\"command\":\"cc -c a.c\"},{\"directory\":\"/d\",\"file\":\"b.c\",\"arguments\":[\"cc\",\"b.c\"]}]"
    );
    assert_eq!(
        String::from_utf8(encode(&cargo_compdb_json("/p")).unwrap()).unwrap(),
        "[{\"arguments\":[\"rustc\",\"--edition=2021\",\"src/main.rs\"],\"directory\":\"/p\",\"file\":\"src/main.rs\",\"output\":\"target/debug/main\"}]"
    );
    let read = symgraph::discovery::parse_compile_commands(
        &String::from_utf8(encode(&entries_to_json(&entries)).unwrap()).unwrap(),
    )
    .unwrap();
    assert_eq!(read.len(), 2);
    assert_eq!(read[1].arguments.as_ref().unwrap().len(), 2);
}
