use std::io::Write;
use symgraph::cli::{generate_compdb, BuildSystemType, CompdbGenerator, ProjectFacts};
use symgraph::discovery::{
    check_scip_tool_availability, detect_build_system, detect_language, generate_compile_commands,
    generate_scip_index, parse_compile_commands, BuildFiles, BuildSystem, CompdbError, CompdbPlan,
    ScipConfig, ScipLanguage,
};

#[test]
fn test_parse_with_command_field() {
    let json = r#"[
            {
                "directory": "/home/user/project/build",
                "file": "/home/user/project/src/main.cpp",
                "command": "clang++ -std=c++20 -I/usr/include -c main.cpp -o main.o"
            }
        ]"#;

    let cmds = parse_compile_commands(json).unwrap();
    assert_eq!(cmds.len(), 1);
    assert_eq!(cmds[0].directory, "/home/user/project/build");
    assert_eq!(cmds[0].file, "/home/user/project/src/main.cpp");
    assert!(cmds[0].command.is_some());
    assert!(cmds[0].arguments.is_none());
}

#[test]
fn test_parse_with_arguments_field() {
    let json = r#"[
            {
                "directory": "C:/projects/myapp/build",
                "file": "C:/projects/myapp/src/app.cpp",
                "arguments": ["clang++", "-std=c++20", "-Wall", "-c", "app.cpp", "-o", "app.o"]
            }
        ]"#;

    let cmds = parse_compile_commands(json).unwrap();
    assert_eq!(cmds.len(), 1);
    assert!(cmds[0].command.is_none());
    assert!(cmds[0].arguments.is_some());

    let args = cmds[0].arguments.as_ref().unwrap();
    assert!(args.contains(&"clang++".to_string()));
    assert!(args.contains(&"-std=c++20".to_string()));
    assert!(args.contains(&"-Wall".to_string()));
}

#[test]
fn test_parse_multiple_files() {
    let json = r#"[
            {
                "directory": "/build",
                "file": "/src/main.cpp",
                "command": "clang++ -c main.cpp"
            },
            {
                "directory": "/build",
                "file": "/src/utils.cpp",
                "command": "clang++ -c utils.cpp"
            },
            {
                "directory": "/build",
                "file": "/src/math.cpp",
                "command": "clang++ -c math.cpp"
            }
        ]"#;

    let cmds = parse_compile_commands(json).unwrap();
    assert_eq!(cmds.len(), 3);

    let files: Vec<&str> = cmds.iter().map(|c| c.file.as_str()).collect();
    assert!(files.contains(&"/src/main.cpp"));
    assert!(files.contains(&"/src/utils.cpp"));
    assert!(files.contains(&"/src/math.cpp"));
}

#[test]
fn test_parse_cmake_ninja_format() {
    let json = r#"[
            {
                "directory": "C:/Users/dev/project/build",
                "command": "C:\\PROGRA~1\\LLVM\\bin\\clang++.exe  -IC:/Users/dev/project/include -std=c++20 -MD -MT CMakeFiles/app.dir/src/main.cpp.obj -MF CMakeFiles\\app.dir\\src\\main.cpp.obj.d -o CMakeFiles/app.dir/src/main.cpp.obj -c C:/Users/dev/project/src/main.cpp",
                "file": "C:/Users/dev/project/src/main.cpp"
            }
        ]"#;

    let cmds = parse_compile_commands(json).unwrap();
    assert_eq!(cmds.len(), 1);
    assert!(cmds[0].command.as_ref().unwrap().contains("-std=c++20"));
    assert!(cmds[0].file.ends_with("main.cpp"));
}

#[test]
fn test_parse_empty() {
    let json = "[]";
    let cmds = parse_compile_commands(json).unwrap();
    assert!(cmds.is_empty());
}

#[test]
fn test_different_directories() {
    let json = r#"[
            {
                "directory": "/build/debug",
                "file": "/src/a.cpp",
                "command": "clang++ -g -O0 -c a.cpp"
            },
            {
                "directory": "/build/release",
                "file": "/src/a.cpp",
                "command": "clang++ -O3 -DNDEBUG -c a.cpp"
            }
        ]"#;

    let cmds = parse_compile_commands(json).unwrap();
    assert_eq!(cmds.len(), 2);
    assert_eq!(cmds[0].directory, "/build/debug");
    assert_eq!(cmds[1].directory, "/build/release");
    assert_eq!(cmds[0].file, cmds[1].file);
}

#[test]
fn compile_commands_that_are_refused() {
    assert!(matches!(parse_compile_commands("not json"), Err(CompdbError::NotJson(_))));
    assert!(matches!(parse_compile_commands("{}"), Err(CompdbError::NotCommands)));
    assert!(matches!(
        parse_compile_commands(r#"[{"directory": "/b"}]"#),
        Err(CompdbError::NotCommands)
    ));
    assert!(matches!(
        parse_compile_commands(r#"[{"directory": "/b", "file": "f", "arguments": [1]}]"#),
        Err(CompdbError::NotCommands)
    ));
    let ok = parse_compile_commands(
        r#"[{"directory": "/b", "file": "f", "command": null, "arguments": null, "output": "o"}]"#,
    )
    .unwrap();
    assert!(ok[0].command.is_none());
    assert!(ok[0].arguments.is_none());
}

fn files(cmake: bool, cargo: bool, extensions: &[&str], makefile: bool) -> BuildFiles {
    BuildFiles {
        cmake_lists: cmake,
        cargo_toml: cargo,
        extensions: extensions.iter().map(|s| s.to_string()).collect(),
        makefile,
    }
}

#[test]
fn test_detect_build_system_cargo() {
    let td = tempfile::tempdir().expect("tempdir");
    let mut cargo = tempfile::Builder::new()
        .prefix("Cargo")
        .suffix(".toml")
        .rand_bytes(0)
        .tempfile_in(td.path())
        .expect("Cargo.toml");
    cargo.write_all(b"[package]\nname = \"x\"\nversion = \"0.1.0\"").unwrap();
    let seen = BuildFiles {
        cmake_lists: td.path().join("CMakeLists.txt").exists(),
        cargo_toml: td.path().join("Cargo.toml").exists(),
        extensions: vec!["toml".to_string()],
        makefile: td.path().join("Makefile").exists(),
    };
    assert!(seen.cargo_toml);
    assert_eq!(detect_build_system(&seen), BuildSystem::Cargo);
}

#[test]
fn build_systems_by_priority() {
    assert_eq!(detect_build_system(&files(true, true, &["sln"], true)), BuildSystem::CMake);
    assert_eq!(detect_build_system(&files(false, true, &["sln"], true)), BuildSystem::Cargo);
    assert_eq!(
        detect_build_system(&files(false, false, &["txt", "vcxproj", "sln"], true)),
        BuildSystem::VcxProj
    );
    assert_eq!(
        detect_build_system(&files(false, false, &["sln", "vcxproj"], true)),
        BuildSystem::Solution
    );
    assert_eq!(detect_build_system(&files(false, false, &["c"], true)), BuildSystem::Make);
    assert_eq!(detect_build_system(&files(false, false, &[], false)), BuildSystem::Unknown);
}

#[test]
fn compile_commands_plans() {
    match generate_compile_commands("/p", "/p/cc.json", None, &files(true, false, &[], false)) {
        Ok(CompdbPlan::CMake { source_dir, build_dir, generator }) => {
            assert_eq!(source_dir, "/p");
            assert_eq!(build_dir, None);
            assert_eq!(generator, "Ninja");
        }
        _ => panic!("a CMake project is configured with CMake"),
    }
    match generate_compile_commands("/p", "/o", Some("/b"), &files(false, false, &["sln"], false)) {
        Ok(CompdbPlan::Solution { dir, output, configuration, platform }) => {
            assert_eq!(dir, "/p");
            assert_eq!(output, "/o");
            assert_eq!(configuration, "Debug");
            assert_eq!(platform, "x64");
        }
        _ => panic!("a solution is read as one"),
    }
    match generate_compile_commands("/p", "/o", None, &files(false, false, &[], false)) {
        Err(message) => assert_eq!(
            message,
            "Could not detect build system in /p. \nSupported: CMakeLists.txt, Makefile, .vcxproj, .sln, Cargo.toml"
        ),
        _ => panic!("no build system, no plan"),
    }
}

#[test]
fn compdb_command_defaults() {
    let facts = ProjectFacts { cmake_lists: false, makefile: true, cargo_toml: true, solution: true };
    let command = generate_compdb(".", None, None, None, None, None, None, &facts).unwrap();
    assert_eq!(command.generator, CompdbGenerator::Make);
    assert_eq!(command.output, "compile_commands.json");
    assert_eq!(command.build_dir, "build");
    let command = generate_compdb(
        "/p",
        Some("out.json"),
        Some("b"),
        Some(BuildSystemType::Solution),
        Some("Ninja"),
        Some("Release"),
        Some("x64"),
        &facts,
    )
    .unwrap();
    assert_eq!(command.generator, CompdbGenerator::Solution);
    assert_eq!(command.project, "/p");
    assert_eq!(command.output, "out.json");
    assert_eq!(command.build_dir, "b");
    assert_eq!(command.cmake_generator.as_deref(), Some("Ninja"));
    assert_eq!(command.configuration.as_deref(), Some("Release"));
    assert_eq!(command.platform.as_deref(), Some("x64"));
    let nothing = ProjectFacts { cmake_lists: false, makefile: false, cargo_toml: false, solution: false };
    assert_eq!(
        generate_compdb("/p", None, None, Some(BuildSystemType::Auto), None, None, None, &nothing)
            .unwrap_err(),
        "Could not detect build system in /p"
    );
    assert_eq!(
        generate_compdb("/p", None, None, None, None, None, None, &ProjectFacts { cargo_toml: true, ..nothing })
            .unwrap()
            .generator,
        CompdbGenerator::Cargo
    );
}

#[test]
fn languages_of_directories() {
    let endings = |list: &[&str]| list.iter().map(|s| s.to_string()).collect::<Vec<String>>();
    assert_eq!(detect_language(true, &endings(&["py"])), ScipLanguage::Rust);
    assert_eq!(detect_language(false, &endings(&["txt", "py", "rs"])), ScipLanguage::Python);
    assert_eq!(detect_language(false, &endings(&["hpp"])), ScipLanguage::Cpp);
    assert_eq!(detect_language(false, &endings(&["mjs"])), ScipLanguage::JavaScript);
    assert_eq!(detect_language(false, &endings(&["md"])), ScipLanguage::Unknown);
    assert_eq!(check_scip_tool_availability(&ScipLanguage::PHP), Some("vendor/bin/scip-php"));
    assert_eq!(check_scip_tool_availability(&ScipLanguage::Unknown), None);
}

#[test]
fn index_runs() {
    let rust = ScipConfig::new(ScipLanguage::Rust, "/p", "/p/.scip")
        .with_extra_args(vec!["-v".to_string()]);
    let run = generate_scip_index(&rust).unwrap();
    assert_eq!(run.program, "rust-analyzer");
    assert_eq!(
        run.args,
        vec!["scip", ".", "--output", "/p/.scip", "--exclude-vendored-libraries", "-v"]
    );
    assert_eq!(run.current_dir, "/p");
    assert_eq!(run.output, "/p/.scip");
    assert!(!run.output_from_stdout);
    assert_eq!(run.needed_input, None);
    assert_eq!(
        run.install_hint,
        "Failed to execute rust-analyzer. Install with: rustup component add rust-analyzer"
    );

    let cpp = ScipConfig::new(ScipLanguage::Cpp, "/p", "/o");
    assert_eq!(
        generate_scip_index(&cpp).unwrap_err(),
        "compile_commands.json is required for C++ SCIP generation"
    );
    let run = generate_scip_index(&cpp.with_compile_commands("/p/cc.json")).unwrap();
    assert_eq!(run.program, "scip-clang");
    assert_eq!(run.args, vec!["index", "/p/cc.json", "--output", "/o"]);
    assert_eq!(run.needed_input.as_deref(), Some("/p/cc.json"));

    let shell = ScipConfig::new(ScipLanguage::Shell, "/p", "/o")
        .with_extra_args(vec!["ignored".to_string()]);
    let run = generate_scip_index(&shell).unwrap();
    assert_eq!(run.args, vec!["index", "."]);
    assert!(run.output_from_stdout);

    let ts = generate_scip_index(&ScipConfig::new(ScipLanguage::TypeScript, "/p", "/o")).unwrap();
    assert_eq!(ts.program, "scip-typescript");
    assert_eq!(ts.args, vec!["index", "--project-root", ".", "--output", "/o"]);
    let php = generate_scip_index(&ScipConfig::new(ScipLanguage::PHP, "/p", "/o")).unwrap();
    assert_eq!(php.args, vec!["index", "--output", "/o"]);
    let lua = generate_scip_index(&ScipConfig::new(ScipLanguage::Lua, "/p", "/o")).unwrap();
    assert_eq!(lua.program, "scip-lua");
    assert_eq!(lua.args, vec!["index", ".", "--output", "/o"]);
    assert_eq!(
        generate_scip_index(&ScipConfig::new(ScipLanguage::Unknown, "/p", "/o")).unwrap_err(),
        "Unknown language for SCIP generation"
    );
}
