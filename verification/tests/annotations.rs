use symgraph::annotations::{
    cargo_name, cmake_name, count_test_files, detect_compiled_language, detect_cpp_build_system,
    extract_cpp_dependencies, extract_project_name_cpp, extract_project_name_rust,
    extract_rust_dependencies, find_cpp_entry_points, find_rust_entry_points,
    generate_cpp_description, generate_rust_description, infer_cpp_purpose, infer_rust_purpose,
    BuildSystem, CompiledLanguage, ProjectPurpose,
};

fn files(list: &[(&str, &str)]) -> Vec<(String, String, String)> {
    list.iter().map(|(path, category)| (path.to_string(), category.to_string(), String::new())).collect()
}

#[test]
fn purposes_of_cpp_projects() {
    assert_eq!(infer_cpp_purpose(&files(&[("src/Game/a.cpp", "implementation")])), ProjectPurpose::Game);
    assert_eq!(infer_cpp_purpose(&files(&[("src/engine.cpp", "x"), ("lib/a.cpp", "x")])), ProjectPurpose::Game);
    assert_eq!(infer_cpp_purpose(&files(&[("src/main.cpp", "entrypoint")])), ProjectPurpose::Application);
    assert_eq!(
        infer_cpp_purpose(&files(&[("src/main.cpp", "entrypoint"), ("LIB/a.cpp", "x")])),
        ProjectPurpose::Library
    );
    assert_eq!(infer_cpp_purpose(&files(&[("src/a.cpp", "x")])), ProjectPurpose::Unknown);
    assert_eq!(infer_cpp_purpose(&[]), ProjectPurpose::Unknown);
}

#[test]
fn purposes_of_rust_projects() {
    assert_eq!(
        infer_rust_purpose(&files(&[("src/main.rs", "x"), ("src/lib.rs", "x")])),
        ProjectPurpose::Tool
    );
    assert_eq!(infer_rust_purpose(&files(&[("src/bin/a.rs", "entrypoint")])), ProjectPurpose::Application);
    assert_eq!(infer_rust_purpose(&files(&[("src/lib.rs", "x")])), ProjectPurpose::Library);
    assert_eq!(infer_rust_purpose(&files(&[("src/a.rs", "x")])), ProjectPurpose::Unknown);
}

#[test]
fn entry_points_in_order() {
    let list = files(&[("b.cpp", "entrypoint"), ("a.cpp", "x"), ("src/main.rs", "x"), ("c", "entrypoint"), ("src/lib.rs", "y")]);
    assert_eq!(find_cpp_entry_points(&list), vec!["b.cpp".to_string(), "c".to_string()]);
    assert_eq!(
        find_rust_entry_points(&list),
        vec!["b.cpp".to_string(), "src/main.rs".to_string(), "c".to_string(), "src/lib.rs".to_string()]
    );
    assert!(extract_cpp_dependencies("/anywhere").is_empty());
}

#[test]
fn descriptions() {
    assert_eq!(
        generate_cpp_description(&ProjectPurpose::Game, 12),
        "This is a C++ game or engine with 12 source files."
    );
    assert_eq!(
        generate_cpp_description(&ProjectPurpose::Framework, 0),
        "This is a C++ project with 0 source files."
    );
    assert_eq!(
        generate_rust_description(&ProjectPurpose::Library, 1),
        "This is a Rust library crate with 1 source files."
    );
    assert_eq!(
        generate_rust_description(&ProjectPurpose::Tool, 1000),
        "This is a Rust command-line tool with 1000 source files."
    );
    assert_eq!(
        generate_rust_description(&ProjectPurpose::Game, 7),
        "This is a Rust project with 7 source files."
    );
}

#[test]
fn build_systems_of_cpp_projects() {
    assert_eq!(detect_cpp_build_system(true, true, true), BuildSystem::CMake);
    assert_eq!(detect_cpp_build_system(false, true, true), BuildSystem::Make);
    assert_eq!(detect_cpp_build_system(false, false, true), BuildSystem::Ninja);
    assert_eq!(detect_cpp_build_system(false, false, false), BuildSystem::Unknown);
}

#[test]
fn project_names() {
    assert_eq!(cmake_name("cmake_minimum_required(VERSION 3.20)\nproject( demo  LANGUAGES CXX )\n").as_deref(), Some("demo"));
    assert_eq!(cmake_name("project()"), None);
    assert_eq!(cmake_name("project(open"), None);
    assert_eq!(cmake_name("add_executable(a a.cpp)"), None);
    assert_eq!(extract_project_name_cpp("/work/thing", Some("project(named)")), "named");
    assert_eq!(extract_project_name_cpp("/work/thing", Some("nothing")), "thing");
    assert_eq!(extract_project_name_cpp("/work/thing", None), "thing");
    assert_eq!(extract_project_name_cpp("/", None), "cpp_project");

    assert_eq!(cargo_name("[package]\nname = \"x\"\nversion = \"0.1.0\"").as_deref(), Some("x"));
    assert_eq!(cargo_name("  name: none\nnamespace = \"\"quoted\"\" \n").as_deref(), Some("quoted"));
    assert_eq!(cargo_name("[package]\nversion = \"1\""), None);
    assert_eq!(extract_project_name_rust("/work/crate", Some("name = \"pkg\"")), "pkg");
    assert_eq!(extract_project_name_rust("/work/crate", Some("")), "crate");
    assert_eq!(extract_project_name_rust("", None), "rust_project");
}

#[test]
fn dependencies_of_a_manifest() {
    let manifest = "[package]\nname = \"x\"\n\n[dependencies]\nserde = \"1\"\n# regex = \"1\"\n  sled={ version = \"0.34\" }\nplain\n\n[dev-dependencies]\ntempfile = \"3\"\n[dependencies]\nuuid = \"1\"\n";
    assert_eq!(
        extract_rust_dependencies(manifest),
        vec!["serde".to_string(), "sled".to_string(), "uuid".to_string()]
    );
    assert!(extract_rust_dependencies("").is_empty());
}

#[test]
fn tests_and_languages() {
    let list = files(&[("a", "unittest"), ("b", "x"), ("c", "integration_test")]);
    assert_eq!(count_test_files(&list), 2);
    assert_eq!(count_test_files(&[]), 0);
    assert_eq!(detect_compiled_language(&files(&[("a.rs", ""), ("b.h", "")])), Some(CompiledLanguage::Cpp));
    assert_eq!(detect_compiled_language(&files(&[("a.rs", "")])), Some(CompiledLanguage::Rust));
    assert_eq!(detect_compiled_language(&files(&[("a.py", "")])), None);
}
