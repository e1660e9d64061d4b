use symgraph::scripts::{
    categorize_file, extract_javascript_symbols, extract_python_symbols,
    extract_typescript_symbols, find_file_ending, has_main_logic_patterns, infer_purpose,
    script_language, ArchitecturePattern, DependencyType, FileCategory, FileInfo, ProjectAnalyzer,
    ProjectPurpose, ProjectStructure, TopNode,
};

fn file(path: &str, language: &str, category: FileCategory, imports: &[&str]) -> FileInfo {
    FileInfo {
        path: path.to_string(),
        language: language.to_string(),
        category,
        purpose: String::new(),
        imports: imports.iter().map(|s| s.to_string()).collect(),
        exports: vec![],
        functions: vec![],
        classes: vec![],
    }
}

#[test]
fn test_categorize_entry_point() {
    let content = "def main():\n    print('Hello')";
    let category = categorize_file("main.py", "main.py", content, "python");
    assert!(matches!(category, FileCategory::EntryPoint));
}

#[test]
fn test_categorize_test_file() {
    let content = "import unittest\n\nclass TestUtils(unittest.TestCase):\n    pass";
    let category = categorize_file("test_utils.py", "test_utils.py", content, "python");
    assert!(matches!(category, FileCategory::UnitTest));
}

#[test]
fn test_categorize_core_logic() {
    let content = "class User:\n    def __init__(self):\n        pass\n\ndef process_data():\n    pass";
    let category = categorize_file("models.py", "models.py", content, "python");
    assert!(matches!(category, FileCategory::CoreLogic));
}

#[test]
fn categories_of_scripts() {
    assert_eq!(categorize_file("src/e2e/login.spec.js", "login.spec.js", "", "javascript"), FileCategory::IntegrationTest);
    assert_eq!(categorize_file("a/webpack.config.js", "webpack.config.js", "", "javascript"), FileCategory::Configuration);
    assert_eq!(categorize_file("setup.py", "setup.py", "", "python"), FileCategory::Configuration);
    assert_eq!(categorize_file("build.py", "build.py", "", "python"), FileCategory::BuildScript);
    assert_eq!(categorize_file("gulpfile.js", "gulpfile.js", "", "javascript"), FileCategory::BuildScript);
    assert_eq!(categorize_file("docs/a.py", "a.py", "", "python"), FileCategory::Documentation);
    assert_eq!(categorize_file("src/helpers/a.py", "a.py", "", "python"), FileCategory::Utility);
    assert_eq!(categorize_file("src/a.js", "a.js", "function f() {}", "javascript"), FileCategory::CoreLogic);
    assert_eq!(categorize_file("src/a.js", "a.js", "function f() { it('x') }", "javascript"), FileCategory::Unknown);
    assert_eq!(categorize_file("src/a.rb", "a.rb", "class A; def x; end; end", "ruby"), FileCategory::Unknown);
    assert!(has_main_logic_patterns("class A:\n def f(self): pass", "python"));
    assert!(!has_main_logic_patterns("class A:\n def f(self): pass\nimport pytest", "python"));
}

#[test]
fn purposes_of_scripts() {
    assert_eq!(infer_purpose("", &FileCategory::IntegrationTest), "Integration tests");
    assert_eq!(infer_purpose("", &FileCategory::BuildScript), "Build automation script");
    assert_eq!(infer_purpose("uses the db", &FileCategory::CoreLogic), "Database operations");
    assert_eq!(infer_purpose("an endpoint", &FileCategory::CoreLogic), "API endpoints");
    assert_eq!(infer_purpose("a schema", &FileCategory::CoreLogic), "Data models");
    assert_eq!(infer_purpose("plain", &FileCategory::CoreLogic), "Core application logic");
    assert_eq!(infer_purpose("db", &FileCategory::Unknown), "Unknown purpose");
    assert_eq!(script_language("py"), Some("python"));
    assert_eq!(script_language("mjs"), Some("javascript"));
    assert_eq!(script_language("ts"), Some("typescript"));
    assert_eq!(script_language("rb"), None);
}

#[test]
fn purposes_of_projects() {
    let ml = vec![file("a.py", "python", FileCategory::Unknown, &["import numpy as np"]), file("templates/a.html", "x", FileCategory::Unknown, &[])];
    assert_eq!(ProjectAnalyzer::infer_project_purpose(&ml), ProjectPurpose::MachineLearning);
    let web = vec![file("Static/a.js", "javascript", FileCategory::Unknown, &[]), file("css/b.js", "javascript", FileCategory::Unknown, &[]), file("api/c.js", "javascript", FileCategory::Unknown, &[])];
    assert_eq!(ProjectAnalyzer::infer_project_purpose(&web), ProjectPurpose::WebApplication);
    let api = vec![file("static/a.js", "javascript", FileCategory::Unknown, &[]), file("routes/c.js", "javascript", FileCategory::Unknown, &[])];
    assert_eq!(ProjectAnalyzer::infer_project_purpose(&api), ProjectPurpose::WebAPI);
    let cli = vec![file("tool.py", "python", FileCategory::Unknown, &["import click"])];
    assert_eq!(ProjectAnalyzer::infer_project_purpose(&cli), ProjectPurpose::CLI);
    let lib = vec![file("pkg/__init__.py", "python", FileCategory::Unknown, &[])];
    assert_eq!(ProjectAnalyzer::infer_project_purpose(&lib), ProjectPurpose::Library);
    assert_eq!(ProjectAnalyzer::infer_project_purpose(&[]), ProjectPurpose::Unknown);
}

#[test]
fn structure_of_a_project() {
    let files = vec![
        file("app/models/user.py", "python", FileCategory::CoreLogic, &["from db import x", "import os.path"]),
        file("app/views/user.py", "python", FileCategory::Unknown, &["import os"]),
        file("app/controllers/user.py", "python", FileCategory::Unknown, &[]),
        file("app/models/order.py", "python", FileCategory::UnitTest, &["import json", "from db import y", "export nothing"]),
        file("top.py", "python", FileCategory::EntryPoint, &[]),
        file("app/services/pay.js", "javascript", FileCategory::Unknown, &[]),
    ];
    assert_eq!(ProjectAnalyzer::detect_architecture(&files), ArchitecturePattern::MVC);
    assert_eq!(ProjectAnalyzer::detect_architecture(&files[5..]), ArchitecturePattern::Layered);
    assert_eq!(ProjectAnalyzer::detect_architecture(&files[4..5]), ArchitecturePattern::Unknown);

    let layers = ProjectAnalyzer::identify_layers(&files);
    assert_eq!(layers.len(), 3);
    assert_eq!(layers[0].name, "Data Layer");
    assert_eq!(layers[0].purpose, "Data models and persistence");
    assert_eq!(layers[0].files, vec!["app/models/user.py".to_string(), "app/models/order.py".to_string()]);
    assert_eq!(layers[1].name, "Business Layer");
    assert_eq!(layers[2].name, "Presentation Layer");
    assert_eq!(layers[2].files, vec!["app/controllers/user.py".to_string()]);

    let modules = ProjectAnalyzer::identify_modules(&files);
    let names: Vec<&str> = modules.iter().map(|m| m.name.as_str()).collect();
    assert_eq!(names, vec!["models", "views", "controllers", "services"]);
    assert_eq!(modules[0].path, "models");
    assert_eq!(modules[0].purpose, "Data models and schemas");
    assert_eq!(modules[0].dependencies, vec!["db".to_string(), "os".to_string(), "json".to_string()]);
    assert_eq!(modules[1].purpose, "General purpose module");
    assert_eq!(ProjectAnalyzer::infer_module_purpose("x", &vec![FileCategory::CoreLogic, FileCategory::UnitTest]), "Testing module");
    assert_eq!(ProjectAnalyzer::infer_module_purpose("x", &vec![FileCategory::CoreLogic]), "Core functionality module");
    assert_eq!(ProjectAnalyzer::infer_module_purpose("auth", &vec![]), "User authentication and authorization");

    assert_eq!(
        ProjectAnalyzer::extract_module_dependencies(&files),
        vec!["db".to_string(), "os".to_string(), "json".to_string()]
    );
    assert_eq!(ProjectAnalyzer::extract_module_from_import("from a.b import c").as_deref(), Some("a.b"));
    assert_eq!(ProjectAnalyzer::extract_module_from_import("import a.b.c").as_deref(), Some("a"));
    assert_eq!(ProjectAnalyzer::extract_module_from_import("import ").as_deref(), None);
    assert_eq!(ProjectAnalyzer::extract_module_from_import("require('x')"), None);

    assert_eq!(ProjectAnalyzer::find_entry_points(&files), vec!["top.py".to_string()]);
    assert_eq!(
        ProjectAnalyzer::count_languages(&files),
        vec![("python".to_string(), 5), ("javascript".to_string(), 1)]
    );
    let structure = ProjectAnalyzer::analyze_structure(&files);
    assert_eq!(structure.architecture, ArchitecturePattern::MVC);
    assert_eq!(structure.layers.len(), 3);
    assert_eq!(structure.modules.len(), 4);
    assert_eq!(
        ProjectAnalyzer::generate_description(&ProjectPurpose::WebAPI, &structure, &files),
        "This is a web API service written primarily in python following MVC architecture pattern, containing 6 files across 3 layers."
    );
    let empty = ProjectStructure { architecture: ArchitecturePattern::Unknown, layers: vec![], modules: vec![] };
    assert_eq!(
        ProjectAnalyzer::generate_description(&ProjectPurpose::Unknown, &empty, &[]),
        "This is a software project written primarily in unknown, containing 0 files across 0 layers."
    );
    let tie = vec![file("a", "js", FileCategory::Unknown, &[]), file("b", "py", FileCategory::Unknown, &[])];
    assert!(ProjectAnalyzer::generate_description(&ProjectPurpose::CLI, &empty, &tie).contains("primarily in js,"));
}

#[test]
fn dependencies_of_a_project() {
    let requirements = "flask==2.0.1\n# comment\n\n  pytest-cov  \nsqlalchemy==1.4==extra\n";
    let found = ProjectAnalyzer::parse_requirements_txt(requirements);
    assert_eq!(found.len(), 3);
    assert_eq!(found[0].name, "flask");
    assert_eq!(found[0].version.as_deref(), Some("2.0.1"));
    assert_eq!(found[0].purpose, "Web framework");
    assert_eq!(found[0].dep_type, DependencyType::Runtime);
    assert_eq!(found[1].name, "pytest-cov");
    assert_eq!(found[1].version, None);
    assert_eq!(found[1].purpose, "Testing framework");
    assert_eq!(found[2].version.as_deref(), Some("1.4"));
    assert_eq!(found[2].purpose, "Database connectivity");

    let package = "{\"name\": \"demo\", \"dependencies\": {\"react\": \"^18\", \"left-pad\": 1}, \"devDependencies\": {\"jest\": \"29\"}}";
    let listed = ProjectAnalyzer::parse_package_json(package).unwrap();
    assert_eq!(listed.len(), 3);
    assert_eq!(listed[0].name, "react");
    assert_eq!(listed[0].purpose, "Frontend framework");
    assert_eq!(listed[1].version, None);
    assert_eq!(listed[1].purpose, "General purpose library");
    assert_eq!(listed[2].dep_type, DependencyType::Development);
    assert!(ProjectAnalyzer::parse_package_json("{").is_err());
    assert!(ProjectAnalyzer::parse_package_json("{\"dependencies\": []}").unwrap().is_empty());

    let all = ProjectAnalyzer::extract_dependencies(Some(requirements), Some(package)).unwrap();
    assert_eq!(all.len(), 6);
    assert_eq!(all[3].name, "react");
    assert!(ProjectAnalyzer::extract_dependencies(None, None).unwrap().is_empty());
    assert!(ProjectAnalyzer::extract_dependencies(Some(requirements), Some("no")).is_err());
    assert_eq!(ProjectAnalyzer::infer_dependency_purpose("oauthlib"), "Authentication");
    assert_eq!(ProjectAnalyzer::infer_dependency_purpose("winston-logger"), "Logging");
    assert_eq!(ProjectAnalyzer::infer_dependency_purpose("dotconfig"), "Configuration management");
}

#[test]
fn names_of_projects() {
    assert_eq!(ProjectAnalyzer::package_json_name("{\"name\": \"pkg\"}").as_deref(), Some("pkg"));
    assert_eq!(ProjectAnalyzer::package_json_name("{\"name\": 5}"), None);
    assert_eq!(ProjectAnalyzer::setup_py_name("setup(name='tool', version='1')").as_deref(), Some("tool"));
    assert_eq!(ProjectAnalyzer::setup_py_name("setup(name= \"x\" ,").as_deref(), Some("x"));
    assert_eq!(ProjectAnalyzer::setup_py_name("setup(name='open')"), None);
    assert_eq!(ProjectAnalyzer::extract_project_name("/w/dir", Some("{\"name\": \"pkg\"}"), Some("name='s',")), "pkg");
    assert_eq!(ProjectAnalyzer::extract_project_name("/w/dir", Some("{}"), Some("name='s',")), "s");
    assert_eq!(ProjectAnalyzer::extract_project_name("/w/dir", None, None), "dir");
    assert_eq!(ProjectAnalyzer::extract_project_name("", None, None), "unknown");
    let files = vec![file("a/package.json", "", FileCategory::Unknown, &[]), file("b/package.json", "", FileCategory::Unknown, &[])];
    assert_eq!(find_file_ending(&files, "package.json").as_deref(), Some("a/package.json"));
    assert_eq!(find_file_ending(&files, "setup.py"), None);
}

#[test]
fn tests_of_a_project() {
    let files = vec![
        file("t1", "", FileCategory::UnitTest, &["import jest", "import unittest"]),
        file("t2", "", FileCategory::IntegrationTest, &["from mocha import x"]),
        file("t3", "", FileCategory::UnitTest, &["import pytest", "import os"]),
        file("a", "", FileCategory::CoreLogic, &[]),
    ];
    let tests = ProjectAnalyzer::analyze_test_coverage(&files);
    assert_eq!(tests.unit_tests, 2);
    assert_eq!(tests.integration_tests, 1);
    assert_eq!(tests.frameworks, vec!["jest/mocha".to_string(), "pytest/unittest".to_string()]);
}

#[test]
fn nodes_of_syntax_trees() {
    let node = |kind: &str, text: Option<&str>, name: Option<&str>| TopNode {
        kind: kind.to_string(),
        text: text.map(|s| s.to_string()),
        name: name.map(|s| s.to_string()),
    };
    let mut info = file("a.py", "python", FileCategory::Unknown, &[]);
    extract_python_symbols(&mut info, &node("import_from_statement", Some("from a import b"), None));
    extract_python_symbols(&mut info, &node("function_definition", Some("def f(): pass"), Some("f")));
    extract_python_symbols(&mut info, &node("class_definition", Some("class C: pass"), Some("C")));
    extract_python_symbols(&mut info, &node("class_definition", Some("class D: pass"), None));
    extract_python_symbols(&mut info, &node("export_statement", Some("x"), Some("x")));
    assert_eq!(info.imports, vec!["from a import b".to_string()]);
    assert_eq!(info.functions, vec!["f".to_string()]);
    assert_eq!(info.classes, vec!["C".to_string()]);
    assert!(info.exports.is_empty());

    let mut js = file("a.js", "javascript", FileCategory::Unknown, &[]);
    extract_javascript_symbols(&mut js, &node("import_statement", Some("import a from 'a'"), None));
    extract_javascript_symbols(&mut js, &node("export_statement", Some("export default f"), None));
    extract_typescript_symbols(&mut js, &node("function_declaration", None, Some("f")));
    extract_typescript_symbols(&mut js, &node("class_declaration", None, Some("K")));
    extract_javascript_symbols(&mut js, &node("function_definition", None, Some("py")));
    assert_eq!(js.imports.len(), 1);
    assert_eq!(js.exports, vec!["export default f".to_string()]);
    assert_eq!(js.functions, vec!["f".to_string()]);
    assert_eq!(js.classes, vec!["K".to_string()]);
}
