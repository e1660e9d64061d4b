use symgraph::cxx::scan_cpp20_module_from_text;

#[test]
fn test_simple_module() {
    let source = r#"
export module foo;

void hello() {}
"#;
    let mi = scan_cpp20_module_from_text(source, "foo.cppm").unwrap();
    assert_eq!(mi.name, "foo");
    assert_eq!(mi.path, "foo.cppm");
    assert!(mi.imports.is_empty());
}

#[test]
fn test_module_with_imports() {
    let source = r#"
export module myapp;

import std;
import mylib;
import utils.io;

void run() {}
"#;
    let mi = scan_cpp20_module_from_text(source, "src/myapp.cppm").unwrap();
    assert_eq!(mi.name, "myapp");
    assert_eq!(mi.imports.len(), 3);
    assert!(mi.imports.contains(&"std".to_string()));
    assert!(mi.imports.contains(&"mylib".to_string()));
    assert!(mi.imports.contains(&"utils.io".to_string()));
}

#[test]
fn test_module_partitions() {
    let source = r#"
export module graphics:renderer;

import graphics:core;
import graphics:math;

class Renderer {};
"#;
    let mi = scan_cpp20_module_from_text(source, "graphics_renderer.cppm").unwrap();
    assert_eq!(mi.name, "graphics:renderer");
    assert_eq!(mi.imports.len(), 2);
    assert!(mi.imports.contains(&"graphics:core".to_string()));
    assert!(mi.imports.contains(&"graphics:math".to_string()));
}

#[test]
fn test_not_a_module() {
    let source = r#"
#include <iostream>

int main() {
    std::cout << "Hello" << std::endl;
    return 0;
}
"#;
    let result = scan_cpp20_module_from_text(source, "main.cpp");
    assert!(result.is_none());
}

#[test]
fn test_module_with_comments() {
    let source = r#"
// This is a C++20 module
/* Multi-line
   comment */
export module mymodule;

// import commented; -- this should not be parsed
import realimport;

void func() {}
"#;
    let mi = scan_cpp20_module_from_text(source, "mymodule.cppm").unwrap();
    assert_eq!(mi.name, "mymodule");
    assert_eq!(mi.imports.len(), 1);
    assert_eq!(mi.imports[0], "realimport");
}

#[test]
fn test_module_with_whitespace() {
    let source = "  \texport module   spaced_module  ;\n\n  import   dep1;\n\timport dep2;";
    let mi = scan_cpp20_module_from_text(source, "test.cppm").unwrap();
    assert_eq!(mi.name, "spaced_module");
    assert_eq!(mi.imports.len(), 2);
}

#[test]
fn test_empty_module() {
    let source = "export module empty;";
    let mi = scan_cpp20_module_from_text(source, "empty.cppm").unwrap();
    assert_eq!(mi.name, "empty");
    assert!(mi.imports.is_empty());
}

#[test]
fn imports_keep_their_order() {
    let source = "export module m;\nimport b;\nimport a;\nimport b;\n";
    let mi = scan_cpp20_module_from_text(source, "m.cppm").unwrap();
    assert_eq!(mi.imports, vec!["b".to_string(), "a".to_string(), "b".to_string()]);
}
