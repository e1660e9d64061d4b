use symgraph::rust_scan::{
    analyze_rust_module_from_text, remove_comments_and_strings, scan_rust_module_from_text,
    scan_rust_module_with_stem,
};

#[test]
fn test_scan_module_pub_items() {
    let s = "pub fn foo() {}\npub struct Bar;";
    let mi = scan_rust_module_from_text(s, "lib.rs").unwrap();
    assert_eq!(mi.name, "lib");
    assert!(mi.imports.is_empty());
}

#[test]
fn test_analyze_simple() {
    let s = "pub fn hello() {}\npub struct Foo { pub x: i32 }\npub type MyInt = i32;\npub const C: i32 = 1;";
    let res = analyze_rust_module_from_text(s, "m.rs").unwrap().unwrap();
    assert!(res.symbols.iter().any(|s| s.name == "hello" && s.kind == "function"));
    assert!(res.symbols.iter().any(|s| s.name == "Foo" && s.kind == "struct"));
    assert!(res.symbols.iter().any(|s| s.name == "MyInt" && s.kind == "type"));
    assert!(res.symbols.iter().any(|s| s.name == "C" && s.kind == "constant"));
}

#[test]
fn test_impl_methods() {
    let s = "pub struct S;\nimpl S { pub fn do_it(&self) {} }";
    let res = analyze_rust_module_from_text(s, "s.rs").unwrap().unwrap();
    assert!(res.symbols.iter().any(|s| s.name == "S::do_it"));
}

#[test]
fn comments_go_and_literals_stay() {
    assert_eq!(remove_comments_and_strings("a // b\nc"), "a \nc");
    assert_eq!(remove_comments_and_strings("a /* b\n c */ d"), "a   d");
    assert_eq!(remove_comments_and_strings("x = \"// not a comment\"; // gone"), "x = \"// not a comment\"; ");
    assert_eq!(remove_comments_and_strings("'\\'' /*x*/"), "'\\''  ");
    assert_eq!(remove_comments_and_strings("\"a\\\"b\" / c"), "\"a\\\"b\" / c");
    assert_eq!(remove_comments_and_strings("a /* open"), "a ");
    assert_eq!(remove_comments_and_strings("a // open"), "a ");
    assert_eq!(remove_comments_and_strings("\"open \\"), "\"open \\");
    assert_eq!(remove_comments_and_strings("/*/ still */x"), " x");
    assert_eq!(remove_comments_and_strings(""), "");
}

#[test]
fn module_name_and_imports() {
    let info = scan_rust_module_with_stem("use std::io;\npub mod inner;\npub use a::b;", "x.rs", "x")
        .unwrap();
    assert_eq!(info.name, "inner");
    assert_eq!(info.path, "x.rs");
    assert_eq!(info.imports, vec!["std::io".to_string(), "a::b".to_string()]);
    let named = scan_rust_module_with_stem("use std::io;", "dir/y.rs", "stem").unwrap();
    assert_eq!(named.name, "stem");
    assert!(scan_rust_module_with_stem("fn private() {}", "z.rs", "z").is_none());
    assert_eq!(scan_rust_module_from_text("pub fn f() {}", "src/deep/name.rs").unwrap().name, "name");
}

#[test]
fn analysis_is_exact() {
    let text = "// pub fn hidden() {}\npub type Id = u64;\nimpl Wrapper<T> {\n    pub fn get(&self) {}\n}\npub fn free() {}\n\npub static LIMIT : usize = 3;\n";
    let analysis = analyze_rust_module_from_text(text, "w.rs").unwrap().unwrap();
    let found: Vec<(String, String, u32)> = analysis
        .symbols
        .iter()
        .map(|s| (s.name.clone(), s.kind.clone(), s.line))
        .collect();
    assert_eq!(
        found,
        vec![
            ("Id".to_string(), "type".to_string(), 2),
            ("Wrapper<T>::get".to_string(), "function".to_string(), 4),
            ("free".to_string(), "function".to_string(), 6),
            ("LIMIT".to_string(), "constant".to_string(), 8),
        ]
    );
    assert_eq!(analysis.symbols[0].signature, "pub type Id = u64;");
    assert!(analysis.symbols.iter().all(|s| s.is_exported));
    let relations: Vec<(String, String, String)> = analysis
        .relations
        .iter()
        .map(|r| (r.from_name.clone(), r.to_name.clone(), r.kind.clone()))
        .collect();
    assert_eq!(
        relations,
        vec![
            ("Id".to_string(), "u64;".to_string(), "type_ref".to_string()),
            ("LIMIT".to_string(), "usize".to_string(), "type_ref".to_string()),
        ]
    );
    assert!(analyze_rust_module_from_text("fn nothing() {}", "n.rs").unwrap().is_none());
}
