use symgraph::cxx::{categorize_cpp_file, categorize_names, infer_cpp_purpose, FileCategory};

#[test]
fn test_cpp_categorization() {
    assert_eq!(categorize_cpp_file("main.cpp"), FileCategory::EntryPoint);
    assert_eq!(categorize_cpp_file("utils.h"), FileCategory::Header);
    assert_eq!(categorize_cpp_file("utils.cpp"), FileCategory::Implementation);
    assert_eq!(categorize_cpp_file("test_utils.cpp"), FileCategory::UnitTest);
    assert_eq!(categorize_cpp_file("CMakeLists.txt"), FileCategory::Configuration);
    assert_eq!(categorize_cpp_file("src/network/client.cpp"), FileCategory::Implementation);
}

#[test]
fn test_cpp_purpose_inference() {
    assert_eq!(infer_cpp_purpose("main.cpp", &FileCategory::EntryPoint), "Application entry point");
    assert_eq!(infer_cpp_purpose("utils.h", &FileCategory::Header), "Header declarations");
    assert_eq!(infer_cpp_purpose("test.cpp", &FileCategory::UnitTest), "Unit tests");
    assert_eq!(
        infer_cpp_purpose("src/network/net.cpp", &FileCategory::Implementation),
        "Network operations"
    );
    assert_eq!(
        infer_cpp_purpose("src/database/db.cpp", &FileCategory::Implementation),
        "Database operations"
    );
    assert_eq!(
        infer_cpp_purpose("src/ui/window.cpp", &FileCategory::Implementation),
        "User interface"
    );
    assert_eq!(
        infer_cpp_purpose("src/core/app.cpp", &FileCategory::Implementation),
        "Implementation code"
    );
}

#[test]
fn categories_by_rule() {
    assert_eq!(categorize_cpp_file("src/WinMain.cpp"), FileCategory::EntryPoint);
    assert_eq!(categorize_cpp_file("src/spec/parser.cpp"), FileCategory::UnitTest);
    assert_eq!(categorize_cpp_file("lib/gtest_runner.cc"), FileCategory::UnitTest);
    assert_eq!(categorize_cpp_file("include/a.HPP"), FileCategory::Header);
    assert_eq!(categorize_cpp_file("cmake/modules/find.cmake"), FileCategory::Configuration);
    assert_eq!(categorize_cpp_file("src/util/readme"), FileCategory::Utility);
    assert_eq!(categorize_cpp_file("docs/readme"), FileCategory::Unknown);
    assert_eq!(categorize_names("src/a.cpp", "a.cpp"), FileCategory::Implementation);
    assert_eq!(categorize_names("", ""), FileCategory::Unknown);
}

#[test]
fn purposes_by_rule() {
    assert_eq!(infer_cpp_purpose("x.cmake", &FileCategory::Configuration), "Build configuration");
    assert_eq!(infer_cpp_purpose("u.cpp", &FileCategory::Utility), "Utility functions");
    assert_eq!(infer_cpp_purpose("src/Socket/a", &FileCategory::Unknown), "Network operations");
    assert_eq!(infer_cpp_purpose("src/core/a", &FileCategory::CoreLogic), "Core application logic");
}

#[test]
fn kinds_of_entities() {
    use_kinds();
}

fn use_kinds() {
    assert!(symgraph::cxx::is_declaration_kind("FunctionDecl"));
    assert!(symgraph::cxx::is_declaration_kind("UnionDecl"));
    assert!(!symgraph::cxx::is_declaration_kind("BaseSpecifier"));
    assert!(!symgraph::cxx::is_declaration_kind("CallExpr"));
    assert!(symgraph::cxx::is_expression_or_reference_kind("UnexposedExpr"));
    assert!(!symgraph::cxx::is_expression_or_reference_kind("VarDecl"));
    assert_eq!(symgraph::cxx::classify_usage("CallExpr"), "call");
    assert_eq!(symgraph::cxx::classify_usage("DeclRefExpr"), "reference");
    assert_eq!(symgraph::cxx::classify_usage("MemberRefExpr"), "member_ref");
    assert_eq!(symgraph::cxx::classify_usage("TypeRef"), "type_ref");
    assert_eq!(symgraph::cxx::classify_usage("TemplateRef"), "expr");
}

#[test]
fn entities_become_facts() {
    let facts = |kind: &str, usr: Option<&str>, located: bool, parent: Option<&str>, reference: Option<Option<&str>>| {
        symgraph::cxx::EntityFacts {
            kind: kind.to_string(),
            usr: usr.map(|s| s.to_string()),
            display_name: "shown".to_string(),
            is_definition: true,
            location: if located {
                Some(symgraph::cxx::Location { file: "a.cpp".to_string(), line: 3, column: 7 })
            } else {
                None
            },
            parent_usr: parent.map(|s| s.to_string()),
            has_reference: reference.is_some(),
            reference_usr: reference.flatten().map(|s| s.to_string()),
        }
    };
    let mut symbols = Vec::new();
    let mut occurrences = Vec::new();
    let mut edges = Vec::new();
    let mut visit = |e: symgraph::cxx::EntityFacts| {
        symgraph::cxx::visit_entity(&e, &mut symbols, &mut occurrences, &mut edges)
    };
    visit(facts("Method", Some("c:m"), true, Some("c:C"), None));
    visit(facts("FieldDecl", Some("c:f"), false, Some("c:C"), None));
    visit(facts("FieldDecl", None, true, Some("c:C"), None));
    visit(facts("CallExpr", None, true, Some("c:caller"), Some(Some("c:callee"))));
    visit(facts("CallExpr", None, false, Some("c:caller"), Some(Some("c:callee"))));
    visit(facts("CallExpr", None, true, Some("c:caller"), Some(None)));
    visit(facts("TypeRef", None, true, None, Some(Some("c:T"))));
    visit(facts("TypeRef", None, true, None, None));
    visit(facts("BaseSpecifier", Some("c:b"), true, Some("c:D"), Some(Some("c:B"))));
    assert_eq!(symbols.len(), 2);
    assert_eq!(symbols[0].kind, "Method");
    assert_eq!(symbols[0].name, "shown");
    assert_eq!(symbols[0].usr.as_deref(), Some("c:m"));
    assert_eq!((symbols[0].file.as_str(), symbols[0].line, symbols[0].column), ("a.cpp", 3, 7));
    assert_eq!(symbols[1].usr, None);
    assert_eq!(occurrences.len(), 3);
    assert_eq!(occurrences[0].usage_kind, "call");
    assert_eq!(occurrences[0].usr.as_deref(), Some("c:callee"));
    assert_eq!(occurrences[1].usr, None);
    assert_eq!(occurrences[2].usage_kind, "type_ref");
    assert_eq!(
        edges,
        vec![
            ("member".to_string(), "c:C".to_string(), "c:m".to_string()),
            ("member".to_string(), "c:C".to_string(), "c:f".to_string()),
            ("call".to_string(), "c:caller".to_string(), "c:callee".to_string()),
            ("inherit".to_string(), "c:B".to_string(), "c:D".to_string()),
        ]
    );
}

#[test]
fn a_base_specifier_gives_an_inheritance_edge() {
    let base = |parent: Option<&str>, reference: Option<&str>| symgraph::cxx::EntityFacts {
        kind: "BaseSpecifier".to_string(),
        usr: None,
        display_name: "class B".to_string(),
        is_definition: false,
        location: None,
        parent_usr: parent.map(|s| s.to_string()),
        has_reference: reference.is_some(),
        reference_usr: reference.map(|s| s.to_string()),
    };
    let mut symbols = Vec::new();
    let mut occurrences = Vec::new();
    let mut edges = Vec::new();
    symgraph::cxx::visit_entity(&base(Some("c:@S@D"), Some("c:@S@B")), &mut symbols, &mut occurrences, &mut edges);
    symgraph::cxx::visit_entity(&base(None, Some("c:@S@B")), &mut symbols, &mut occurrences, &mut edges);
    symgraph::cxx::visit_entity(&base(Some("c:@S@D"), None), &mut symbols, &mut occurrences, &mut edges);
    assert!(symbols.is_empty());
    assert!(occurrences.is_empty());
    assert_eq!(edges, vec![("inherit".to_string(), "c:@S@B".to_string(), "c:@S@D".to_string())]);
}

#[test]
fn arguments_for_the_parser() {
    let list = |items: &[&str]| Some(items.iter().map(|s| s.to_string()).collect::<Vec<String>>());
    assert_eq!(
        symgraph::cxx::parser_arguments(&list(&["/usr/bin/clang++", "gcc", "-c", "clang", "a.cpp"]), &None),
        list(&["-c", "clang", "a.cpp"])
    );
    assert_eq!(
        symgraph::cxx::parser_arguments(&None, &Some("g++ -DX=\"a b\" 'c d' e\\ f".to_string())),
        list(&["-DX=a b", "c d", "e f"])
    );
    assert_eq!(symgraph::cxx::parser_arguments(&None, &None), list(&[]));
    assert_eq!(symgraph::cxx::parser_arguments(&None, &Some("cc 'open".to_string())), None);
    assert_eq!(symgraph::cxx::parser_arguments(&list(&["cl", "gcc"]), &Some("ignored".to_string())), list(&[]));
}
