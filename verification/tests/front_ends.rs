use symgraph::cxx::{ModuleInfo, Occurrence, Symbol};
use symgraph::database::{insert_symbol, list_modules, SymgraphDb};
use symgraph::ingest::{ingest_module, ingest_translation_unit};
use symgraph::rustlang::{
    extract_name_from_usr, infer_kind_from_usr, ingest_calls, ingest_package_file,
    ingest_workspace_file, rust_usr_text, UsrIndex,
};
use symgraph::stats::show_stats;
use symgraph::viewer::{build_graph_data, determine_symbol_type, handle_api_request, ApiError};

fn open_temp() -> (tempfile::TempDir, SymgraphDb) {
    let dir = tempfile::tempdir().expect("tempdir");
    let db = SymgraphDb::open(dir.path().join("graph.db").to_str().unwrap()).expect("open");
    (dir, db)
}

fn symbol(usr: Option<&str>, name: &str, file: &str) -> Symbol {
    Symbol {
        usr: usr.map(|s| s.to_string()),
        name: name.to_string(),
        kind: "FunctionDecl".to_string(),
        is_definition: true,
        file: file.to_string(),
        line: 1,
        column: 1,
    }
}

fn occurrence(usr: Option<&str>, file: &str) -> Occurrence {
    Occurrence {
        usr: usr.map(|s| s.to_string()),
        usage_kind: "call".to_string(),
        file: file.to_string(),
        line: 3,
        column: 4,
    }
}

#[test]
fn a_translation_unit_is_brought_in() {
    let (_dir, mut db) = open_temp();
    let symbols = vec![
        symbol(Some("c:@F@main#"), "main", "a.cpp"),
        symbol(Some("c:@F@foo#"), "foo", "a.h"),
        symbol(None, "anonymous", "a.cpp"),
    ];
    let occurrences = vec![
        occurrence(Some("c:@F@foo#"), "a.cpp"),
        occurrence(Some("c:@F@unknown#"), "b.cpp"),
        occurrence(None, "a.cpp"),
    ];
    let edges = vec![
        ("call".to_string(), "c:@F@main#".to_string(), "c:@F@foo#".to_string()),
        ("call".to_string(), "c:@F@main#".to_string(), "c:@F@unknown#".to_string()),
    ];
    let done =
        ingest_translation_unit(&mut db, &symbols, &occurrences, &edges, "implementation", "code")
            .unwrap();
    assert_eq!(done.symbols, 3);
    assert_eq!(done.occurrences, 1);
    assert_eq!(done.edges, 1);
    assert_eq!(db.query_edges_by_kind_from("call", "c:@F@main#").unwrap(), vec!["foo".to_string()]);
    let files = db.list_files().unwrap();
    assert_eq!(files.len(), 6);
    assert!(files.iter().all(|f| f.category == "implementation" && f.purpose == "code"));
    assert!(files.iter().any(|f| f.path == "b.cpp"));
}

#[test]
fn a_module_is_brought_in_with_its_imports() {
    let (_dir, mut db) = open_temp();
    let module = ModuleInfo {
        name: "app".to_string(),
        path: "ignored".to_string(),
        imports: vec!["std".to_string(), "util".to_string(), "std".to_string()],
    };
    let id = ingest_module(&mut db, &module, "src/app.cppm").unwrap();
    let again = ingest_module(&mut db, &module, "elsewhere").unwrap();
    assert_eq!(id, again);
    let graph = list_modules(&db).unwrap();
    assert_eq!(graph.imports.len(), 6);
    assert_eq!(graph.imports.iter().filter(|i| i.0 == "app" && i.1 == "std").count(), 4);
    let app = graph.modules.iter().find(|m| m.name == "app").unwrap();
    assert_eq!(app.path.as_deref(), Some("src/app.cppm"));
    let std = graph.modules.iter().find(|m| m.name == "std").unwrap();
    assert_eq!(std.path, None);
    assert_eq!(std.kind, "cpp20-module");
}

#[test]
fn rust_files_are_brought_in() {
    let (_dir, mut db) = open_temp();
    let mut names = symgraph::rustlang::UsrIndex::new();
    let symbols = vec!["main".to_string(), "helper".to_string(), "impl_Thing".to_string()];
    let calls = vec![
        ("main".to_string(), "helper".to_string()),
        ("main".to_string(), "println".to_string()),
    ];
    ingest_package_file(&mut db, &mut names, "demo", "src/main.rs", "entrypoint", "start", &symbols, &calls)
        .unwrap();
    assert_eq!(db.query_edges_by_kind_from("call", "r:@demo@main").unwrap(), vec!["helper".to_string()]);
    let listed = db.list_symbols().unwrap();
    assert_eq!(listed.len(), 3);
    assert_eq!(listed.iter().find(|s| s.name == "impl_Thing").unwrap().kind, "impl");
    assert_eq!(listed.iter().find(|s| s.name == "main").unwrap().kind, "function");

    ingest_package_file(&mut db, &mut names, "demo", "src/other.rs", "x", "y", &vec!["main".to_string()], &vec![
        ("helper".to_string(), "main".to_string()),
    ])
    .unwrap();
    assert_eq!(db.list_symbols().unwrap().len(), 3);
    assert_eq!(db.query_edges_by_kind_from("call", "r:@demo@helper").unwrap(), vec!["main".to_string()]);

    ingest_workspace_file(&mut db, &mut names, "examples/e.rs", "rust", "example", "demo", &vec![], &vec![])
        .unwrap();
    assert!(!db.list_files().unwrap().iter().any(|f| f.path == "examples/e.rs"));
    ingest_workspace_file(&mut db, &mut names, "examples/e.rs", "rust", "example", "demo", &vec!["run".to_string()], &vec![])
        .unwrap();
    assert!(db.find_symbol_by_usr("r:@workspace@run").unwrap().is_some());
    assert!(db.list_files().unwrap().iter().any(|f| f.path == "examples/e.rs" && f.category == "example"));
}

#[test]
fn names_and_kinds_of_external_identifiers() {
    assert_eq!(extract_name_from_usr("c:@N@ns@F@func#"), "");
    assert_eq!(extract_name_from_usr("a::b::c"), "c");
    assert_eq!(extract_name_from_usr("a::b#c#d"), "d");
    assert_eq!(extract_name_from_usr("plain"), "plain");
    assert_eq!(extract_name_from_usr(""), "");
    assert_eq!(infer_kind_from_usr("c:@F@main#"), "function");
    assert_eq!(infer_kind_from_usr("c:@S@A@F@m#"), "function");
    assert_eq!(infer_kind_from_usr("c:@S@A"), "struct");
    assert_eq!(infer_kind_from_usr("E@x"), "enum");
    assert_eq!(infer_kind_from_usr("T@x"), "trait");
    assert_eq!(infer_kind_from_usr("M@x"), "module");
    assert_eq!(infer_kind_from_usr("C@x"), "const");
    assert_eq!(infer_kind_from_usr("x"), "variable");
    assert_eq!(rust_usr_text("demo", "main"), "r:@demo@main");
}

#[test]
fn summary_of_a_store() {
    let (_dir, mut db) = open_temp();
    let file = db.ensure_file("a.cpp", "c++").unwrap();
    for (name, kind) in [("a", "fn"), ("b", "class"), ("c", "fn"), ("d", "var"), ("e", "class"), ("f", "fn")] {
        symgraph::database::insert_symbol(&mut db, &file, None, None, name, kind, true).unwrap();
    }
    db.db.insert("symbol:zzz", "not a record").unwrap();
    symgraph::database::insert_occurrence(&mut db, "s", &file, "call", 1, 1).unwrap();
    symgraph::database::upsert_module(&mut db, "m", "k", "").unwrap();
    let summary = show_stats(&db).unwrap();
    assert_eq!(summary.files, 2);
    assert_eq!(summary.symbols, 7);
    assert_eq!(summary.occurrences, 1);
    assert_eq!(summary.edges, 0);
    assert_eq!(summary.modules, 2);
    assert_eq!(summary.symbol_kinds.len(), 3);
    assert_eq!(summary.symbol_kinds[0], ("fn".to_string(), 3));
    assert_eq!(summary.symbol_kinds[1], ("class".to_string(), 2));
    assert_eq!(summary.symbol_kinds[2], ("var".to_string(), 1));
}

#[test]
fn ranking_keeps_ten_and_the_first_of_equals() {
    let tally: Vec<(String, usize)> =
        (0..12).map(|i| (format!("k{}", i), if i == 5 { 9 } else { 1 })).collect();
    let ranked = symgraph::stats::rank(tally);
    assert_eq!(ranked.len(), 12);
    assert_eq!(ranked[0].0, "k5");
    assert_eq!(ranked[1].0, "k0");
    assert_eq!(ranked[11].0, "k11");
    let mut tally = vec![("a".to_string(), 1usize)];
    symgraph::stats::bump(&mut tally, "b".to_string());
    symgraph::stats::bump(&mut tally, "a".to_string());
    assert_eq!(tally, vec![("a".to_string(), 2), ("b".to_string(), 1)]);
}

#[test]
fn symbols_as_drawn() {
    assert_eq!(determine_symbol_type("ns::MyClass"), "class");
    assert_eq!(determine_symbol_type("ns::Struct_of"), "class");
    assert_eq!(determine_symbol_type("ns::run"), "function");
    assert_eq!(determine_symbol_type("Widget"), "class");
    assert_eq!(determine_symbol_type("widget"), "symbol");
    assert_eq!(determine_symbol_type(""), "symbol");
    assert_eq!(determine_symbol_type("_x"), "symbol");
}

#[test]
fn answers_to_the_viewer() {
    let (_dir, mut db) = open_temp();
    let file = db.ensure_file("src/deep/a.cpp", "c++").unwrap();
    let sym = symgraph::database::insert_symbol(&mut db, &file, None, None, "Run", "fn", true).unwrap();

    let stats = handle_api_request("stats", &db, None).unwrap();
    assert_eq!(
        String::from_utf8(symgraph::json::encode(&stats).unwrap()).unwrap(),
        "{\"edges\":0,\"files\":2,\"symbols\":1}"
    );
    let files = handle_api_request("files", &db, Some("DEEP")).unwrap();
    let text = String::from_utf8(symgraph::json::encode(&files).unwrap()).unwrap();
    let one = format!(
        "{{\"id\":\"{}\",\"path\":\"src/deep/a.cpp\",\"language\":\"c++\",\"category\":\"\",\"purpose\":\"\"}}",
        file
    );
    assert_eq!(text, format!("[{},{}]", one, one));
    let none = handle_api_request("files", &db, Some("nothing")).unwrap();
    assert_eq!(String::from_utf8(symgraph::json::encode(&none).unwrap()).unwrap(), "[]");
    let symbols = handle_api_request("symbols", &db, None).unwrap();
    assert_eq!(
        String::from_utf8(symgraph::json::encode(&symbols).unwrap()).unwrap(),
        format!("[{{\"id\":\"{}\",\"name\":\"Run\",\"kind\":\"fn\",\"file_id\":\"{}\"}}]", sym, file)
    );
    match handle_api_request("nope", &db, None) {
        Err(ApiError::UnknownEndpoint(message)) => assert_eq!(message, "Unknown API endpoint: nope"),
        _ => panic!("an unknown request is refused"),
    }

    let graph = build_graph_data(&db.list_files().unwrap()[..1].to_vec(), &db.list_symbols().unwrap());
    let text = String::from_utf8(symgraph::json::encode(&graph).unwrap()).unwrap();
    assert_eq!(
        text,
        format!(
            "{{\"edges\":[{{\"data\":{{\"id\":\"contains:{f}:{s}\",\"source\":\"file:{f}\",\"target\":\"symbol:{s}\",\"type\":\"defines\"}}}}],\"nodes\":[{{\"data\":{{\"category\":\"\",\"file\":\"src/deep/a.cpp\",\"id\":\"file:{f}\",\"label\":\"a.cpp\",\"language\":\"c++\",\"purpose\":\"\",\"type\":\"file\"}}}},{{\"data\":{{\"file\":\"{f}\",\"id\":\"symbol:{s}\",\"kind\":\"fn\",\"label\":\"Run\",\"symbol\":\"Run\",\"type\":\"class\"}}}}]}}",
            f = file,
            s = sym
        )
    );
    let pretty = symgraph::json::encode_pretty(&stats).unwrap();
    assert_eq!(pretty, "{\n  \"edges\": 0,\n  \"files\": 2,\n  \"symbols\": 1\n}");
    let whole = handle_api_request("graph", &db, None).unwrap();
    assert!(matches!(whole, symgraph::json::Json::Object(_)));
}

#[test]
fn the_analysis_of_a_module_is_brought_in() {
    let (_dir, mut db) = open_temp();
    let analysis = symgraph::rust_scan::analyze_rust_module_from_text(
        "use std::io;\npub fn rfoo() {}\npub type Alias = rfoo;\npub type Other = Missing;",
        "r.rs",
    )
    .unwrap()
    .unwrap();
    let done =
        symgraph::ingest::ingest_module_analysis(&mut db, &analysis, "rust-module", "rust").unwrap();
    assert_eq!(done.symbols, 3);
    assert_eq!(done.imports, 1);
    assert_eq!(done.relations, 0);
    assert!(db.find_symbol_by_usr("module:r:rfoo").unwrap().is_some());
    let graph = list_modules(&db).unwrap();
    assert_eq!(graph.imports, vec![("r".to_string(), "std::io".to_string())]);
    let listed = db.list_symbols().unwrap();
    assert_eq!(listed.iter().filter(|s| s.name == "rfoo").count(), 1);

    let again = symgraph::models::ModuleAnalysis {
        info: symgraph::models::ModuleInfo { name: "r".to_string(), path: "r.rs".to_string(), imports: vec![] },
        symbols: vec![],
        relations: vec![symgraph::models::Relation {
            from_name: "Alias".to_string(),
            to_name: "rfoo".to_string(),
            kind: "type_ref".to_string(),
        }],
    };
    let done = symgraph::ingest::ingest_module_analysis(&mut db, &again, "rust-module", "rust").unwrap();
    assert_eq!(done.relations, 1);
    assert_eq!(db.query_edges_by_kind_from("type_ref", "module:r:Alias").unwrap(), vec!["rfoo".to_string()]);
}

#[test]
fn files_for_the_notes() {
    let (_dir, mut db) = open_temp();
    db.ensure_file_with_category("1", "a.cpp", "c++", Some("entrypoint"), None).unwrap();
    db.db.insert("file:zzz", "broken").unwrap();
    let files = symgraph::ingest::annotation_files(&db).unwrap();
    assert_eq!(files.len(), 2);
    assert!(files.iter().all(|f| f.0 == "a.cpp" && f.1 == "entrypoint" && f.2.is_empty()));
    db.ensure_file("b.rs", "rust").unwrap();
    let files = symgraph::ingest::annotation_files(&db).unwrap();
    assert!(files.iter().any(|f| f.0 == "b.rs" && f.1 == "unknown"));
}

#[test]
fn calls_between_known_symbols_become_edges() {
    let (_dir, mut db) = open_temp();
    let file = db.ensure_file("src/lib.rs", "rust").unwrap();
    insert_symbol(&mut db, &file, Some("r:@k@main"), None, "main", "function", true).unwrap();
    insert_symbol(&mut db, &file, Some("r:@k@helper"), None, "helper", "function", true).unwrap();
    let mut names = UsrIndex::new();
    names.insert("main".to_string(), "r:@k@main".to_string());
    names.insert("helper".to_string(), "r:@k@helper".to_string());
    names.insert("ghost".to_string(), "r:@k@ghost".to_string());
    let calls = vec![
        ("main".to_string(), "helper".to_string()),
        ("main".to_string(), "unheard".to_string()),
        ("main".to_string(), "ghost".to_string()),
        ("helper".to_string(), "main".to_string()),
        ("main".to_string(), "helper".to_string()),
    ];
    let before = db.get_stats().unwrap();
    assert_eq!(ingest_calls(&mut db, &names, &calls).unwrap(), 3);
    let after = db.get_stats().unwrap();
    assert_eq!(after.edges, before.edges + 3);
    assert_eq!(after.symbols, before.symbols);
    assert_eq!(
        db.query_edges_by_kind_from("call", "r:@k@main").unwrap(),
        vec!["helper".to_string(), "helper".to_string()]
    );
    assert_eq!(db.query_edges_by_kind_from("call", "r:@k@helper").unwrap(), vec!["main".to_string()]);
}

#[test]
fn calls_with_names_that_are_not_noted_leave_the_store_as_it_was() {
    let (_dir, mut db) = open_temp();
    let names = UsrIndex::new();
    let calls = vec![("a".to_string(), "b".to_string())];
    let before = db.get_stats().unwrap();
    assert_eq!(ingest_calls(&mut db, &names, &calls).unwrap(), 0);
    assert_eq!(ingest_calls(&mut db, &names, &Vec::new()).unwrap(), 0);
    let after = db.get_stats().unwrap();
    assert_eq!(after.edges, before.edges);
}

#[test]
fn a_second_scan_of_a_package_records_no_symbol_again() {
    let (_dir, mut db) = open_temp();
    let symbols = vec!["main".to_string(), "impl_Thing".to_string(), "helper".to_string()];
    let calls = vec![("main".to_string(), "helper".to_string())];
    let mut names = UsrIndex::new();
    ingest_package_file(&mut db, &mut names, "demo", "src/lib.rs", "core", "logic", &symbols, &calls)
        .unwrap();
    let found: Vec<Option<String>> = symbols
        .iter()
        .map(|n| db.find_symbol_by_usr(&rust_usr_text("demo", n)).unwrap())
        .collect();
    assert!(found.iter().all(|f| f.is_some()));
    let before = db.get_stats().unwrap();
    let files = db.list_files().unwrap().len();

    let mut fresh = UsrIndex::new();
    ingest_package_file(&mut db, &mut fresh, "demo", "src/lib.rs", "other", "else", &symbols, &calls)
        .unwrap();
    let after = db.get_stats().unwrap();
    assert_eq!(after.symbols, before.symbols);
    assert_eq!(db.list_files().unwrap().len(), files);
    assert_eq!(after.edges, before.edges + 1);
    let again: Vec<Option<String>> = symbols
        .iter()
        .map(|n| db.find_symbol_by_usr(&rust_usr_text("demo", n)).unwrap())
        .collect();
    assert_eq!(again, found);
    assert_eq!(fresh.get("helper").map(|s| s.as_str()), Some("r:@demo@helper"));
}
