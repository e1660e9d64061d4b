use symgraph::scip::{
    parse_scip_bytes, ScipDocument, ScipMetadata, ScipOccurrence, ScipParsedData, ScipParser,
    ScipRange, ScipRelationship, ScipSymbol,
};

#[test]
fn test_parse_mock_data() {
    let _parser = ScipParser::new();
    let data = b"mock scip data";
    let result = ScipParser::parse_bytes(data).unwrap();

    assert_eq!(result.metadata.tool_name, "rust-analyzer");
    assert_eq!(result.documents.len(), 1);
    assert_eq!(result.symbols.len(), 1);
    assert_eq!(result.occurrences.len(), 1);
}

#[test]
fn sample_index_is_exact() {
    let index = parse_scip_bytes(b"").unwrap();
    assert_eq!(index.metadata.version, "0.1.0");
    assert_eq!(index.metadata.tool_version, "1.92.0");
    assert_eq!(index.metadata.project_roots, vec!["file:///project".to_string()]);
    assert_eq!(index.documents[0].relative_path, "src/main.rs");
    assert_eq!(index.documents[0].language, "rust");
    assert_eq!(index.documents[0].symbol_count, 1);
    assert_eq!(index.documents[0].occurrence_count, 2);
    assert_eq!(index.symbols[0].symbol, "rust-analyzer cargo test_project 0.1.0 main()");
    assert_eq!(index.symbols[0].display_name.as_deref(), Some("main"));
    assert_eq!(index.symbols[0].documentation.as_deref(), Some("Main function"));
    assert!(index.symbols[0].relationships.is_empty());
    assert_eq!(index.occurrences[0].range.start_line, 1);
    assert_eq!(index.occurrences[0].range.end_character, 10);
    assert_eq!(index.occurrences[0].roles, vec!["definition".to_string()]);
}

fn open_temp() -> (tempfile::TempDir, symgraph::database::SymgraphDb) {
    let dir = tempfile::tempdir().expect("tempdir");
    let path = dir.path().join("graph.db");
    let db = symgraph::database::SymgraphDb::open(path.to_str().unwrap()).expect("open");
    (dir, db)
}

#[test]
fn sample_index_is_loaded() {
    let (_dir, mut db) = open_temp();
    let index = parse_scip_bytes(b"anything").unwrap();
    symgraph::scip::load_scip_to_database(&mut db, &index, "scip_project").unwrap();

    let project = String::from_utf8(
        db.db.get("project:file:///project").unwrap().unwrap().to_vec(),
    )
    .unwrap();
    assert!(project.contains("\"name\":\"scip_project\""));
    let project_id = db.ensure_project("other", "file:///project").unwrap();

    let files = db.list_files().unwrap();
    assert_eq!(files.len(), 2);
    assert_eq!(files[0].path, "src/main.rs");
    assert_eq!(files[0].language, "rust");
    assert_eq!(files[0].category, "scip_parsed");
    assert_eq!(files[0].purpose, "SCIP parsed file");
    let file_id = files[0].id.clone();

    let documents = db.get_scip_documents(&project_id).unwrap();
    assert_eq!(documents.len(), 1);
    assert_eq!(documents[0].relative_path, "src/main.rs");
    assert_eq!(documents[0].symbol_count, 1);
    assert_eq!(documents[0].occurrence_count, 2);
    assert!(db.get_scip_documents("nobody").unwrap().is_empty());

    let name = "rust-analyzer cargo test_project 0.1.0 main()";
    let symbol_id = db.find_symbol_by_usr(name).unwrap().expect("the symbol is indexed");
    let symbols = db.list_symbols().unwrap();
    assert_eq!(symbols.len(), 1);
    assert_eq!(symbols[0].id, symbol_id);
    assert_eq!(symbols[0].name, "main");
    assert_eq!(symbols[0].kind, "function");
    assert_eq!(symbols[0].file_id, file_id);

    let kept = db.get_scip_symbols_for_file(&file_id).unwrap();
    assert_eq!(kept.len(), 1);
    assert_eq!(kept[0].symbol, name);
    assert_eq!(kept[0].documentation.as_deref(), Some("Main function"));
    assert!(kept[0].relationships.is_empty());

    assert!(db.get_scip_occurrences_for_symbol(&kept[0].id).unwrap().is_empty());
    let occurrences = db.get_scip_occurrences_for_symbol(&symbol_id).unwrap();
    assert_eq!(occurrences.len(), 1);
    assert_eq!(occurrences[0].symbol_id, symbol_id);
    assert_eq!(occurrences[0].document_path, "src/main.rs");
    assert_eq!(occurrences[0].range.start_line, 1);
    assert_eq!(occurrences[0].range.end_character, 10);
    assert_eq!(occurrences[0].roles, vec!["definition".to_string()]);
    assert_eq!(occurrences[0].file_id, file_id);

    let recorded: Vec<String> = db
        .db
        .scan_prefix("occurrence:")
        .map(|item| String::from_utf8(item.unwrap().1.to_vec()).unwrap())
        .collect();
    assert_eq!(recorded.len(), 1);
    assert!(recorded[0].contains(&format!("\"symbol_id\":\"{}\"", symbol_id)));
    assert_eq!(db.get_stats().unwrap().edges, 0);
}

#[test]
fn relationships_become_edges() {
    let (_dir, mut db) = open_temp();
    let symbol = |name: &str, shown: Option<&str>, targets: &[(&str, &str)]| ScipSymbol {
        symbol: name.to_string(),
        documentation: None,
        display_name: shown.map(|s| s.to_string()),
        symbol_kind: "function".to_string(),
        relationships: targets
            .iter()
            .map(|(kind, target)| ScipRelationship {
                kind: kind.to_string(),
                target_symbol: target.to_string(),
            })
            .collect(),
    };
    let index = ScipParsedData {
        metadata: ScipMetadata {
            version: "1".to_string(),
            tool_name: "t".to_string(),
            tool_version: "1".to_string(),
            project_roots: vec![],
        },
        documents: vec![
            ScipDocument {
                relative_path: "a.py".to_string(),
                language: "python".to_string(),
                symbol_count: 2,
                occurrence_count: 1,
            },
            ScipDocument {
                relative_path: "b.py".to_string(),
                language: "python".to_string(),
                symbol_count: 0,
                occurrence_count: 1,
            },
        ],
        symbols: vec![
            symbol("pkg a().", Some("a"), &[("call", "pkg b()."), ("call", "pkg missing().")]),
            symbol("pkg b().", None, &[]),
            symbol("pkg a().", Some("again"), &[]),
        ],
        occurrences: vec![
            ScipOccurrence {
                document_path: "b.py".to_string(),
                symbol: "pkg b().".to_string(),
                range: ScipRange { start_line: -1, start_character: 3, end_line: 0, end_character: 4 },
                roles: vec!["reference".to_string(), "read".to_string()],
                syntax_kind: "id".to_string(),
            },
            ScipOccurrence {
                document_path: "a.py".to_string(),
                symbol: "pkg undeclared().".to_string(),
                range: ScipRange { start_line: 0, start_character: 0, end_line: 0, end_character: 1 },
                roles: vec![],
                syntax_kind: "id".to_string(),
            },
        ],
    };
    symgraph::scip::load_scip_to_database(&mut db, &index, "py").unwrap();

    assert!(db.db.get("project:file:///unknown").unwrap().is_some());
    assert_eq!(db.list_symbols().unwrap().len(), 2);
    assert_eq!(db.get_stats().unwrap().edges, 1);
    let first_file = db.ensure_file("a.py", "python").unwrap();
    let second_file = db.ensure_file("b.py", "python").unwrap();
    for info in db.list_symbols().unwrap() {
        assert_eq!(info.file_id, first_file);
        assert!(info.name == "a" || info.name == "pkg b().");
    }

    let stored: Vec<String> = db
        .db
        .scan_prefix("occurrence:")
        .map(|item| String::from_utf8(item.unwrap().1.to_vec()).unwrap())
        .collect();
    assert_eq!(stored.len(), 1);
    assert!(stored[0].contains("\"usage_kind\":\"reference,read\""));
    assert!(stored[0].contains("\"line\":4294967295,\"column\":3"));
    assert!(stored[0].contains(&format!("\"file_id\":\"{}\"", second_file)));

    let kept = db.get_scip_symbols_for_file(&first_file).unwrap();
    assert_eq!(kept.len(), 2);
    let with_targets = kept.iter().find(|s| s.symbol == "pkg a().").unwrap();
    assert_eq!(with_targets.relationships.len(), 2);
    assert_eq!(with_targets.relationships[1].target_symbol, "pkg missing().");
    let target = db.find_symbol_by_usr("pkg b().").unwrap().expect("the target is indexed");
    let occurrences = db.get_scip_occurrences_for_symbol(&target).unwrap();
    assert_eq!(occurrences.len(), 1);
    assert_eq!(occurrences[0].range.start_line, -1);
    assert_eq!(occurrences[0].roles.len(), 2);
    assert!(stored[0].contains(&format!("\"symbol_id\":\"{}\"", target)));

    assert_eq!(
        db.query_edges_by_kind_from("call", "pkg a().").unwrap(),
        vec!["pkg b().".to_string()]
    );
    assert!(db.query_edges_by_kind_from("call", "pkg b().").unwrap().is_empty());
    let source = db.find_symbol_by_usr("pkg a().").unwrap().expect("the source is indexed");
    let named: Vec<String> =
        db.list_symbols().unwrap().into_iter().filter(|s| s.id == source).map(|s| s.name).collect();
    assert_eq!(named, vec!["a".to_string()]);
}
