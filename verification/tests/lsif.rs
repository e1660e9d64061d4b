use symgraph::json::Json;
use symgraph::lsif::{
    check_lsif, count_from_one, ingest_lsif_facts, parse_lsif_and_insert, parse_lsif_items, read_lsif,
    LsifError, LsifFact, LsifFailure,
};

#[test]
fn items_of_a_list_a_value_or_lines() {
    assert_eq!(parse_lsif_items("[{\"id\":1},{\"id\":2}]").len(), 2);
    assert_eq!(parse_lsif_items("{\"id\":1}").len(), 1);
    let lines = parse_lsif_items("{\"id\":1}\n\n// note\n  {\"id\":2}  \nnot json\n{\"id\":3}");
    assert_eq!(lines.len(), 3);
    assert!(matches!(&lines[1], Json::Object(fields) if fields[0].0 == "id"));
    assert!(parse_lsif_items("").is_empty());
}

#[test]
fn graphs_that_are_well_formed() {
    let ok = "{\"id\":1,\"type\":\"vertex\",\"label\":\"document\"}\n{\"id\":2,\"type\":\"range\",\"start\":{\"line\":0,\"character\":1},\"end\":{\"line\":0,\"character\":5}}\n{\"id\":3,\"type\":\"edge\",\"label\":7}\n{\"type\":\"vertex\"}\n{\"id\":4,\"type\":\"range\",\"start\":{\"line\":0}}";
    assert_eq!(check_lsif(&parse_lsif_items(ok)), Ok(()));
}

#[test]
fn graphs_that_are_refused() {
    assert_eq!(
        check_lsif(&parse_lsif_items("[{\"id\":\"a\",\"type\":\"vertex\"}]")),
        Err(LsifError::Header)
    );
    assert_eq!(
        check_lsif(&parse_lsif_items("[{\"id\":-1,\"type\":\"vertex\"}]")),
        Err(LsifError::Header)
    );
    assert_eq!(check_lsif(&parse_lsif_items("[{\"id\":1,\"type\":5}]")), Err(LsifError::Header));
    assert_eq!(
        check_lsif(&parse_lsif_items(
            "[{\"id\":1,\"type\":\"range\",\"start\":{\"line\":0},\"end\":{\"line\":0,\"character\":1}}]"
        )),
        Err(LsifError::Range)
    );
    assert_eq!(
        check_lsif(&parse_lsif_items("[{\"id\":1,\"type\":\"vertex\",\"label\":5}]")),
        Err(LsifError::Label)
    );
}

#[test]
fn only_the_last_item_of_an_id_counts() {
    let replaced = "[{\"id\":1,\"type\":\"vertex\",\"label\":5},{\"id\":1,\"type\":\"vertex\",\"label\":\"ok\"}]";
    assert_eq!(check_lsif(&parse_lsif_items(replaced)), Ok(()));
    let other_type = "[{\"id\":1,\"type\":\"vertex\",\"label\":5},{\"id\":1,\"type\":\"range\"}]";
    assert_eq!(check_lsif(&parse_lsif_items(other_type)), Err(LsifError::Label));
}

fn open_temp() -> (tempfile::TempDir, symgraph::database::SymgraphDb) {
    let dir = tempfile::tempdir().expect("tempdir");
    let db = symgraph::database::SymgraphDb::open(dir.path().join("g").to_str().unwrap()).unwrap();
    (dir, db)
}

fn stored(db: &symgraph::database::SymgraphDb, prefix: &str) -> Vec<String> {
    db.db
        .scan_prefix(prefix)
        .map(|item| String::from_utf8(item.unwrap().1.to_vec()).unwrap())
        .collect()
}

const GRAPH: &str = r#"{"id":5,"type":"vertex","label":"reference","usr":"crate::F@main","moniker":{"range":3}}
{"id":1,"type":"vertex","label":"document","uri":"file:///src/lib.rs"}
{"id":2,"type":"range","start":{"line":4,"character":2},"end":{"line":4,"character":8}}
{"id":3,"type":"range","start":{"line":9,"character":0},"end":{"line":9,"character":3}}
{"id":4,"type":"vertex","label":"definition","usr":"crate::F@main","containment":2,"moniker":{"range":2}}
{"id":6,"type":"vertex","label":"reference","usr":"crate::F@other","moniker":{"range":3}}
{"id":7,"type":"vertex","label":"reference","usr":"crate::F@main"}
{"id":8,"type":"vertex","label":"definition","usr":"crate::S@Thing#new"}
{"id":9,"type":"vertex","label":"definition"}"#;

#[test]
fn definitions_and_references_are_read_from_a_graph() {
    let (definitions, references) = read_lsif(GRAPH).unwrap();
    assert_eq!(
        definitions,
        vec![
            LsifFact {
                usr: "crate::F@main".to_string(),
                file: "file:///src/lib.rs".to_string(),
                place: Some((5, 3)),
            },
            LsifFact { usr: "crate::S@Thing#new".to_string(), file: "unknown".to_string(), place: None },
        ]
    );
    assert_eq!(
        references,
        vec![
            LsifFact {
                usr: "crate::F@main".to_string(),
                file: "file:///src/lib.rs".to_string(),
                place: Some((10, 1)),
            },
            LsifFact {
                usr: "crate::F@other".to_string(),
                file: "file:///src/lib.rs".to_string(),
                place: Some((10, 1)),
            },
            LsifFact { usr: "crate::F@main".to_string(), file: "unknown".to_string(), place: None },
        ]
    );
    assert_eq!(count_from_one(0), 1);
    assert_eq!(count_from_one(4294967295), 0);
    assert_eq!(count_from_one(4294967296), 1);
    assert_eq!(count_from_one(u64::MAX), 0);
}

#[test]
fn a_graph_is_brought_into_the_store() {
    let (_dir, mut db) = open_temp();
    parse_lsif_and_insert(GRAPH, &mut db, "crate").unwrap();

    let main = db.find_symbol_by_usr("crate::F@main").unwrap().expect("the definition is found");
    let thing = db.find_symbol_by_usr("crate::S@Thing#new").unwrap().expect("the definition is found");
    assert!(db.find_symbol_by_usr("crate::F@other").unwrap().is_none());
    let symbols = db.list_symbols().unwrap();
    assert_eq!(symbols.len(), 2);
    let shown = symbols.iter().find(|s| s.id == main).unwrap();
    assert_eq!((shown.name.as_str(), shown.kind.as_str()), ("F@main", "function"));
    let other = symbols.iter().find(|s| s.id == thing).unwrap();
    assert_eq!((other.name.as_str(), other.kind.as_str()), ("new", "struct"));

    let document = db.ensure_file("file:///src/lib.rs", "x").unwrap();
    let unknown = db.ensure_file("unknown", "x").unwrap();
    assert_eq!(shown.file_id, document);
    assert_eq!(other.file_id, unknown);
    let files = db.list_files().unwrap();
    assert!(files.iter().all(|f| f.language == "rust"));

    let occurrences = stored(&db, "occurrence:");
    assert_eq!(occurrences.len(), 3);
    let holds = |usage: &str, file: &str, line: u32, column: u32| {
        occurrences.iter().any(|text| {
            text.contains(&format!("\"symbol_id\":\"{}\"", main))
                && text.contains(&format!("\"file_id\":\"{}\"", file))
                && text.contains(&format!(
                    "\"usage_kind\":\"{}\",\"line\":{},\"column\":{}",
                    usage, line, column
                ))
        })
    };
    assert!(holds("definition", &document, 5, 3));
    assert!(holds("reference", &document, 10, 1));
    assert!(holds("reference", &unknown, 1, 1));
    assert_eq!(db.get_stats().unwrap().edges, 0);
}

#[test]
fn a_reference_to_an_unknown_symbol_adds_nothing() {
    let (_dir, mut db) = open_temp();
    let graph = "{\"id\":1,\"type\":\"vertex\",\"label\":\"reference\",\"usr\":\"u\",\"moniker\":{\"range\":2}}\n{\"id\":2,\"type\":\"range\",\"start\":{\"line\":0,\"character\":0},\"end\":{\"line\":0,\"character\":1}}\n{\"id\":3,\"type\":\"vertex\",\"label\":\"document\",\"uri\":\"a.rs\"}\n{\"id\":4,\"type\":\"edge\",\"label\":\"definition\",\"usr\":\"u\"}";
    parse_lsif_and_insert(graph, &mut db, "crate").unwrap();
    assert_eq!(db.db.len(), 0);
    ingest_lsif_facts(&mut db, &vec![], &vec![]).unwrap();
    assert_eq!(db.db.len(), 0);
}

#[test]
fn a_graph_that_is_refused_leaves_the_store_as_it_is() {
    let (_dir, mut db) = open_temp();
    let bad_usr = "[{\"id\":1,\"type\":\"vertex\",\"label\":\"definition\",\"usr\":\"ok\"},{\"id\":2,\"type\":\"vertex\",\"label\":\"reference\",\"usr\":7}]";
    assert!(matches!(
        parse_lsif_and_insert(bad_usr, &mut db, "crate"),
        Err(LsifFailure::Graph(LsifError::Usr))
    ));
    assert_eq!(read_lsif(bad_usr), Err(LsifError::Usr));
    let bad_label = "[{\"id\":1,\"type\":\"vertex\",\"label\":5,\"usr\":\"ok\"}]";
    assert!(matches!(
        parse_lsif_and_insert(bad_label, &mut db, "crate"),
        Err(LsifFailure::Graph(LsifError::Label))
    ));
    assert_eq!(db.db.len(), 0);
    let replaced = "[{\"id\":1,\"type\":\"vertex\",\"label\":\"definition\",\"usr\":7},{\"id\":1,\"type\":\"vertex\",\"label\":\"definition\",\"usr\":\"u::F@f\"}]";
    parse_lsif_and_insert(replaced, &mut db, "crate").unwrap();
    assert!(db.find_symbol_by_usr("u::F@f").unwrap().is_some());
}
