use symgraph::database::{
    insert_edge, insert_edge_with_id, insert_occurrence, insert_occurrence_with_id, insert_symbol,
    insert_symbol_with_id, upsert_module, upsert_module_with_id, StoreError, SymgraphDb,
};

fn open_temp() -> (tempfile::TempDir, SymgraphDb) {
    let dir = tempfile::tempdir().expect("tempdir");
    let path = dir.path().join("graph.db");
    let db = SymgraphDb::open(path.to_str().unwrap()).expect("open");
    (dir, db)
}

#[test]
fn test_ensure_file() {
    let (_dir, mut db) = open_temp();

    let file_id1 = db.ensure_file("src/main.cpp", "c++").unwrap();
    let file_id2 = db.ensure_file("src/main.cpp", "c++").unwrap();
    let file_id3 = db.ensure_file("src/lib.rs", "rust").unwrap();

    assert_eq!(file_id1, file_id2);
    assert_ne!(file_id1, file_id3);
}

#[test]
fn test_insert_symbol() {
    let (_dir, mut db) = open_temp();
    let file_id = db.ensure_file("example.cpp", "c++").unwrap();

    let sym1 = insert_symbol(
        &mut db,
        &file_id,
        Some("c:@F@main#"),
        None,
        "main",
        "FunctionDecl",
        true,
    )
    .unwrap();
    let sym2 = insert_symbol(
        &mut db,
        &file_id,
        Some("c:@S@MyClass#"),
        None,
        "MyClass",
        "ClassDecl",
        true,
    )
    .unwrap();

    assert!(!sym1.is_empty());
    assert!(!sym2.is_empty());
    assert_ne!(sym1, sym2);
}

#[test]
fn test_find_symbol_by_usr() {
    let (_dir, mut db) = open_temp();
    let file_id = db.ensure_file("test.cpp", "c++").unwrap();

    let sym_id = insert_symbol(
        &mut db,
        &file_id,
        Some("c:@F@foo#"),
        None,
        "foo",
        "FunctionDecl",
        true,
    )
    .unwrap();

    let found = db.find_symbol_by_usr("c:@F@foo#").unwrap();
    assert_eq!(found, Some(sym_id));

    let not_found = db.find_symbol_by_usr("c:@F@bar#").unwrap();
    assert_eq!(not_found, None);
}

#[test]
fn test_call_graph() {
    let (_dir, mut db) = open_temp();
    let file_id = db.ensure_file("app.cpp", "c++").unwrap();

    let main_id =
        insert_symbol(&mut db, &file_id, Some("c:@F@main#"), None, "main", "FunctionDecl", true)
            .unwrap();
    let foo_id =
        insert_symbol(&mut db, &file_id, Some("c:@F@foo#"), None, "foo", "FunctionDecl", true)
            .unwrap();
    let bar_id =
        insert_symbol(&mut db, &file_id, Some("c:@F@bar#"), None, "bar", "FunctionDecl", true)
            .unwrap();
    let baz_id =
        insert_symbol(&mut db, &file_id, Some("c:@F@baz#"), None, "baz", "FunctionDecl", true)
            .unwrap();

    insert_edge(&mut db, Some(&main_id), Some(&foo_id), None, None, "call").unwrap();
    insert_edge(&mut db, Some(&main_id), Some(&bar_id), None, None, "call").unwrap();
    insert_edge(&mut db, Some(&foo_id), Some(&baz_id), None, None, "call").unwrap();

    let callees = db.query_edges_by_kind_from("call", "c:@F@main#").unwrap();
    assert_eq!(callees.len(), 2);
    assert!(callees.contains(&"foo".to_string()));
    assert!(callees.contains(&"bar".to_string()));

    let foo_callees = db.query_edges_by_kind_from("call", "c:@F@foo#").unwrap();
    assert_eq!(foo_callees, vec!["baz".to_string()]);
}

#[test]
fn test_upsert_module_idempotent() {
    let (_dir, mut db) = open_temp();

    let id1 = upsert_module(&mut db, "my_module", "cpp20-module", "src/my_module.cppm").unwrap();
    let id2 = upsert_module(&mut db, "my_module", "cpp20-module", "src/my_module.cppm").unwrap();
    let id3 = upsert_module(&mut db, "other_module", "cpp20-module", "src/other.cppm").unwrap();

    assert_eq!(id1, id2);
    assert_ne!(id1, id3);
}

#[test]
fn open_failure_is_reported() {
    let file = tempfile::NamedTempFile::new().expect("temporary file");
    match SymgraphDb::open(file.path().to_str().unwrap()) {
        Err(StoreError::Open(message)) => {
            let head = format!("Failed to open database at '{}': ", file.path().to_str().unwrap());
            assert!(message.starts_with(&head));
            assert!(message.len() > head.len());
        }
        _ => panic!("a plain file is no store"),
    }
}

#[test]
fn occurrence_is_recorded() {
    let (_dir, mut db) = open_temp();
    let file_id = db.ensure_file("main.cpp", "c++").unwrap();
    let sym_id =
        insert_symbol(&mut db, &file_id, Some("c:@F@print#"), None, "print", "FunctionDecl", true)
            .unwrap();
    let occ1 = insert_occurrence(&mut db, &sym_id, &file_id, "call", 10, 5).unwrap();
    let occ2 = insert_occurrence(&mut db, &sym_id, &file_id, "call", 25, 8).unwrap();
    assert_ne!(occ1, occ2);
}

#[test]
fn test_inheritance_graph() {
    let (_dir, mut db) = open_temp();
    let file_id = db.ensure_file("classes.cpp", "c++").unwrap();

    let base_id =
        insert_symbol(&mut db, &file_id, Some("c:@S@Base#"), None, "Base", "ClassDecl", true)
            .unwrap();
    let derived_id =
        insert_symbol(&mut db, &file_id, Some("c:@S@Derived#"), None, "Derived", "ClassDecl", true)
            .unwrap();
    let child_id =
        insert_symbol(&mut db, &file_id, Some("c:@S@Child#"), None, "Child", "ClassDecl", true)
            .unwrap();

    insert_edge(&mut db, Some(&base_id), Some(&derived_id), None, None, "inherit").unwrap();
    insert_edge(&mut db, Some(&derived_id), Some(&child_id), None, None, "inherit").unwrap();

    let base_children = db.query_edges_by_kind_from("inherit", "c:@S@Base#").unwrap();
    assert_eq!(base_children, vec!["Derived".to_string()]);
}

#[test]
fn test_member_graph() {
    let (_dir, mut db) = open_temp();
    let file_id = db.ensure_file("person.cpp", "c++").unwrap();

    let person_id =
        insert_symbol(&mut db, &file_id, Some("c:@S@Person#"), None, "Person", "ClassDecl", true)
            .unwrap();
    let name_id = insert_symbol(
        &mut db,
        &file_id,
        Some("c:@S@Person#name_"),
        None,
        "name_",
        "FieldDecl",
        true,
    )
    .unwrap();
    let age_id = insert_symbol(
        &mut db,
        &file_id,
        Some("c:@S@Person#age_"),
        None,
        "age_",
        "FieldDecl",
        true,
    )
    .unwrap();
    let get_name_id = insert_symbol(
        &mut db,
        &file_id,
        Some("c:@S@Person#getName#"),
        None,
        "getName",
        "Method",
        true,
    )
    .unwrap();

    insert_edge(&mut db, Some(&person_id), Some(&name_id), None, None, "member").unwrap();
    insert_edge(&mut db, Some(&person_id), Some(&age_id), None, None, "member").unwrap();
    insert_edge(&mut db, Some(&person_id), Some(&get_name_id), None, None, "member").unwrap();

    let members = db.query_edges_by_kind_from("member", "c:@S@Person#").unwrap();
    assert_eq!(members.len(), 3);
    assert!(members.contains(&"name_".to_string()));
    assert!(members.contains(&"age_".to_string()));
    assert!(members.contains(&"getName".to_string()));
}

#[test]
fn test_module_graph() {
    let (_dir, mut db) = open_temp();

    let foo_mod = upsert_module(&mut db, "foo", "cpp20-module", "src/foo.cppm").unwrap();
    let bar_mod = upsert_module(&mut db, "bar", "cpp20-module", "src/bar.cppm").unwrap();
    let main_mod = upsert_module(&mut db, "main", "cpp20-module", "src/main.cpp").unwrap();

    insert_edge(&mut db, None, None, Some(&main_mod), Some(&foo_mod), "module-import").unwrap();
    insert_edge(&mut db, None, None, Some(&main_mod), Some(&bar_mod), "module-import").unwrap();
    insert_edge(&mut db, None, None, Some(&bar_mod), Some(&foo_mod), "module-import").unwrap();

    let stats = db.get_stats().unwrap();
    assert_eq!(stats.edges, 3);

    let graph = symgraph::database::list_modules(&db).unwrap();
    assert_eq!(graph.imports.len(), 3);
    assert!(graph.imports.contains(&("main".to_string(), "foo".to_string())));
    assert!(graph.imports.contains(&("main".to_string(), "bar".to_string())));
    assert!(graph.imports.contains(&("bar".to_string(), "foo".to_string())));
    assert_eq!(graph.modules.len(), 6);
}

#[test]
fn test_insert_occurrence() {
    let (_dir, mut db) = open_temp();
    let file_id = db.ensure_file("main.cpp", "c++").unwrap();

    let sym_id =
        insert_symbol(&mut db, &file_id, Some("c:@F@print#"), None, "print", "FunctionDecl", true)
            .unwrap();

    let occ1 = insert_occurrence(&mut db, &sym_id, &file_id, "call", 10, 5).unwrap();
    let occ2 = insert_occurrence(&mut db, &sym_id, &file_id, "call", 25, 8).unwrap();
    let occ3 = insert_occurrence(&mut db, &sym_id, &file_id, "reference", 42, 12).unwrap();

    assert!(!occ1.is_empty());
    assert!(!occ2.is_empty());
    assert!(!occ3.is_empty());

    let count = db.db.scan_prefix("occurrence:").count();
    assert_eq!(count, 3);
}

#[test]
fn repeated_ensure_keeps_the_first_record() {
    let (_dir, mut db) = open_temp();
    let first = db
        .ensure_file_with_category("p", "src/a.cpp", "c++", Some("header"), Some("first"))
        .unwrap();
    let second = db
        .ensure_file_with_category("q", "src/a.cpp", "rust", Some("other"), None)
        .unwrap();
    assert_eq!(first, second);
    let files = db.list_files().unwrap();
    assert_eq!(files.len(), 2);
    for file in &files {
        assert_eq!(file.id, first);
        assert_eq!(file.path, "src/a.cpp");
        assert_eq!(file.language, "c++");
        assert_eq!(file.category, "header");
        assert_eq!(file.purpose, "first");
    }
}

#[test]
fn an_identifier_used_as_a_path_is_found() {
    let (_dir, mut db) = open_temp();
    let id = db.ensure_file("src/a.cpp", "c++").unwrap();
    let again = db.ensure_file(&id, "c++").unwrap();
    assert_eq!(id, again);
}

#[test]
fn repeated_upsert_keeps_kind_and_path() {
    let (_dir, mut db) = open_temp();
    let forward = upsert_module(&mut db, "std", "cpp20-module", "").unwrap();
    let declared = upsert_module(&mut db, "std", "other-kind", "src/std.cppm").unwrap();
    assert_eq!(forward, declared);
    let graph = symgraph::database::list_modules(&db).unwrap();
    assert_eq!(graph.modules.len(), 2);
    for module in &graph.modules {
        assert_eq!(module.name, "std");
        assert_eq!(module.kind, "cpp20-module");
        assert_eq!(module.path, None);
        assert_eq!(module.project_id, "1");
    }
}

#[test]
fn ensure_project_keeps_the_first_name() {
    let (_dir, mut db) = open_temp();
    let first = db.ensure_project("one", "/work/project").unwrap();
    let second = db.ensure_project("two", "/work/project").unwrap();
    let other = db.ensure_project("one", "/work/other").unwrap();
    assert_eq!(first, second);
    assert_ne!(first, other);
    let stored = db.db.get(format!("project:{}", first)).unwrap().unwrap();
    let text = String::from_utf8(stored.to_vec()).unwrap();
    assert!(text.starts_with(&format!(
        "{{\"id\":\"{}\",\"name\":\"one\",\"root_path\":\"/work/project\",\"description\":null,\"purpose\":null,\"structure\":null,\"dependencies\":null,\"created_at\":\"",
        first
    )));
}

#[test]
fn annotation_rewrites_the_record_under_the_identifier() {
    let (_dir, mut db) = open_temp();
    let id = db.ensure_project("one", "/work/project").unwrap();
    db.update_project_annotation(&id, "d", "p", "s", "[]").unwrap();
    db.update_project_annotation("no such project", "d", "p", "s", "[]").unwrap();
    let by_id = String::from_utf8(db.db.get(format!("project:{}", id)).unwrap().unwrap().to_vec())
        .unwrap();
    assert!(by_id.contains("\"description\":\"d\",\"purpose\":\"p\",\"structure\":\"s\",\"dependencies\":\"[]\""));
    let by_root =
        String::from_utf8(db.db.get("project:/work/project").unwrap().unwrap().to_vec()).unwrap();
    assert!(by_root.contains("\"description\":null"));
    assert_eq!(db.ensure_project("one", "/work/project").unwrap(), id);
}

#[test]
fn last_symbol_with_an_external_identifier_is_found() {
    let (_dir, mut db) = open_temp();
    let first = insert_symbol(&mut db, "f", Some("c:@F@twice#"), None, "twice", "FunctionDecl", true)
        .unwrap();
    let second =
        insert_symbol(&mut db, "f", Some("c:@F@twice#"), None, "twice", "FunctionDecl", false)
            .unwrap();
    assert_ne!(first, second);
    assert_eq!(db.find_symbol_by_usr("c:@F@twice#").unwrap(), Some(second));
    assert_eq!(db.list_symbols().unwrap().len(), 2);
    assert_eq!(db.get_stats().unwrap().symbols, 2);
}

#[test]
fn symbol_without_external_identifier_is_not_indexed() {
    let (_dir, mut db) = open_temp();
    let id = insert_symbol(&mut db, "f", None, Some("k"), "anon", "VarDecl", false).unwrap();
    let stored = String::from_utf8(db.db.get(format!("symbol:{}", id)).unwrap().unwrap().to_vec())
        .unwrap();
    assert_eq!(
        stored,
        format!(
            "{{\"id\":\"{}\",\"file_id\":\"f\",\"usr\":null,\"key\":\"k\",\"name\":\"anon\",\"kind\":\"VarDecl\",\"is_definition\":false}}",
            id
        )
    );
    assert_eq!(db.db.scan_prefix("symbol_by_usr:").count(), 0);
}

#[test]
fn occurrence_record_is_exact() {
    let (_dir, mut db) = open_temp();
    let id = insert_occurrence(&mut db, "s", "f", "call", 10, 5).unwrap();
    let stored =
        String::from_utf8(db.db.get(format!("occurrence:{}", id)).unwrap().unwrap().to_vec())
            .unwrap();
    assert_eq!(
        stored,
        format!(
            "{{\"id\":\"{}\",\"symbol_id\":\"s\",\"file_id\":\"f\",\"usage_kind\":\"call\",\"line\":10,\"column\":5}}",
            id
        )
    );
}

#[test]
fn edge_is_stored_as_given_and_indexed_by_its_source() {
    let (_dir, mut db) = open_temp();
    let id = insert_edge(&mut db, Some("a"), Some("b"), Some("m"), None, "call").unwrap();
    let expected = format!(
        "{{\"id\":\"{}\",\"from_sym\":\"a\",\"to_sym\":\"b\",\"from_module\":\"m\",\"to_module\":null,\"kind\":\"call\"}}",
        id
    );
    let stored =
        String::from_utf8(db.db.get(format!("edge:{}", id)).unwrap().unwrap().to_vec()).unwrap();
    assert_eq!(stored, expected);
    let indexed = String::from_utf8(
        db.db.get(format!("edges_from:a:call:{}", id)).unwrap().unwrap().to_vec(),
    )
    .unwrap();
    assert_eq!(indexed, expected);

    let module_edge = insert_edge(&mut db, None, None, Some("m1"), Some("m2"), "module-import")
        .unwrap();
    assert!(db.db.get(format!("edge:{}", module_edge)).unwrap().is_some());
    assert_eq!(db.db.scan_prefix("edges_from:").count(), 1);
}

#[test]
fn query_of_unknown_symbol_is_empty() {
    let (_dir, db) = open_temp();
    assert!(db.query_edges_by_kind_from("call", "c:@F@nobody#").unwrap().is_empty());
    assert!(symgraph::database::query_calls(&db, "c:@F@nobody#").unwrap().is_empty());
}

#[test]
fn query_passes_over_missing_targets_and_repeats_duplicates() {
    let (_dir, mut db) = open_temp();
    let a = insert_symbol(&mut db, "f", Some("u:a"), None, "a", "fn", true).unwrap();
    let b = insert_symbol(&mut db, "f", Some("u:b"), None, "b", "fn", true).unwrap();
    insert_edge(&mut db, Some(&a), Some(&b), None, None, "call").unwrap();
    insert_edge(&mut db, Some(&a), Some(&b), None, None, "call").unwrap();
    insert_edge(&mut db, Some(&a), Some("no-such-symbol"), None, None, "call").unwrap();
    insert_edge(&mut db, Some(&a), None, None, None, "call").unwrap();
    insert_edge(&mut db, Some(&a), Some(&b), None, None, "inherit").unwrap();
    let names = db.query_edges_by_kind_from("call", "u:a").unwrap();
    assert_eq!(names, vec!["b".to_string(), "b".to_string()]);
    assert_eq!(symgraph::database::query_calls(&db, "u:a").unwrap().len(), 2);
}

#[test]
fn query_fails_on_an_unreadable_entry() {
    let (_dir, mut db) = open_temp();
    let a = insert_symbol(&mut db, "f", Some("u:a"), None, "a", "fn", true).unwrap();
    db.db.insert(format!("edges_from:{}:call:zzz", a), "not json").unwrap();
    match db.query_edges_by_kind_from("call", "u:a") {
        Err(StoreError::Corrupt(_)) => {}
        _ => panic!("an unreadable edge is reported"),
    }
}

#[test]
fn ensure_file_fails_on_an_unreadable_record() {
    let (_dir, mut db) = open_temp();
    db.db.insert("file:broken", "{\"id\":7}").unwrap();
    match db.ensure_file("broken", "c++") {
        Err(StoreError::Corrupt(_)) => {}
        _ => panic!("a record without its fields is reported"),
    }
    db.db.insert("file:partial", "{\"id\":\"x\",\"project_id\":\"1\",\"path\":\"partial\",\"lang\":\"c\",\"extra\":[1,2.5,{\"a\":null}]}").unwrap();
    assert_eq!(db.ensure_file("partial", "c++").unwrap(), "x");
}

#[test]
fn search_is_by_lower_case() {
    let (_dir, mut db) = open_temp();
    db.ensure_file("src/Main.CPP", "c++").unwrap();
    db.ensure_file("src/lib.rs", "rust").unwrap();
    let found = db.search_files("MAIN").unwrap();
    assert_eq!(found.len(), 2);
    assert_eq!(found[0].path, "src/Main.CPP");
    assert_eq!(found[1].path, "src/Main.CPP");
    assert!(db.search_files("nothing").unwrap().is_empty());
    insert_symbol(&mut db, "f", None, None, "ParseFile", "fn", true).unwrap();
    insert_symbol(&mut db, "f", None, None, "other", "fn", true).unwrap();
    let symbols = db.search_symbols("parse").unwrap();
    assert_eq!(symbols.len(), 1);
    assert_eq!(symbols[0].name, "ParseFile");
    assert_eq!(symbols[0].kind, "fn");
    assert_eq!(symbols[0].file_id, "f");
}

fn text_under(db: &SymgraphDb, key: &str) -> Option<String> {
    db.db.get(key).unwrap().map(|v| String::from_utf8(v.to_vec()).unwrap())
}

#[test]
fn a_new_identifier_has_the_written_shape() {
    let (_dir, mut db) = open_temp();
    let ids = vec![
        db.ensure_project("p", "/p").unwrap(),
        db.ensure_file("a.c", "c").unwrap(),
        upsert_module(&mut db, "m", "k", "").unwrap(),
        insert_symbol(&mut db, "f", None, None, "n", "k", true).unwrap(),
        insert_occurrence(&mut db, "s", "f", "call", 1, 1).unwrap(),
        insert_edge(&mut db, Some("a"), Some("b"), None, None, "call").unwrap(),
    ];
    for id in &ids {
        assert_eq!(id.len(), 36);
        for (place, c) in id.chars().enumerate() {
            if place == 8 || place == 13 || place == 18 || place == 23 {
                assert_eq!(c, '-');
            } else {
                assert!(c.is_ascii_digit() || ('a'..='f').contains(&c));
            }
        }
    }
    for (i, a) in ids.iter().enumerate() {
        for b in &ids[i + 1..] {
            assert_ne!(a, b);
        }
    }
}

#[test]
fn a_given_identifier_goes_to_a_new_file_only() {
    let (_dir, mut db) = open_temp();
    let first = db.ensure_file_with_id("7", "a.c", "c", Some("impl"), None, "file-one").unwrap();
    assert_eq!(first, "file-one");
    assert_eq!(
        text_under(&db, "file:a.c").unwrap(),
        r#"{"id":"file-one","project_id":"7","module_id":null,"path":"a.c","lang":"c","category":"impl","purpose":null}"#
    );
    assert_eq!(text_under(&db, "file:file-one"), text_under(&db, "file:a.c"));
    let again = db.ensure_file_with_id("8", "a.c", "rust", None, Some("x"), "file-two").unwrap();
    assert_eq!(again, "file-one");
    assert!(text_under(&db, "file:file-two").is_none());
    let other = db.ensure_file_with_id("7", "b.c", "c", None, None, "file-two").unwrap();
    assert_eq!(other, "file-two");

    let project = db.ensure_project_with_id("p", "/root", "project-one", "then").unwrap();
    assert_eq!(project, "project-one");
    assert_eq!(
        text_under(&db, "project:/root").unwrap(),
        r#"{"id":"project-one","name":"p","root_path":"/root","description":null,"purpose":null,"structure":null,"dependencies":null,"created_at":"then"}"#
    );
    assert_eq!(db.ensure_project_with_id("q", "/root", "project-two", "now").unwrap(), "project-one");

    assert_eq!(upsert_module_with_id(&mut db, "m", "k", "", "module-one").unwrap(), "module-one");
    assert_eq!(upsert_module_with_id(&mut db, "m", "other", "m.cppm", "module-two").unwrap(), "module-one");
    assert_eq!(
        text_under(&db, "module:m").unwrap(),
        r#"{"id":"module-one","project_id":"1","name":"m","kind":"k","path":null}"#
    );
}

#[test]
fn the_call_graph_on_given_identifiers_is_exact() {
    let (_dir, mut db) = open_temp();
    let file = db.ensure_file_with_id("1", "main.cpp", "c++", None, None, "f").unwrap();
    for name in ["main", "foo", "bar", "baz"] {
        let usr = format!("c:@F@{}#", name);
        insert_symbol_with_id(&mut db, name, &file, Some(&usr), None, name, "FunctionDecl", true)
            .unwrap();
    }
    insert_edge_with_id(&mut db, "e2", Some("main"), Some("foo"), None, None, "call").unwrap();
    insert_edge_with_id(&mut db, "e1", Some("main"), Some("bar"), None, None, "call").unwrap();
    insert_edge_with_id(&mut db, "e3", Some("foo"), Some("baz"), None, None, "call").unwrap();
    insert_edge_with_id(&mut db, "e4", Some("main"), Some("baz"), None, None, "inherit").unwrap();
    insert_occurrence_with_id(&mut db, "o1", "foo", &file, "call", 3, 9).unwrap();

    assert_eq!(
        db.query_edges_by_kind_from("call", "c:@F@main#").unwrap(),
        vec!["bar".to_string(), "foo".to_string()]
    );
    assert_eq!(db.query_edges_by_kind_from("call", "c:@F@foo#").unwrap(), vec!["baz".to_string()]);
    assert_eq!(db.query_edges_by_kind_from("inherit", "c:@F@main#").unwrap(), vec!["baz".to_string()]);
    assert!(db.query_edges_by_kind_from("call", "c:@F@baz#").unwrap().is_empty());
    assert_eq!(db.find_symbol_by_usr("c:@F@bar#").unwrap().as_deref(), Some("bar"));
    assert_eq!(
        text_under(&db, "edges_from:main:call:e1").unwrap(),
        r#"{"id":"e1","from_sym":"main","to_sym":"bar","from_module":null,"to_module":null,"kind":"call"}"#
    );
    assert_eq!(
        text_under(&db, "occurrence:o1").unwrap(),
        r#"{"id":"o1","symbol_id":"foo","file_id":"f","usage_kind":"call","line":3,"column":9}"#
    );
    assert_eq!(db.get_stats().unwrap().edges, 4);
}

#[test]
fn a_file_keeps_its_identifier_whatever_comes_between() {
    let (_dir, mut db) = open_temp();
    let first = db.ensure_file_with_category("1", "a.c", "c", Some("impl"), Some("x")).unwrap();
    let record = text_under(&db, "file:a.c").unwrap();
    let other = db.ensure_file("b.c", "c").unwrap();
    db.ensure_project("p", "/p").unwrap();
    upsert_module(&mut db, "m", "k", "").unwrap();
    let symbol = insert_symbol(&mut db, &first, Some("u"), None, "n", "k", true).unwrap();
    insert_occurrence(&mut db, &symbol, &other, "call", 1, 2).unwrap();
    insert_edge(&mut db, Some(&symbol), Some(&symbol), None, None, "call").unwrap();
    let again = db.ensure_file_with_category("2", "a.c", "rust", None, None).unwrap();
    assert_eq!(again, first);
    assert_ne!(first, other);
    assert_eq!(text_under(&db, "file:a.c").unwrap(), record);
    assert_eq!(db.db.scan_prefix("file:").count(), 4);
}
