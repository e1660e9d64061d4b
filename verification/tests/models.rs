use symgraph::json::{decode, encode, Json};
use symgraph::models::{ModuleAnalysis, ModuleInfo, Relation, Symbol};

#[test]
fn roundtrip_module_info() {
    let mi = ModuleInfo {
        name: "foo".to_string(),
        path: "foo.rs".to_string(),
        imports: vec!["std::io".to_string()],
    };
    let s = encode(&mi.to_json()).unwrap();
    let got: ModuleInfo = ModuleInfo::from_json(&decode(&s).unwrap()).unwrap();
    assert_eq!(mi, got);
}

#[test]
fn symbol_and_relation() {
    let sym = Symbol {
        name: "foo".to_string(),
        kind: "fn".to_string(),
        signature: "fn foo()".to_string(),
        is_exported: true,
        line: 10,
    };
    let rel = Relation {
        from_name: "foo".to_string(),
        to_name: "Bar".to_string(),
        kind: "type_ref".to_string(),
    };
    let ma = ModuleAnalysis {
        info: ModuleInfo { name: "m".into(), path: "m.rs".into(), imports: vec![] },
        symbols: vec![sym.clone()],
        relations: vec![rel.clone()],
    };
    let s = encode(&ma.to_json()).unwrap();
    let got: ModuleAnalysis = ModuleAnalysis::from_json(&decode(&s).unwrap()).unwrap();
    assert_eq!(got.symbols[0], sym);
    assert_eq!(got.relations[0], rel);
}

#[test]
fn module_info_is_written_field_by_field() {
    let mi = ModuleInfo {
        name: "foo".to_string(),
        path: "foo.rs".to_string(),
        imports: vec!["std::io".to_string(), "crate::bar".to_string()],
    };
    let s = encode(&mi.to_json()).unwrap();
    assert_eq!(
        String::from_utf8(s).unwrap(),
        r#"{"name":"foo","path":"foo.rs","imports":["std::io","crate::bar"]}"#
    );
}

#[test]
fn analysis_is_written_field_by_field() {
    let ma = ModuleAnalysis {
        info: ModuleInfo { name: "m".into(), path: "m.rs".into(), imports: vec![] },
        symbols: vec![Symbol {
            name: "foo".into(),
            kind: "fn".into(),
            signature: "fn foo()".into(),
            is_exported: true,
            line: 10,
        }],
        relations: vec![Relation { from_name: "foo".into(), to_name: "Bar".into(), kind: "type_ref".into() }],
    };
    let s = encode(&ma.to_json()).unwrap();
    let mut expected = String::new();
    expected.push_str(r#"{"info":{"name":"m","path":"m.rs","imports":[]},"#);
    expected.push_str(
        r#""symbols":[{"name":"foo","kind":"fn","signature":"fn foo()","is_exported":true,"line":10}],"#,
    );
    expected.push_str(r#""relations":[{"from_name":"foo","to_name":"Bar","kind":"type_ref"}]}"#);
    assert_eq!(String::from_utf8(s.clone()).unwrap(), expected);
    let got = ModuleAnalysis::from_json(&decode(&s).unwrap()).unwrap();
    assert_eq!(got, ma);
}

#[test]
fn a_value_without_a_field_holds_no_module() {
    let v = decode(br#"{"name":"foo","imports":[]}"#).unwrap();
    assert!(ModuleInfo::from_json(&v).is_none());
    let v = decode(br#"{"name":"foo","path":"p","imports":[1]}"#).unwrap();
    assert!(ModuleInfo::from_json(&v).is_none());
    let v = decode(br#"{"name":"foo","path":"p","imports":[],"more":true}"#).unwrap();
    assert!(ModuleInfo::from_json(&v).is_some());
    assert!(ModuleInfo::from_json(&Json::Null).is_none());
}

#[test]
fn a_line_beyond_32_bits_holds_no_symbol() {
    let v = decode(br#"{"name":"f","kind":"fn","signature":"","is_exported":false,"line":4294967296}"#).unwrap();
    assert!(Symbol::from_json(&v).is_none());
    let v = decode(br#"{"name":"f","kind":"fn","signature":"","is_exported":false,"line":4294967295}"#).unwrap();
    assert_eq!(Symbol::from_json(&v).unwrap().line, u32::MAX);
}

#[test]
fn modules_differ_by_their_imports() {
    let a = ModuleInfo { name: "m".into(), path: "m.rs".into(), imports: vec!["x".into()] };
    let b = ModuleInfo { name: "m".into(), path: "m.rs".into(), imports: vec!["y".into()] };
    let c = ModuleInfo { name: "m".into(), path: "m.rs".into(), imports: vec![] };
    assert_ne!(a, b);
    assert_ne!(a, c);
    assert_eq!(a, a.clone());
}
