use symgraph::discovery::{get_installation_instruction, ScipConfig, ScipLanguage};

#[test]
fn test_detect_build_system_cmake() {
}

#[test]
fn test_scip_config() {
    let config = ScipConfig::new(ScipLanguage::Rust, "/tmp/project", "/tmp/output.scip")
        .with_extra_args(vec!["--verbose".to_string()]);

    assert_eq!(config.language, ScipLanguage::Rust);
    assert_eq!(config.extra_args.len(), 1);
}

#[test]
fn config_builders_keep_the_rest() {
    let config = ScipConfig::new(ScipLanguage::Cpp, "/p", "/o")
        .with_compile_commands("/p/compile_commands.json")
        .with_extra_args(vec!["-v".to_string()]);
    assert_eq!(config.project_path, "/p");
    assert_eq!(config.output_path, "/o");
    assert_eq!(config.compile_commands.as_deref(), Some("/p/compile_commands.json"));
    assert_eq!(config.extra_args, vec!["-v".to_string()]);
}

#[test]
fn languages_by_name() {
    assert_eq!(ScipLanguage::from("rust"), ScipLanguage::Rust);
    assert_eq!(ScipLanguage::from("cpp"), ScipLanguage::Cpp);
    assert_eq!(ScipLanguage::from("python"), ScipLanguage::Python);
    assert_eq!(ScipLanguage::from("RS"), ScipLanguage::Rust);
    assert_eq!(ScipLanguage::from("C++"), ScipLanguage::Cpp);
    assert_eq!(ScipLanguage::from_name("js"), ScipLanguage::JavaScript);
    assert_eq!(ScipLanguage::from_name("ts"), ScipLanguage::TypeScript);
    assert_eq!(ScipLanguage::from_name("bash"), ScipLanguage::Shell);
    assert_eq!(ScipLanguage::from_name("rb"), ScipLanguage::Ruby);
    assert_eq!(ScipLanguage::from_name("php"), ScipLanguage::PHP);
    assert_eq!(ScipLanguage::from_name("lua"), ScipLanguage::Lua);
    assert_eq!(ScipLanguage::from_name("cobol"), ScipLanguage::Unknown);
    assert_eq!(ScipLanguage::Cpp.name(), "C++");
}

#[test]
fn installation_instructions() {
    assert_eq!(
        get_installation_instruction(&ScipLanguage::Rust),
        "rustup component add rust-analyzer"
    );
    assert_eq!(
        get_installation_instruction(&ScipLanguage::JavaScript),
        get_installation_instruction(&ScipLanguage::TypeScript)
    );
    assert_eq!(get_installation_instruction(&ScipLanguage::Unknown), "Unknown language");
}

#[test]
fn test_language_detection() {
    assert_eq!(symgraph::discovery::detect_language(true, &vec![]), ScipLanguage::Rust);
    assert_eq!(ScipLanguage::from("rust"), ScipLanguage::Rust);
    assert_eq!(ScipLanguage::from("cpp"), ScipLanguage::Cpp);
    assert_eq!(ScipLanguage::from("python"), ScipLanguage::Python);
}
