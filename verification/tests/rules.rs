use openclaudia::json;
use openclaudia::rules::{
    extension, extension_to_language, extract_extensions_from_tool_input, languages, RuleFile,
    RulesEngine,
};

fn file(name: &str, extension: &str, content: &str) -> RuleFile {
    RuleFile {
        stem: Some(name.to_string()),
        extension: Some(extension.to_string()),
        content: Some(content.to_string()),
    }
}

fn test_files() -> Vec<RuleFile> {
    vec![
        file(
            "always",
            "md",
            "# Global Rules\n\nAlways follow these rules.",
        ),
        file("rust", "md", "# Rust Rules\n\nUse proper error handling."),
        file("python", "md", "# Python Rules\n\nUse type hints."),
    ]
}

fn engine() -> RulesEngine {
    RulesEngine::new("rules".to_string(), &test_files())
}

fn exts(list: &[&str]) -> Vec<String> {
    list.iter().map(|e| e.to_string()).collect()
}

#[test]
fn test_extension_to_language() {
    assert_eq!(extension_to_language("rs"), Some("rust"));
    assert_eq!(extension_to_language("py"), Some("python"));
    assert_eq!(extension_to_language("ts"), Some("typescript"));
    assert_eq!(extension_to_language("unknown"), None);
}

#[test]
fn extensions_are_known_in_any_case() {
    assert_eq!(extension_to_language("RS"), Some("rust"));
    assert_eq!(extension_to_language(""), None);
    assert_eq!(extension_to_language("ÜX"), None);
}

/// Every entry in the table must round-trip through `extension_to_language`,
/// names are kebab-case-ish (lowercase), and every entry has at least one ext.
#[test]
fn test_languages_table_consistency() {
    for language in languages() {
        let lang = language.name;
        assert!(
            !language.extensions.is_empty(),
            "language {lang} has zero extensions"
        );
        assert!(
            lang.chars()
                .all(|c| c.is_ascii_lowercase() || c.is_ascii_digit() || c == '-'),
            "language name {lang} must be lowercase / kebab-case"
        );
        for ext in language.extensions {
            assert_eq!(
                extension_to_language(ext),
                Some(lang),
                "extension {ext} did not resolve to {lang}"
            );
        }
    }
}

#[test]
fn test_parse_rule_name() {
    let (name, langs) = RulesEngine::parse_rule_name("always");
    assert_eq!(name, "always");
    assert!(langs.is_empty());

    let (name, langs) = RulesEngine::parse_rule_name("rust");
    assert_eq!(name, "rust");
    assert_eq!(langs, vec!["rust"]);

    let (name, langs) = RulesEngine::parse_rule_name("rust-memory");
    assert_eq!(name, "rust-memory");
    assert_eq!(langs, vec!["rust"]);

    let (name, langs) = RulesEngine::parse_rule_name("security");
    assert_eq!(name, "security");
    assert!(langs.is_empty()); // Not a known language, so global
}

#[test]
fn test_load_rules() {
    assert_eq!(engine().all_rules().len(), 3);
}

#[test]
fn unreadable_files_are_no_rules() {
    let files = vec![
        file("notes", "txt", "not markdown"),
        RuleFile {
            stem: Some("locked".to_string()),
            extension: Some("md".to_string()),
            content: None,
        },
        RuleFile {
            stem: None,
            extension: Some("md".to_string()),
            content: Some("nameless".to_string()),
        },
        file("rust", "md", "kept"),
    ];
    let mut engine = RulesEngine::new("rules".to_string(), &files);
    assert_eq!(engine.all_rules().len(), 1);
    assert_eq!(engine.all_rules()[0].content, "kept");
    engine.reload(&test_files());
    assert_eq!(engine.all_rules().len(), 3);
    assert_eq!(engine.rules_dir(), "rules");
}

#[test]
fn test_get_rules_for_extensions() {
    let engine = engine();

    // Rust files should get always + rust rules
    let rules = engine.get_rules_for_extensions(&exts(&["rs"]));
    assert_eq!(rules.len(), 2);

    // Python files should get always + python rules
    let rules = engine.get_rules_for_extensions(&exts(&["py"]));
    assert_eq!(rules.len(), 2);

    // Unknown extensions should only get global rules
    let rules = engine.get_rules_for_extensions(&exts(&["xyz"]));
    assert_eq!(rules.len(), 1);

    // More extensions bring more rules.
    let rules = engine.get_rules_for_extensions(&exts(&["rs", "py"]));
    assert_eq!(rules.len(), 3);
}

#[test]
fn rules_are_found_for_files() {
    let engine = engine();
    let rules = engine.get_rules_for_files(&exts(&["src/main.rs", "Makefile"]));
    let names: Vec<&str> = rules.iter().map(|r| r.name.as_str()).collect();
    assert_eq!(names, vec!["always", "rust"]);
    let combined = engine.get_combined_rules(&exts(&["py"]));
    assert!(combined.contains("Always follow these rules."));
    assert!(combined.contains("Use type hints."));
    assert!(!combined.contains("error handling"));
    assert!(
        combined.find("Global Rules").unwrap() < combined.find("Python Rules").unwrap(),
        "rules stay in order"
    );
}

#[test]
fn extensions_of_paths() {
    assert_eq!(extension("src/main.rs").as_deref(), Some("rs"));
    assert_eq!(extension("archive.tar.gz").as_deref(), Some("gz"));
    assert_eq!(extension(".gitignore"), None);
    assert_eq!(extension("Makefile"), None);
    assert_eq!(extension("dir.d/file"), None);
    assert_eq!(extension("trailing."), Some(String::new()));
    assert_eq!(extension(".."), None);
}

#[test]
fn test_extract_extensions_from_tool_input() {
    let input = json::parse(r#"{"file_path": "/src/main.rs"}"#).unwrap();
    assert_eq!(
        extract_extensions_from_tool_input("Write", &input),
        vec!["rs"]
    );

    let input = json::parse(r#"{"pattern": "**/*.ts"}"#).unwrap();
    assert_eq!(
        extract_extensions_from_tool_input("Glob", &input),
        vec!["ts"]
    );
}

#[test]
fn other_tool_input_has_no_extension() {
    let input = json::parse(r#"{"file_path": "/src/main.rs", "pattern": "*.longextension"}"#)
        .unwrap();
    assert!(extract_extensions_from_tool_input("Bash", &input).is_empty());
    assert!(extract_extensions_from_tool_input("Glob", &input).is_empty());
    assert!(extract_extensions_from_tool_input("Read", &json::parse("{}").unwrap()).is_empty());
    let input = json::parse(r#"{"pattern": "src/*.py*"}"#).unwrap();
    assert_eq!(
        extract_extensions_from_tool_input("Glob", &input),
        vec!["py"]
    );
}

#[test]
fn rules_stand_in_markdown_files() {
    assert!(RulesEngine::holds_rules(&Some("md".to_string())));
    assert!(!RulesEngine::holds_rules(&Some("MD".to_string())));
    assert!(!RulesEngine::holds_rules(&Some("txt".to_string())));
    assert!(!RulesEngine::holds_rules(&None));
}
