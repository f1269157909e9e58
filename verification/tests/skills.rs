use openclaudia::skills::{
    get_skill, load_skills_uncached, named_skill, skill_dirs, skill_from, skill_source,
    split_skill_file, DirMtime, SkillDefinition, SkillHead, SkillSource, SkillsCache,
};

/// The skill in a file: what the library cuts out, its head read as YAML.
fn parse_skill(content: &str, path: &str, fallback: Option<&str>) -> Option<SkillDefinition> {
    let (head, body) = split_skill_file(content)?;
    let head: serde_yaml::Value = serde_yaml::from_str(&head).ok()?;
    let text = |key: &str| head.get(key).and_then(|v| v.as_str()).map(str::to_string);
    let allowed_tools = head.get("allowed_tools").and_then(|v| v.as_sequence()).map(|list| {
        list.iter()
            .filter_map(|v| v.as_str())
            .map(str::to_string)
            .collect()
    });
    let head = SkillHead {
        name: text("name").unwrap_or_default(),
        description: text("description")?,
        allowed_tools,
    };
    Some(named_skill(
        skill_from(head, body, path.to_string()),
        fallback,
    ))
}

#[test]
fn test_parse_skill_file() {
    let content = "---\nname: test-skill\ndescription: A test skill\n---\n\nYou are a test agent.";
    let skill = parse_skill(content, "test_skill.md", None).unwrap();
    assert_eq!(skill.name, "test-skill");
    assert_eq!(skill.description, "A test skill");
    assert_eq!(skill.prompt, "You are a test agent.");
    assert_eq!(skill.path, "test_skill.md");
}

#[test]
fn test_parse_skill_no_frontmatter() {
    assert!(parse_skill("Just plain text", "no_fm.md", None).is_none());
    assert!(split_skill_file("---\nname: x\n").is_none());
}

#[test]
fn test_parse_skill_with_tools() {
    let content = "---\nname: coder\ndescription: Codes stuff\nallowed_tools:\n  - bash\n  - edit_file\n---\n\nWrite code.";
    let skill = parse_skill(content, "tools_skill.md", None).unwrap();
    assert_eq!(
        skill.allowed_tools,
        Some(vec!["bash".to_string(), "edit_file".to_string()])
    );
}

#[test]
fn parse_skill_file_returns_none_on_bad_yaml() {
    // The head is there but the YAML in it is invalid.
    let content = "---\nname: [unterminated\n---\n\nbody";
    assert!(split_skill_file(content).is_some());
    assert!(
        parse_skill(content, "bad.md", None).is_none(),
        "bad YAML must yield None"
    );
}

#[test]
fn nameless_skills_are_named_after_their_file() {
    let content = "---\ndescription: d\n---\nbody";
    assert_eq!(
        parse_skill(content, "p", Some("fallback")).unwrap().name,
        "fallback"
    );
    assert_eq!(parse_skill(content, "p", None).unwrap().name, "unknown");
}

#[test]
fn load_skills_uncached_dedupes_project_first() {
    let project = vec![parse_skill(
        "---\nname: dup\ndescription: from project\n---\nproject body",
        "project/dup.md",
        None,
    )
    .unwrap()];
    let user = vec![
        parse_skill(
            "---\nname: dup\ndescription: from user\n---\nuser body",
            "user/dup.md",
            None,
        )
        .unwrap(),
        parse_skill(
            "---\nname: solo\ndescription: only in user\n---\nsolo body",
            "user/solo.md",
            None,
        )
        .unwrap(),
    ];
    let skills = load_skills_uncached(project.into_iter().chain(user).collect());

    let dup = skills
        .iter()
        .find(|s| s.name == "dup")
        .expect("dup present");
    assert_eq!(
        dup.description, "from project",
        "project skill must win on name collision"
    );
    assert!(
        skills.iter().any(|s| s.name == "solo"),
        "user-only skill must still load"
    );
    assert_eq!(skills.len(), 2);
    assert_eq!(get_skill(&skills, "solo").unwrap().prompt, "solo body");
    assert!(get_skill(&skills, "none").is_none());
}

fn mtimes(at: Option<i128>) -> Vec<DirMtime> {
    vec![DirMtime {
        dir: "skills".to_string(),
        mtime: at,
    }]
}

/// A cached list is found again until a directory changes.
#[test]
fn load_skills_populates_and_reuses_cache() {
    let mut cache = SkillsCache::new();
    assert!(cache.lookup(&mtimes(Some(1))).is_none());
    let skill = parse_skill("---\nname: a\ndescription: b\n---\nc", "p", None).unwrap();
    cache.store(mtimes(Some(1)), vec![skill]);
    assert_eq!(cache.lookup(&mtimes(Some(1))).map(Vec::len), Some(1));
    assert!(cache.lookup(&mtimes(Some(2))).is_none());
    assert!(cache.lookup(&mtimes(None)).is_none());
    assert!(cache.lookup(&Vec::new()).is_none());
    cache.invalidate_cache();
    assert!(cache.lookup(&mtimes(Some(1))).is_none());
}

#[test]
fn skills_are_looked_for_in_two_directories() {
    assert_eq!(skill_dirs(None), vec![".openclaudia/skills"]);
    assert_eq!(
        skill_dirs(Some("/home/user")),
        vec![".openclaudia/skills", "/home/user/.openclaudia/skills"]
    );
    assert_eq!(skill_source(true, true, None), SkillSource::Nested);
    assert_eq!(skill_source(true, false, Some("md")), SkillSource::Nowhere);
    assert_eq!(skill_source(false, false, Some("md")), SkillSource::Direct);
    assert_eq!(skill_source(false, true, Some("txt")), SkillSource::Nowhere);
    assert_eq!(skill_source(false, false, None), SkillSource::Nowhere);
}
