use raven::skills::{MarkdownParts, Skill, SkillFrontmatter, SkillRegistry};

fn skill(name: &str, required: &[&str], recommended: &[&str], enabled: bool) -> Skill {
    Skill {
        name: name.into(),
        description: "".into(),
        content: "".into(),
        required_tools: required.iter().map(|s| s.to_string()).collect(),
        recommended_tools: recommended.iter().map(|s| s.to_string()).collect(),
        enabled,
        source_path: None,
    }
}

#[test]
fn test_registry_get_and_register() {
    let mut registry = SkillRegistry::new();

    let skill = Skill {
        name: "my-skill".into(),
        description: "Test".into(),
        content: "body".into(),
        required_tools: vec![],
        recommended_tools: vec![],
        enabled: true,
        source_path: None,
    };

    registry.register(skill);
    assert!(registry.has("my-skill"));
    assert_eq!(registry.len(), 1);

    let loaded = registry.get("my-skill").unwrap();
    assert_eq!(loaded.name, "my-skill");
}

#[test]
fn test_registry_enabled_filter() {
    let mut registry = SkillRegistry::new();
    registry.register(skill("enabled-skill", &[], &[], true));
    registry.register(skill("disabled-skill", &[], &[], false));

    assert_eq!(registry.all().len(), 2);
    assert_eq!(registry.enabled().len(), 1);
    assert_eq!(registry.enabled()[0].name, "enabled-skill");
}

#[test]
fn skill_test_registry_remove() {
    let mut registry = SkillRegistry::new();
    registry.register(skill("temp", &[], &[], true));

    assert!(registry.has("temp"));
    let removed = registry.remove("temp");
    assert!(removed.is_some());
    assert!(!registry.has("temp"));
    assert!(registry.is_empty());
}

#[test]
fn test_tools_for_skill() {
    let mut registry = SkillRegistry::new();
    registry.register(skill("analyze", &["file_read", "shell"], &["git"], true));

    let tools = registry.tools_for_skill("analyze").unwrap();
    assert_eq!(tools.skill_name, "analyze");
    assert_eq!(tools.required, vec!["file_read", "shell"]);
    assert_eq!(tools.recommended, vec!["git"]);

    assert!(registry.tools_for_skill("nonexistent").is_none());
}

#[test]
fn test_validate_tools_missing_required() {
    let mut registry = SkillRegistry::new();
    registry.register(skill("needs-shell", &["shell", "missing_tool"], &[], true));

    let available = vec!["shell".to_string(), "file_read".to_string()];
    let results = registry.validate_tools(&available);
    assert_eq!(results.len(), 1);
    assert_eq!(results[0].skill_name, "needs-shell");
    assert_eq!(results[0].missing_required, vec!["missing_tool"]);
    assert!(!results[0].has_errors);
}

#[test]
fn test_validate_tools_all_required_missing() {
    let mut registry = SkillRegistry::new();
    registry.register(skill("broken", &["nonexistent"], &[], true));

    let available = vec!["shell".to_string()];
    let results = registry.validate_tools(&available);
    assert_eq!(results.len(), 1);
    assert!(results[0].has_errors);
}

#[test]
fn test_validate_tools_missing_recommended_only() {
    let mut registry = SkillRegistry::new();
    registry.register(skill("ok", &["shell"], &["nice_to_have"], true));

    let available = vec!["shell".to_string()];
    let results = registry.validate_tools(&available);
    assert_eq!(results.len(), 1);
    assert_eq!(results[0].missing_recommended, vec!["nice_to_have"]);
    assert!(!results[0].has_errors);
}

#[test]
fn test_validate_tools_no_issues() {
    let mut registry = SkillRegistry::new();
    registry.register(skill("good", &["shell"], &["git"], true));

    let available = vec!["shell".to_string(), "git".to_string()];
    let results = registry.validate_tools(&available);
    assert!(results.is_empty());
}

#[test]
fn register_replaces_a_skill_of_the_same_name() {
    let mut registry = SkillRegistry::new();
    registry.register(skill("a", &["x"], &[], true));
    registry.register(skill("a", &["y"], &[], false));
    assert_eq!(registry.len(), 1);
    assert_eq!(registry.get("a").unwrap().required_tools, vec!["y"]);
    assert!(registry.remove("missing").is_none());
    assert_eq!(registry.skills_dir(), None);
    let with_dir = SkillRegistry::with_dir("/skills".to_string());
    assert_eq!(with_dir.skills_dir(), Some("/skills"));
}

#[test]
fn frontmatter_is_split_from_the_body() {
    let md = "---\nname: code-review\ndescription: Review\n---\n\n## Steps\n";
    match raven::skills::split_frontmatter(md) {
        MarkdownParts::Frontmatter { frontmatter, body } => {
            assert_eq!(frontmatter, "\nname: code-review\ndescription: Review");
            assert_eq!(body, "## Steps");
        }
        other => panic!("unexpected {:?}", other),
    }
    match raven::skills::split_frontmatter("  # Just content\n") {
        MarkdownParts::Plain { content } => assert_eq!(content, "# Just content"),
        other => panic!("unexpected {:?}", other),
    }
    match raven::skills::split_frontmatter("---\nno closing line") {
        MarkdownParts::Plain { content } => assert_eq!(content, "---\nno closing line"),
        other => panic!("unexpected {:?}", other),
    }
}

#[test]
fn skills_are_built_from_their_parts() {
    let fm = SkillFrontmatter {
        name: "deploy".into(),
        description: "Deploy".into(),
        required_tools: vec!["shell".into()],
        recommended_tools: vec![],
        enabled: true,
    };
    let s = Skill::from_frontmatter(fm.clone(), "body".into(), None).unwrap();
    assert_eq!(s.name, "deploy");
    assert_eq!(s.content, "body");
    let unnamed = SkillFrontmatter { name: String::new(), ..fm };
    assert_eq!(
        Skill::from_frontmatter(unnamed, "b".into(), None).unwrap_err(),
        "Skill frontmatter must specify a 'name'"
    );
    let plain = Skill::from_plain("text".into(), Some("dir/my-skill.md".into()));
    assert_eq!(plain.name, "my-skill");
    assert!(plain.enabled);
    assert_eq!(Skill::from_plain("t".into(), None).name, "unnamed");
    assert_eq!(s.frame_markdown("name: deploy\n"), "---\nname: deploy\n---\nbody");
}

fn parse_frontmatter(yaml: &str) -> SkillFrontmatter {
    let v: serde_yaml::Value = serde_yaml::from_str(yaml).unwrap();
    let text = |k: &str| v.get(k).and_then(|x| x.as_str()).unwrap_or("").to_string();
    let list = |k: &str| -> Vec<String> {
        v.get(k)
            .and_then(|x| x.as_sequence())
            .map(|s| s.iter().filter_map(|x| x.as_str().map(|t| t.to_string())).collect())
            .unwrap_or_default()
    };
    SkillFrontmatter {
        name: text("name"),
        description: text("description"),
        required_tools: list("required_tools"),
        recommended_tools: list("recommended_tools"),
        enabled: v.get("enabled").and_then(|x| x.as_bool()).unwrap_or(true),
    }
}

fn from_markdown(md: &str, source_path: Option<String>) -> Skill {
    match raven::skills::split_frontmatter(md) {
        MarkdownParts::Frontmatter { frontmatter, body } => {
            Skill::from_frontmatter(parse_frontmatter(&frontmatter), body, source_path).unwrap()
        },
        MarkdownParts::Plain { content } => Skill::from_plain(content, source_path),
    }
}

#[test]
fn test_skill_from_markdown_with_frontmatter() {
    let md = r#"---
name: code-review
description: Perform a thorough code review
required_tools:
  - file_read
  - git
enabled: true
---

## Steps

1. Read the diff
2. Check for bugs
3. Verify tests pass
"#;
    let skill = from_markdown(md, None);
    assert_eq!(skill.name, "code-review");
    assert_eq!(skill.description, "Perform a thorough code review");
    assert_eq!(skill.required_tools, vec!["file_read", "git"]);
    assert!(skill.recommended_tools.is_empty());
    assert!(skill.enabled);
    assert!(skill.content.contains("## Steps"));
    assert!(skill.content.starts_with("## Steps"));
}

#[test]
fn test_skill_from_markdown_without_frontmatter() {
    let md = "# Just content\n\nNo frontmatter here.";
    let skill = from_markdown(md, Some("my-skill.md".to_string()));
    assert_eq!(skill.name, "my-skill");
    assert_eq!(skill.description, "");
    assert!(skill.content.contains("Just content"));
    let unnamed = from_markdown("  body only  ", None);
    assert_eq!(unnamed.name, "unnamed");
    assert_eq!(unnamed.content, "body only");
}

#[test]
fn test_skill_round_trip() {
    let skill = Skill {
        name: "test".into(),
        description: "A test skill".into(),
        content: "# Body\n\nDo the thing.".into(),
        required_tools: vec!["shell".into()],
        recommended_tools: vec!["git".into()],
        enabled: true,
        source_path: None,
    };
    let fm = skill.frontmatter();
    let yaml = format!(
        "name: {}\ndescription: {}\nrequired_tools:\n- {}\nrecommended_tools:\n- {}\nenabled: {}\n",
        fm.name, fm.description, fm.required_tools[0], fm.recommended_tools[0], fm.enabled
    );
    let md = skill.frame_markdown(&yaml);
    let parsed = from_markdown(&md, None);
    assert_eq!(parsed.name, "test");
    assert_eq!(parsed.description, "A test skill");
    assert_eq!(parsed.required_tools, vec!["shell"]);
    assert!(parsed.content.contains("Do the thing."));
}

#[test]
fn test_recommended_tools_in_frontmatter() {
    let md = r#"---
name: deploy
description: Deploy to production
required_tools:
  - shell
  - git
recommended_tools:
  - github_pr_status
  - system_info
enabled: true
---

## Steps
1. Check status
2. Deploy
"#;
    let skill = from_markdown(md, None);
    assert_eq!(skill.required_tools, vec!["shell", "git"]);
    assert_eq!(skill.recommended_tools, vec!["github_pr_status", "system_info"]);
}

#[test]
fn frontmatter_without_name_is_refused() {
    let fm = parse_frontmatter("description: nameless\n");
    let err = Skill::from_frontmatter(fm, "body".into(), None).unwrap_err();
    assert_eq!(err, "Skill frontmatter must specify a 'name'");
}

#[test]
fn framed_markdown_splits_back_into_its_parts() {
    let mut s = skill("writer", &[], &[], true);
    s.content = "Do the thing.\n\n".into();
    let md = s.frame_markdown("name: writer\nenabled: true\n");
    assert_eq!(md, "---\nname: writer\nenabled: true\n---\nDo the thing.\n\n");
    match raven::skills::split_frontmatter(&md) {
        MarkdownParts::Frontmatter { frontmatter, body } => {
            assert_eq!(frontmatter, "\nname: writer\nenabled: true");
            assert_eq!(body, "Do the thing.");
        }
        MarkdownParts::Plain { .. } => panic!("frontmatter expected"),
    }
    s.content = "  \n".into();
    let md = s.frame_markdown("name: writer\n");
    match raven::skills::split_frontmatter(&md) {
        MarkdownParts::Frontmatter { frontmatter, body } => {
            assert_eq!(frontmatter, "\nname: writer");
            assert_eq!(body, "");
        }
        MarkdownParts::Plain { .. } => panic!("frontmatter expected"),
    }
}
