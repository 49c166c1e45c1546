use raven::catalog::{category_description, ToolCatalog};
use raven::registry::ToolRegistry;
use raven::tools::{FileRead, FileWrite, Git, Shell, ToolInfo, WebFetch, WebSearch};
use raven::validator::{
    is_tool_allowed, DoctorCheckStatus, SchemaParams, ToolDoctor, ToolEntry, ToolSchemaInfo,
    ToolValidator,
};

fn schema_for(info: &ToolInfo, required: &[&str], props: &[&str]) -> ToolSchemaInfo {
    ToolSchemaInfo {
        function_name: info.name.clone(),
        description: info.description.clone(),
        params: SchemaParams {
            is_object: true,
            type_field: Some("object".to_string()),
            required: Some(required.iter().map(|s| Some(s.to_string())).collect()),
            properties: Some(props.iter().map(|s| s.to_string()).collect()),
        },
        params_json: format!("{:?}|{:?}", required, props),
    }
}

fn entry(info: ToolInfo, required: &[&str], props: &[&str]) -> ToolEntry {
    let schema = schema_for(&info, required, props);
    ToolEntry { info, schema }
}

fn builtin_registry() -> ToolRegistry {
    let mut registry = ToolRegistry::new();
    registry.register(entry(FileRead::new().info(), &["path"], &["path"])).unwrap();
    registry
        .register(entry(FileWrite::new().info(), &["path", "content"], &["path", "content"]))
        .unwrap();
    registry.register(entry(Shell::new().info(), &["command"], &["command", "timeout"])).unwrap();
    registry.register(entry(WebFetch::new().info(), &["url"], &["url"])).unwrap();
    registry.register(entry(WebSearch::new().info(), &["query"], &["query", "limit"])).unwrap();
    registry.register(entry(Git::new().info(), &["args"], &["args", "cwd"])).unwrap();
    registry
}

#[test]
fn test_catalog_from_registry() {
    let registry = builtin_registry();
    let catalog = ToolCatalog::from_registry(&registry);
    assert_eq!(catalog.total, 6);
    assert_eq!(catalog.by_name.len(), 6);
}

#[test]
fn test_catalog_categories() {
    let registry = builtin_registry();
    let catalog = ToolCatalog::from_registry(&registry);
    let cats = catalog.categories();
    assert!(cats.contains(&"filesystem".to_string()), "got {:?}", cats);
    assert!(cats.contains(&"shell".to_string()), "got {:?}", cats);
    assert!(cats.contains(&"web".to_string()), "got {:?}", cats);
    let mut sorted = cats.clone();
    sorted.sort();
    assert_eq!(cats, sorted);
}

#[test]
fn test_catalog_by_name() {
    let registry = builtin_registry();
    let catalog = ToolCatalog::from_registry(&registry);
    let entry = catalog.get("shell").expect("shell should be in catalog");
    assert_eq!(entry.name, "shell");
    assert!(entry.is_dangerous);
    assert!(entry.requires_approval);
    assert!(catalog.get("nope").is_none());
}

#[test]
fn test_catalog_by_category() {
    let registry = builtin_registry();
    let catalog = ToolCatalog::from_registry(&registry);
    let filesystem = catalog.by_category("filesystem").expect("should have filesystem category");
    let names: Vec<&str> = filesystem.tools.iter().map(|t| t.name.as_str()).collect();
    assert_eq!(names, vec!["file_read", "file_write"]);
    assert_eq!(filesystem.description, "File system read/write operations");
}

#[test]
fn test_catalog_by_tag() {
    let registry = builtin_registry();
    let catalog = ToolCatalog::from_registry(&registry);
    let dangerous = catalog.by_tag("dangerous");
    let names: Vec<&str> = dangerous.iter().map(|t| t.name.as_str()).collect();
    assert!(names.contains(&"shell"));
    assert!(names.contains(&"git"));
}

#[test]
fn test_catalog_safe_and_dangerous() {
    let registry = builtin_registry();
    let catalog = ToolCatalog::from_registry(&registry);
    let safe = catalog.safe_tools();
    let dangerous = catalog.dangerous_tools();
    assert!(safe.iter().any(|e| e.name == "file_read"));
    assert!(safe.iter().any(|e| e.name == "web_fetch"));
    assert!(dangerous.iter().any(|e| e.name == "shell"));
    assert!(dangerous.iter().any(|e| e.name == "git"));
}

#[test]
fn catalog_tags_are_sorted_and_unique() {
    let catalog = ToolCatalog::from_registry(&builtin_registry());
    let mut expected = catalog.all_tags.clone();
    expected.sort();
    expected.dedup();
    assert_eq!(catalog.all_tags, expected);
    assert!(catalog.all_tags.contains(&"dangerous".to_string()));
}

#[test]
fn category_descriptions() {
    assert_eq!(category_description("shell"), "Shell command execution");
    assert_eq!(category_description("media"), "Image, audio, and video tools");
    assert_eq!(category_description("weird"), "weird tools");
}

#[test]
fn registry_rejects_duplicate_names() {
    let mut registry = builtin_registry();
    let err = registry.register(entry(Shell::new().info(), &[], &[])).unwrap_err();
    assert_eq!(err, "Tool 'shell' is already registered");
    assert_eq!(registry.len(), 6);
    assert!(registry.is_registered("git"));
    assert!(registry.remove("git").is_some());
    assert!(!registry.is_registered("git"));
    assert!(registry.remove("git").is_none());
    assert_eq!(registry.len(), 5);
    assert_eq!(registry.list_schemas().len(), 5);
    assert!(!registry.is_empty());
    assert!(ToolRegistry::new().is_empty());
    assert_eq!(registry.get("shell").unwrap().info.name, "shell");
}

#[test]
fn test_enable_empty_list_means_all_enabled() {
    let enabled: Vec<String> = vec![];
    let disabled: Vec<String> = vec![];
    assert!(is_tool_allowed(&enabled, &disabled, "file_read"));
    assert!(is_tool_allowed(&enabled, &disabled, "shell"));
    assert!(is_tool_allowed(&enabled, &disabled, "custom_tool"));
}

#[test]
fn test_enable_list_restricts_tools() {
    let enabled: Vec<String> = vec!["file_read".into(), "shell".into()];
    let disabled: Vec<String> = vec![];
    assert!(is_tool_allowed(&enabled, &disabled, "file_read"));
    assert!(is_tool_allowed(&enabled, &disabled, "shell"));
    assert!(!is_tool_allowed(&enabled, &disabled, "git"));
    assert!(!is_tool_allowed(&enabled, &disabled, "web_fetch"));
}

#[test]
fn test_disabled_list_overrides_enabled() {
    let enabled: Vec<String> = vec!["file_read".into(), "shell".into(), "git".into()];
    let disabled: Vec<String> = vec!["shell".into()];
    assert!(is_tool_allowed(&enabled, &disabled, "file_read"));
    assert!(!is_tool_allowed(&enabled, &disabled, "shell"));
    assert!(is_tool_allowed(&enabled, &disabled, "git"));
}

#[test]
fn test_disabled_excludes_tool() {
    let enabled: Vec<String> = vec![];
    let disabled: Vec<String> = vec!["shell".into()];
    assert!(is_tool_allowed(&enabled, &disabled, "file_read"));
    assert!(!is_tool_allowed(&enabled, &disabled, "shell"));
    assert!(is_tool_allowed(&enabled, &disabled, "web_fetch"));
}

#[test]
fn test_schema_all_builtins_pass() {
    let registry = builtin_registry();
    for tool in registry.all_tools() {
        let report = ToolValidator::validate_schema(tool);
        assert!(report.failed.is_empty(), "{}: {:?}", report.tool_name, report.failed);
        assert!(report.passed.contains(&"schema type is 'object'".to_string()));
    }
}

#[test]
fn schema_report_flags_undocumented_fields() {
    let mut e = entry(Shell::new().info(), &["command", "cwd"], &["command"]);
    let report = ToolValidator::validate_schema(&e);
    assert_eq!(
        report.failed,
        vec!["required field 'cwd' has a corresponding property definition".to_string()]
    );
    assert!(!report.passed.contains(&"all required parameters have property definitions".to_string()));
    e.schema.params.is_object = false;
    let report = ToolValidator::validate_schema(&e);
    assert_eq!(report.failed, vec!["schema parameters are a JSON object".to_string()]);
    assert_eq!(report.score_fraction(), (2, 3));
}

#[test]
fn test_permissions_report_dangerous() {
    let report = ToolValidator::validate_permissions(&Shell::new().info());
    assert!(report.passed.iter().any(|c| c.contains("requires approval")), "{:?}", report.passed);
    assert!(report.failed.is_empty(), "{:?}", report.failed);
}

#[test]
fn test_permissions_report_safe() {
    let report = ToolValidator::validate_permissions(&WebFetch::new().info());
    assert!(report.passed.iter().any(|c| c.contains("marked safe")), "{:?}", report.passed);
    assert!(report.failed.is_empty(), "{:?}", report.failed);
}

#[test]
fn args_report() {
    let ok = ToolValidator::validate_args("shell", &Ok(()));
    assert_eq!(ok.passed, vec!["arguments pass schema validation".to_string()]);
    let bad = ToolValidator::validate_args("shell", &Err("missing command".to_string()));
    assert_eq!(
        bad.failed,
        vec!["arguments pass schema validation: missing command".to_string()]
    );
    assert_eq!(bad.score_fraction(), (0, 1));
}

#[test]
fn test_validate_all_returns_reports_for_all_tools() {
    let registry = builtin_registry();
    let tools = registry.all_tools();
    let outcomes: Vec<Result<(), String>> = tools.iter().map(|_| Ok(())).collect();
    let reports = ToolValidator::validate_all(tools, &outcomes);
    assert_eq!(reports.len(), 6);
    for (r, t) in reports.iter().zip(tools.iter()) {
        assert_eq!(r.tool_name, t.info.name);
        assert!(r.passed.contains(&"arguments pass schema validation".to_string()));
    }
}

#[test]
fn test_detect_duplicates_identical_schema() {
    let a = entry(Shell::new().info(), &["command"], &["command"]);
    let mut b = a.clone();
    b.info.name = "shell_copy".to_string();
    b.schema.function_name = "shell_copy".to_string();
    let tools = vec![a, b];
    let dups = ToolValidator::detect_duplicates(&tools);
    assert_eq!(dups.len(), 2);
    for d in &dups {
        assert_eq!(d.failed, vec!["duplicate name or schema check".to_string()]);
        assert_eq!(
            d.warnings,
            vec!["Duplicate schema: 'shell' and 'shell_copy' have identical function schemas".to_string()]
        );
    }
    let outcomes = vec![Ok(()), Ok(())];
    let merged = ToolValidator::validate_all(&tools, &outcomes);
    assert!(merged[0]
        .warnings
        .contains(&"Duplicate schema: 'shell' and 'shell_copy' have identical function schemas".to_string()));
}

#[test]
fn duplicate_names_warn_once_per_registration() {
    let a = entry(Shell::new().info(), &["command"], &["command"]);
    let mut b = entry(Git::new().info(), &["args"], &["args"]);
    b.info.name = "shell".to_string();
    let tools = vec![a, b];
    let dups = ToolValidator::detect_duplicates(&tools);
    assert_eq!(dups.len(), 1);
    assert_eq!(dups[0].tool_name, "shell");
    assert_eq!(
        dups[0].warnings,
        vec![
            "Duplicate tool name 'shell': 2 registrations found".to_string(),
            "Duplicate tool name 'shell': 2 registrations found".to_string()
        ]
    );
    let merged = ToolValidator::validate_all(&tools, &vec![Ok(()), Ok(())]);
    // the first report of the name gets the warning once
    assert_eq!(
        merged[0]
            .warnings
            .iter()
            .filter(|w| w.starts_with("Duplicate tool name"))
            .count(),
        1
    );
    assert!(!merged[1].warnings.iter().any(|w| w.starts_with("Duplicate tool name")));
}

#[test]
fn test_doctor_all_builtins_healthy() {
    let registry = builtin_registry();
    let report = ToolDoctor::check(registry.all_tools());
    assert!(report.healthy, "{:?}", report);
    assert_eq!(report.summary.total_tools, 6);
    assert_eq!(report.summary.healthy_tools, 6);
    assert_eq!(report.summary.unhealthy_tools, 0);
    assert_eq!(report.summary.failed, 0);
    assert_eq!(report.summary.total_checks, 6 * 8 + 2);
    assert_eq!(
        report.summary.passed + report.summary.failed + report.summary.warnings,
        report.summary.total_checks
    );
}

#[test]
fn test_doctor_ecosystem_checks_exist() {
    let report = ToolDoctor::check(builtin_registry().all_tools());
    assert_eq!(report.ecosystem_checks.len(), 2);
    assert_eq!(report.ecosystem_checks[0].name, "duplicate tools");
    assert_eq!(report.ecosystem_checks[0].status, DoctorCheckStatus::Pass);
    assert_eq!(report.ecosystem_checks[1].name, "tool count");
    assert_eq!(report.ecosystem_checks[1].detail.as_deref(), Some("6 tools registered"));
}

#[test]
fn test_doctor_detects_duplicates() {
    let a = entry(Shell::new().info(), &["command"], &["command"]);
    let mut b = a.clone();
    b.info.name = "shell_copy".to_string();
    b.schema.function_name = "shell_copy".to_string();
    let report = ToolDoctor::check(&vec![a, b]);
    assert!(!report.healthy);
    assert_eq!(report.ecosystem_checks[0].status, DoctorCheckStatus::Fail);
    let detail = report.ecosystem_checks[0].detail.clone().unwrap();
    assert!(detail.starts_with("2 duplicate(s) detected: "), "{}", detail);
    assert!(detail.contains("shell_copy"));
}

#[test]
fn doctor_flags_bad_schema_and_names() {
    let mut e = entry(Shell::new().info(), &["command", "x"], &["command"]);
    e.schema.function_name = "other".to_string();
    let report = ToolDoctor::check(&vec![e]);
    let checks = &report.tool_checks[0].checks;
    assert_eq!(checks.len(), 8);
    assert_eq!(checks[3].name, "required params documented");
    assert_eq!(checks[3].status, DoctorCheckStatus::Warn);
    assert_eq!(
        checks[3].detail.as_deref(),
        Some("2 required param(s) but not all have property definitions")
    );
    assert_eq!(checks[7].status, DoctorCheckStatus::Fail);
    assert_eq!(
        checks[7].detail.as_deref(),
        Some("Schema function name 'other' != tool name 'shell'")
    );
    assert_eq!(report.summary.unhealthy_tools, 1);
    assert!(!report.healthy);
}

#[test]
fn test_doctor_check_one_existing_tool() {
    let registry = builtin_registry();
    let report = ToolDoctor::check_one(registry.all_tools(), "shell").expect("shell exists");
    assert_eq!(report.tool_checks.len(), 1);
    assert_eq!(report.tool_checks[0].checks.len(), 6);
    assert!(report.healthy);
    assert_eq!(report.summary.total_checks, 6);
}

#[test]
fn test_doctor_check_one_nonexistent() {
    let registry = builtin_registry();
    assert!(ToolDoctor::check_one(registry.all_tools(), "nope").is_none());
}
