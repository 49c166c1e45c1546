use raven::registry::{builtin_registry, ToolRegistry};
use raven::tools::{
    tool_info, DiskUsage, FileRead, FileWrite, Git, JsonExtract, Shell, SystemInfo, ToolInfo, WebFetch, WebSearch,
};
use raven::validator::{SchemaParams, ToolDoctor, ToolEntry, ToolSchemaInfo, ToolValidator};

fn entry(info: ToolInfo, required: &[&str], props: &[&str]) -> ToolEntry {
    let schema = ToolSchemaInfo {
        function_name: info.name.clone(),
        description: info.description.clone(),
        params: SchemaParams {
            is_object: true,
            type_field: Some("object".to_string()),
            required: Some(required.iter().map(|s| Some(s.to_string())).collect()),
            properties: Some(props.iter().map(|s| s.to_string()).collect()),
        },
        params_json: format!("{:?}|{:?}", required, props),
    };
    ToolEntry { info, schema }
}

fn builtin_entries() -> Vec<ToolEntry> {
    vec![
        ToolEntry { info: FileRead::new().info(), schema: FileRead::new().schema() },
        ToolEntry { info: FileWrite::new().info(), schema: FileWrite::new().schema() },
        ToolEntry { info: Shell::new().info(), schema: Shell::new().schema() },
        ToolEntry { info: Git::new().info(), schema: Git::new().schema() },
        ToolEntry { info: WebFetch::new().info(), schema: WebFetch::new().schema() },
        ToolEntry { info: WebSearch::new().info(), schema: WebSearch::new().schema() },
        ToolEntry { info: SystemInfo::new().info(), schema: SystemInfo::new().schema() },
        ToolEntry { info: DiskUsage::new().info(), schema: DiskUsage::new().schema() },
        ToolEntry { info: JsonExtract::new().info(), schema: JsonExtract::new().schema() },
    ]
}

fn registry() -> ToolRegistry {
    builtin_registry(builtin_entries(), None).unwrap()
}

#[test]
fn test_schema_each_tool_basics() {
    for tool in builtin_entries() {
        let report = ToolValidator::validate_schema(&tool);
        assert!(!tool.info.name.is_empty(), "tool name should be non-empty");
        assert!(!tool.info.description.is_empty(), "tool '{}' description should be non-empty", tool.info.name);
        assert!(tool.schema.params.is_object, "tool '{}' parameters should be a JSON object", tool.info.name);
        if let Some(required) = &tool.schema.params.required {
            for req in required {
                let field = req.clone().unwrap_or_default();
                assert!(!field.is_empty(), "tool '{}' has empty required field entry", tool.info.name);
                let has_prop = tool.schema.params.properties.as_ref().map(|p| p.contains(&field)).unwrap_or(false);
                assert!(has_prop, "tool '{}' required field '{}' has no property definition", tool.info.name, field);
            }
        }
        assert!(report.failed.is_empty(), "tool '{}' has schema failures: {:?}", tool.info.name, report.failed);
    }
}

#[test]
fn test_args_valid_for_each_tool() {
    for name in ["file_read", "file_write", "shell", "web_fetch", "web_search", "git"] {
        let report = ToolValidator::validate_args(name, &Ok(()));
        assert!(report.failed.is_empty(), "tool '{}' arg validation failed: {:?}", name, report.failed);
    }
}

#[test]
fn test_args_missing_required_fails() {
    for (name, field) in
        [("file_read", "path"), ("shell", "command"), ("web_fetch", "url"), ("web_search", "query"), ("git", "command")]
    {
        let outcome: Result<(), String> = Err(format!("missing field `{}`", field));
        let report = ToolValidator::validate_args(name, &outcome);
        assert!(!report.failed.is_empty(), "tool '{}' should have failed with empty args", name);
    }
}

#[test]
fn test_dangerous_tools_require_approval() {
    for info in [Shell::new().info(), Git::new().info()] {
        assert!(info.tags.contains(&"dangerous".to_string()), "tool '{}' should be tagged dangerous", info.name);
        assert!(info.requires_approval, "tool '{}' requires_approval() should be true", info.name);
    }
    assert!(FileWrite::new().info().tags.contains(&"dangerous".to_string()));
    assert!(!FileRead::new().info().tags.contains(&"dangerous".to_string()));
}

#[test]
fn test_safe_tools_marked_safe() {
    for info in [FileRead::new().info(), WebFetch::new().info(), WebSearch::new().info()] {
        assert!(info.tags.contains(&"safe".to_string()), "tool '{}' should be tagged safe", info.name);
        assert!(info.is_safe, "tool '{}' is_safe() should be true", info.name);
    }
}

#[test]
fn test_capability_tags_present_and_non_empty() {
    let tools = [
        FileRead::new().info(),
        FileWrite::new().info(),
        Shell::new().info(),
        WebFetch::new().info(),
        WebSearch::new().info(),
        Git::new().info(),
    ];
    let expected: [&[&str]; 6] = [
        &["filesystem", "read", "safe"],
        &["filesystem", "write", "dangerous"],
        &["shell", "system", "dangerous"],
        &["web", "http", "read", "safe"],
        &["web", "search", "read", "safe"],
        &["version-control", "git", "dangerous"],
    ];
    for (tool, tags) in tools.iter().zip(expected.iter()) {
        assert!(!tool.tags.is_empty(), "tool '{}' should have non-empty capability tags", tool.name);
        assert_eq!(tool.tags, *tags, "tool '{}' capability tags mismatch", tool.name);
    }
}

#[test]
fn diagnostic_and_data_tools_metadata() {
    let s = SystemInfo::new().info();
    assert_eq!(s.name, "system_info");
    assert_eq!(s.tags, vec!["diagnostic", "read", "safe"]);
    assert!(s.is_safe && !s.is_dangerous && !s.requires_approval);
    let d = DiskUsage::new().info();
    assert_eq!(d.name, "disk_usage");
    assert_eq!(d.tags, vec!["diagnostic", "read", "safe"]);
    let j = JsonExtract::new().info();
    assert_eq!(j.name, "json_extract");
    assert_eq!(j.tags, vec!["data", "transform", "safe"]);
}

fn dup_tool(name: &str) -> ToolEntry {
    let info = tool_info(name, "Shared description", vec!["test".to_string()], true, false, false);
    let mut e = entry(info, &[], &[]);
    e.schema.params_json = "{\"properties\":{},\"type\":\"object\"}".to_string();
    e
}

#[test]
fn test_validate_all_merges_dup_warnings() {
    let mut registry = ToolRegistry::new();
    registry.register(dup_tool("tool_x")).unwrap();
    registry.register(dup_tool("tool_y")).unwrap();
    let tools = registry.all_tools();
    let outcomes: Vec<Result<(), String>> = tools.iter().map(|_| Ok(())).collect();
    let reports = ToolValidator::validate_all(tools, &outcomes);
    assert_eq!(reports.len(), 2);
    for r in &reports {
        assert!(
            r.warnings.iter().any(|w| w.contains("Duplicate schema")),
            "validate_all report for '{}' should contain duplicate warning: {:?}",
            r.tool_name,
            r.warnings
        );
    }
}

#[test]
fn test_validate_all_no_duplicate_tools() {
    let registry = registry();
    let tools = registry.all_tools();
    let outcomes: Vec<Result<(), String>> = tools.iter().map(|_| Ok(())).collect();
    let reports = ToolValidator::validate_all(tools, &outcomes);
    let names: Vec<&str> = reports.iter().map(|r| r.tool_name.as_str()).collect();
    let mut sorted = names.clone();
    sorted.sort();
    sorted.dedup();
    assert_eq!(names.len(), sorted.len(), "duplicate tool names in reports");
}

#[test]
fn test_enabled_count_returns_len() {
    let all: Vec<String> = builtin_entries().iter().map(|e| e.info.name.clone()).collect();
    let registry = registry();
    let enabled = builtin_registry(builtin_entries(), Some(all.as_slice())).unwrap();
    assert_eq!(enabled.len(), registry.len());
    assert_eq!(registry.len(), 9);
}

#[test]
fn builtin_registry_filters_and_rejects_duplicates() {
    let only = vec!["shell".to_string(), "git".to_string(), "nope".to_string()];
    let registry = builtin_registry(builtin_entries(), Some(only.as_slice())).unwrap();
    let names: Vec<String> = registry.all_tools().iter().map(|t| t.info.name.clone()).collect();
    assert_eq!(names, vec!["shell".to_string(), "git".to_string()]);
    let mut twice = builtin_entries();
    twice.push(entry(Shell::new().info(), &[], &[]));
    let err = builtin_registry(twice, None).err().unwrap();
    assert_eq!(err, "Tool 'shell' is already registered");
    let none: Vec<String> = vec![];
    assert!(builtin_registry(builtin_entries(), Some(none.as_slice())).unwrap().is_empty());
}

#[test]
fn test_doctor_each_tool_has_checks() {
    let registry = registry();
    let report = ToolDoctor::check(registry.all_tools());
    for tc in &report.tool_checks {
        assert!(!tc.checks.is_empty(), "tool '{}' should have doctor checks", tc.tool_name);
        assert!(tc.checks.len() >= 6, "tool '{}' has {} checks, expected at least 6", tc.tool_name, tc.checks.len());
    }
}

#[test]
fn test_doctor_summary_counts_match() {
    let registry = registry();
    let report = ToolDoctor::check(registry.all_tools());
    let summary = &report.summary;
    assert!(summary.passed > 0, "should have passed checks");
    assert!(summary.total_checks > 0, "should have total checks");
    assert_eq!(summary.passed + summary.failed + summary.warnings, summary.total_checks);
    assert_eq!(summary.healthy_tools + summary.unhealthy_tools, summary.total_tools);
    assert_eq!(summary.total_tools, 9);
    assert!(report.healthy);
}
