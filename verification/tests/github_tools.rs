use raven::commands::{
    build_actions_status_args, build_issue_create_args, build_issue_search_args,
    build_pr_create_args, build_pr_status_args,
};
use raven::validator::ToolSchemaInfo;
use raven::tools::{
    GithubActionsStatus, GithubIssueCreate, GithubIssueSearch, GithubPrCreate, GithubPrStatus,
};

#[test]
fn test_github_issue_create_tags() {
    let tool = GithubIssueCreate::new();
    assert!(tool.is_dangerous());
    assert!(tool.requires_approval());
    assert!(!tool.is_safe());
    assert_eq!(tool.capability_tags(), &["github", "issue", "write", "dangerous"]);
}

#[test]
fn test_github_issue_search_tags() {
    let tool = GithubIssueSearch::new();
    assert!(!tool.is_dangerous());
    assert!(!tool.requires_approval());
    assert!(tool.is_safe());
    assert_eq!(tool.capability_tags(), &["github", "issue", "read", "safe"]);
}

#[test]
fn test_github_pr_create_tags() {
    let tool = GithubPrCreate::new();
    assert!(tool.is_dangerous());
    assert!(tool.requires_approval());
    assert!(!tool.is_safe());
    assert_eq!(tool.capability_tags(), &["github", "pr", "write", "dangerous"]);
}

#[test]
fn test_github_pr_status_tags() {
    let tool = GithubPrStatus::new();
    assert!(!tool.is_dangerous());
    assert!(!tool.requires_approval());
    assert!(tool.is_safe());
    assert_eq!(tool.capability_tags(), &["github", "pr", "read", "safe"]);
}

#[test]
fn test_github_actions_status_tags() {
    let tool = GithubActionsStatus::new();
    assert!(!tool.is_dangerous());
    assert!(!tool.requires_approval());
    assert!(tool.is_safe());
    assert_eq!(tool.capability_tags(), &["github", "ci", "read", "safe"]);
}

#[test]
fn test_build_issue_create_args_minimal() {
    let args = build_issue_create_args("owner/repo", "Test Issue", None, None);
    assert_eq!(args[0], "issue");
    assert_eq!(args[1], "create");
    assert_eq!(args[3], "owner/repo");
    assert_eq!(args[5], "Test Issue");
    assert_eq!(args.len(), 6);
}

#[test]
fn test_build_issue_create_args_with_body_and_labels() {
    let args = build_issue_create_args(
        "owner/repo",
        "Test Issue",
        Some("Description here"),
        Some("bug,urgent"),
    );
    assert_eq!(args[6], "--body");
    assert_eq!(args[7], "Description here");
    assert_eq!(args[8], "--label");
    assert_eq!(args[9], "bug,urgent");
}

#[test]
fn test_build_issue_search_args_defaults() {
    let args = build_issue_search_args("owner/repo", None, None, 10);
    assert_eq!(args[0], "issue");
    assert_eq!(args[1], "list");
    assert_eq!(args[3], "owner/repo");
    assert_eq!(args[5], "10");
    assert_eq!(args.len(), 6);
}

#[test]
fn test_build_issue_search_args_with_all() {
    let args = build_issue_search_args("o/r", Some("bug"), Some("closed"), 25);
    assert_eq!(args[6], "--search");
    assert_eq!(args[7], "bug");
    assert_eq!(args[8], "-s");
    assert_eq!(args[9], "closed");
}

#[test]
fn test_build_pr_create_args_minimal() {
    let args = build_pr_create_args("owner/repo", "My PR", None, "main", "feature-branch");
    assert_eq!(args[0], "pr");
    assert_eq!(args[1], "create");
    assert_eq!(args[3], "owner/repo");
    assert_eq!(args[5], "My PR");
    assert_eq!(args[7], "main");
    assert_eq!(args[9], "feature-branch");
    assert_eq!(args.len(), 10);
}

#[test]
fn test_build_pr_create_args_with_body() {
    let args = build_pr_create_args("o/r", "My PR", Some("Desc"), "develop", "fix");
    assert_eq!(args[10], "--body");
    assert_eq!(args[11], "Desc");
}

#[test]
fn test_build_pr_status_args_with_number() {
    let args = build_pr_status_args("owner/repo", Some(42));
    assert_eq!(args[0], "pr");
    assert_eq!(args[1], "view");
    assert_eq!(args[2], "42");
    assert_eq!(args[4], "owner/repo");
    assert!(args.contains(&"--json".into()));
}

#[test]
fn test_build_pr_status_args_without_number() {
    let args = build_pr_status_args("owner/repo", None);
    assert_eq!(args[0], "pr");
    assert_eq!(args[1], "list");
    assert_eq!(args[3], "owner/repo");
    assert_eq!(args[5], "10");
}

#[test]
fn test_build_actions_status_args_minimal() {
    let args = build_actions_status_args("owner/repo", None);
    assert_eq!(args[0], "run");
    assert_eq!(args[1], "list");
    assert_eq!(args[3], "owner/repo");
    assert_eq!(args[5], "5");
    assert_eq!(args.len(), 6);
}

#[test]
fn test_build_actions_status_args_with_workflow() {
    let args = build_actions_status_args("owner/repo", Some("ci.yml"));
    assert_eq!(args[6], "--workflow");
    assert_eq!(args[7], "ci.yml");
}

#[test]
fn issue_state_is_normalised() {
    let args = build_issue_search_args("o/r", None, Some("CLOSED"), 3);
    assert_eq!(args, vec!["issue", "list", "-R", "o/r", "-L", "3", "-s", "closed"]);
    let args = build_issue_search_args("o/r", None, Some("Open"), 3);
    assert_eq!(args[7], "open");
    let args = build_issue_search_args("o/r", None, Some("merged"), 3);
    assert_eq!(args[7], "open");
}

#[test]
fn github_tool_names() {
    assert_eq!(GithubIssueCreate::new().name(), "github_issue_create");
    assert_eq!(GithubIssueSearch::new().name(), "github_issue_search");
    assert_eq!(GithubPrCreate::new().name(), "github_pr_create");
    assert_eq!(GithubPrStatus::new().name(), "github_pr_status");
    assert_eq!(GithubActionsStatus::new().name(), "github_actions_status");
    assert!(GithubPrStatus::new().description().contains("pull request"));
}

fn has_property(schema: &ToolSchemaInfo, key: &str) -> bool {
    schema.params.properties.as_ref().unwrap().iter().any(|k| k == key)
}

fn is_required(schema: &ToolSchemaInfo, key: &str) -> bool {
    schema.params.required.as_ref().unwrap().contains(&Some(key.to_string()))
}

#[test]
fn test_github_issue_create_schema() {
    let tool = GithubIssueCreate::new();
    assert_eq!(tool.name(), "github_issue_create");
    let schema = tool.schema();
    assert!(has_property(&schema, "repo"));
    assert!(has_property(&schema, "title"));
    assert!(is_required(&schema, "repo"));
    assert!(is_required(&schema, "title"));
}

#[test]
fn test_github_issue_search_schema() {
    let tool = GithubIssueSearch::new();
    assert_eq!(tool.name(), "github_issue_search");
    let schema = tool.schema();
    assert!(has_property(&schema, "repo"));
    assert!(has_property(&schema, "query"));
    assert!(is_required(&schema, "repo"));
}

#[test]
fn test_github_pr_create_schema() {
    let tool = GithubPrCreate::new();
    assert_eq!(tool.name(), "github_pr_create");
    let schema = tool.schema();
    assert!(has_property(&schema, "repo"));
    assert!(has_property(&schema, "title"));
    assert!(has_property(&schema, "head"));
    assert!(is_required(&schema, "head"));
}

#[test]
fn test_github_pr_status_schema() {
    let tool = GithubPrStatus::new();
    assert_eq!(tool.name(), "github_pr_status");
    let schema = tool.schema();
    assert!(has_property(&schema, "repo"));
    assert!(has_property(&schema, "pr_number"));
    assert!(is_required(&schema, "repo"));
}

#[test]
fn test_github_actions_status_schema() {
    let tool = GithubActionsStatus::new();
    assert_eq!(tool.name(), "github_actions_status");
    let schema = tool.schema();
    assert!(has_property(&schema, "repo"));
    assert!(has_property(&schema, "workflow"));
    assert!(is_required(&schema, "repo"));
}

#[test]
fn schema_text_is_compact_with_sorted_keys() {
    let schema = GithubPrStatus::make_schema("prs");
    assert_eq!(schema.function_name, "prs");
    assert_eq!(schema.description, "View details of a specific PR or list open PRs for a repository.");
    assert!(schema.params_json.starts_with("{\"properties\":{\"pr_number\":{"));
    assert!(schema.params_json.ends_with("\"required\":[\"repo\"],\"type\":\"object\"}"));
    assert_eq!(schema.params.type_field.as_deref(), Some("object"));
}
