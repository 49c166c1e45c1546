use raven::dry_run::{DryRunConfig, DryRunTool};
use raven::sandbox::{PathBoundary, Sandbox, SandboxError};
use raven::tools::Shell;

#[test]
fn test_dry_run_config_defaults() {
    let config = DryRunConfig::default();
    assert!(config.validate_args);
    assert!(config.mock_success);
    assert!(config.mock_output.contains("DRY RUN"));
    assert_eq!(config.mock_duration_ms, 0);
    assert!(config.mock_error.is_none());
}

#[test]
fn test_dry_run_shell_safe_command() {
    let dry_run = DryRunTool::new(Shell::new().info());
    let result = dry_run.execute(&Ok(()), "call-1".to_string()).unwrap();
    assert!(result.success);
    assert!(result.output.contains("DRY RUN"));
    assert_eq!(result.duration_ms, 0);
    assert_eq!(result.tool_name, "shell");
    assert_eq!(result.call_id, "call-1");
    assert!(dry_run.is_safe());
    assert!(!dry_run.is_dangerous());
    assert!(!dry_run.requires_approval());
    assert_eq!(dry_run.capability_tags(), vec!["dry-run".to_string(), "safe".to_string()]);
}

#[test]
fn test_dry_run_validation_failure() {
    let dry_run = DryRunTool::new(Shell::new().info());
    let err = dry_run
        .execute(&Err("Missing required field 'command'".to_string()), "c".to_string())
        .unwrap_err();
    assert_eq!(
        err,
        "[DRY RUN] Argument validation failed for tool 'shell': Missing required field 'command'"
    );
}

#[test]
fn test_dry_run_custom_config() {
    let config = DryRunConfig {
        validate_args: false,
        mock_output: "custom mock output".into(),
        mock_duration_ms: 42,
        mock_success: true,
        mock_error: None,
    };
    let dry_run = DryRunTool::with_config(Shell::new().info(), config);
    // arguments are not checked
    let result = dry_run.execute(&Err("bad".to_string()), "c".to_string()).unwrap();
    assert!(result.success);
    assert_eq!(result.output, "custom mock output");
    assert_eq!(result.duration_ms, 42);
}

#[test]
fn test_dry_run_simulated_failure() {
    let config = DryRunConfig {
        mock_success: false,
        mock_error: Some("Simulated network error".into()),
        ..Default::default()
    };
    let dry_run = DryRunTool::with_config(Shell::new().info(), config);
    let result = dry_run.execute(&Ok(()), "c".to_string()).unwrap();
    assert!(!result.success);
    assert_eq!(result.error.as_deref(), Some("Simulated network error"));
    assert_eq!(result.output, "");
    let config = DryRunConfig { mock_success: false, ..Default::default() };
    let dry_run = DryRunTool::with_config(Shell::new().info(), config);
    let result = dry_run.execute(&Ok(()), "c".to_string()).unwrap();
    assert_eq!(result.error.as_deref(), Some("[DRY RUN] Simulated failure"));
}

#[test]
fn test_dry_run_forwards_trait_methods() {
    let shell = Shell::new();
    let dry_run = DryRunTool::new(shell.info());
    assert_eq!(dry_run.name(), shell.name());
    assert_eq!(dry_run.description(), shell.description());
    assert_eq!(dry_run.info().tags, vec!["dry-run".to_string(), "safe".to_string()]);
    assert_eq!(dry_run.inner_tool().name, "shell");
}

fn sandbox(read: &[&str], write: &[&str], denied: &[&str]) -> Sandbox {
    Sandbox::new(PathBoundary {
        allowed_read: read.iter().map(|s| s.to_string()).collect(),
        allowed_write: write.iter().map(|s| s.to_string()).collect(),
        denied: denied.iter().map(|s| s.to_string()).collect(),
    })
}

#[test]
fn test_write_denied_outside_boundary() {
    let sb = sandbox(&["/tmp"], &["/tmp"], &[]);
    let result = sb.check_allowed("/etc/passwd", true, None);
    assert_eq!(
        result,
        Err(SandboxError::PermissionDenied(
            "Path '/etc/passwd' is not within allowed write boundaries".to_string()
        ))
    );
}

#[test]
fn test_denied_path() {
    let sb = sandbox(&["/"], &["/tmp"], &["/etc/shadow"]);
    let result = sb.check_allowed("/etc/shadow", false, None);
    match result {
        Err(SandboxError::PermissionDenied(m)) => {
            assert!(m.contains("denied"));
            assert_eq!(m, "Path '/etc/shadow' is denied by rule '/etc/shadow'");
        }
        other => panic!("expected a denial, got {:?}", other),
    }
}

#[test]
fn test_read_allowed_in_temp() {
    let sb = sandbox(&["/tmp/work"], &["/tmp/work"], &[]);
    assert_eq!(sb.check_allowed("/tmp/work/test.txt", false, None), Ok("/tmp/work/test.txt".to_string()));
    assert_eq!(sb.check_allowed("/tmp/work/new_file.txt", true, None), Ok("/tmp/work/new_file.txt".to_string()));
    assert!(sb.check_allowed("/tmp/other", false, None).is_err());
}

#[test]
fn relative_entries_follow_the_working_directory() {
    let sb = sandbox(&["data"], &[], &[]);
    assert!(sb.check_allowed("/home/u/data/x", false, Some("/home/u")).is_ok());
    assert!(sb.check_allowed("/home/u/data/x", false, Some("/home/u/")).is_ok());
    assert!(sb.check_allowed("/home/v/data/x", false, Some("/home/u")).is_err());
    assert_eq!(
        sb.check_allowed("/home/u/data", true, Some("/home/u")),
        Err(SandboxError::PermissionDenied(
            "Path '/home/u/data' is not within allowed write boundaries".to_string()
        ))
    );
    assert_eq!(sb.boundary().allowed_read, vec!["data".to_string()]);
}

#[test]
fn test_nonexistent_path_write() {
    let dir = "/tmp/raven-sandbox-test-4f1c";
    let new_file = format!("{}/new_file.txt", dir);
    let sb = sandbox(&[dir], &[dir], &[]);
    let result = sb.check_allowed(&new_file, true, None);
    assert!(result.is_ok(), "{:?}", result.err());
    assert_eq!(result.unwrap(), new_file);
}
