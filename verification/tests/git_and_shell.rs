use raven::commands::{combine_output, command_outcome, shlex_split, urlencoding, CommandKind};
use raven::tools::{DiskUsage, FileRead, FileWrite, Git, JsonExtract, Shell, SystemInfo, WebFetch, WebSearch};

#[test]
fn test_shlex_split() {
    assert_eq!(shlex_split("status"), vec!["status"]);
    assert_eq!(shlex_split("log --oneline -5"), vec!["log", "--oneline", "-5"]);
    assert_eq!(shlex_split("commit -m 'my message'"), vec!["commit", "-m", "my message"]);
    assert_eq!(
        shlex_split("add \"file name with spaces.txt\""),
        vec!["add", "file name with spaces.txt"]
    );
}

#[test]
fn test_build_args() {
    let args = Git::build_args("status");
    assert_eq!(args[0], "-c");
    assert_eq!(args[1], "color.ui=false");
    assert_eq!(args[2], "status");

    let args = Git::build_args("log --oneline -5");
    assert_eq!(args[2], "log");
    assert_eq!(args[3], "--oneline");
    assert_eq!(args[4], "-5");
}

#[test]
fn shlex_escapes_and_empty_input() {
    assert!(shlex_split("").is_empty());
    assert!(shlex_split("   \t ").is_empty());
    assert_eq!(shlex_split("a\\ b c"), vec!["a b", "c"]);
    assert_eq!(shlex_split("\"a\\\"b\""), vec!["a\"b"]);
    assert_eq!(shlex_split("'a\\b'"), vec!["a\\b"]);
    assert_eq!(shlex_split("''"), Vec::<String>::new());
}

#[test]
fn test_is_dangerous() {
    let shell = Shell::new();
    assert!(shell.is_dangerous("rm -rf /"));
    assert!(shell.is_dangerous("sudo rm -rf /"));
    assert!(shell.is_dangerous("git push --force origin main"));
    assert!(!shell.is_dangerous("ls -la"));
    assert!(!shell.is_dangerous("echo hello"));
    assert!(!shell.is_dangerous("cat /etc/hostname"));
}

#[test]
fn custom_and_invalid_patterns() {
    let shell = Shell::with_patterns(vec!["^deploy".to_string(), "(".to_string()]);
    assert!(shell.is_dangerous("deploy now"));
    assert!(!shell.is_dangerous("echo deploy"));
    assert_eq!(
        Shell::blocked_message("rm -rf /"),
        "Command matches dangerous pattern and was blocked: rm -rf /"
    );
}

#[test]
fn test_urlencoding() {
    assert_eq!(urlencoding("hello world"), "hello%20world");
    assert_eq!(urlencoding("foo/bar"), "foo%2Fbar");
    assert_eq!(urlencoding("a b c"), "a%20b%20c");
    assert_eq!(urlencoding("simple"), "simple");
    assert_eq!(urlencoding(""), "");
    assert_eq!(urlencoding("é~"), "%C3%A9~");
}

#[test]
fn outputs_are_combined() {
    assert_eq!(combine_output("out", ""), "out");
    assert_eq!(combine_output("", "err"), "STDERR:\nerr");
    assert_eq!(combine_output("out", "err"), "out\nSTDERR:\nerr");
    let ok = command_outcome(CommandKind::Shell, true, Some(0), "hi", "");
    assert!(ok.success && ok.error.is_none() && ok.output == "hi");
    let bad = command_outcome(CommandKind::Shell, false, None, "", "boom");
    assert_eq!(bad.error.unwrap(), "Exit code: -1");
    let git = command_outcome(CommandKind::Git, false, Some(128), "", "fatal");
    assert_eq!(git.error.unwrap(), "Git -c failed (exit 128): fatal");
    let gh = command_outcome(CommandKind::Github, false, Some(1), "", "no auth");
    assert_eq!(gh.error.unwrap(), "gh command failed (exit 1): no auth");
}

#[test]
fn builtin_tool_metadata() {
    let shell = Shell::new();
    assert_eq!(shell.name(), "shell");
    assert!(shell.requires_approval() && !shell.is_safe() && shell.is_dangerous_tool());
    assert_eq!(shell.capability_tags(), &["shell", "system", "dangerous"]);
    assert_eq!(Git::new().capability_tags(), &["version-control", "git", "dangerous"]);
    assert!(Git::new().requires_approval());
    assert_eq!(WebFetch::new().capability_tags(), &["web", "http", "read", "safe"]);
    assert!(WebFetch::new().is_safe());
    let search = WebSearch::new();
    assert_eq!(search.capability_tags(), &["web", "search", "read", "safe"]);
    assert!(search.search_url_template().is_none());
    let custom = WebSearch::with_search_url("https://s.example/?q={query}".to_string());
    assert_eq!(custom.search_url_template(), Some("https://s.example/?q={query}"));
    assert_eq!(FileRead::new().capability_tags(), &["filesystem", "read", "safe"]);
    assert_eq!(FileWrite::new().capability_tags(), &["filesystem", "write", "dangerous"]);
    assert!(FileWrite::new().requires_approval());
    assert_eq!(SystemInfo::new().capability_tags(), &["diagnostic", "read", "safe"]);
    assert_eq!(DiskUsage::new().name(), "disk_usage");
    assert_eq!(JsonExtract::new().capability_tags(), &["data", "transform", "safe"]);
    let info = JsonExtract::new().info();
    assert_eq!(info.name, "json_extract");
    assert!(info.is_safe && !info.is_dangerous && !info.requires_approval);
}

#[test]
fn splitting_follows_blanks_quotes_and_escapes() {
    assert_eq!(shlex_split("log  --oneline\t-n 3 "), vec!["log", "--oneline", "-n", "3"]);
    assert_eq!(shlex_split("'a \"b\\ c'"), vec!["a \"b\\ c"]);
    assert_eq!(shlex_split("\\ "), vec![" "]);
    assert_eq!(shlex_split("\\'"), vec!["'"]);
    assert_eq!(shlex_split("''"), Vec::<String>::new());
}
