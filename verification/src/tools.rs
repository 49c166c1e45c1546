//! The built-in tools: their metadata, the command lines they run, and how
//! a finished command becomes a tool result.
use vstd::prelude::*;
use crate::commands::{git_args, shlex, shlex_split};
use crate::text::{chars_of, dec, dec_int, i64_to_string, owned, push_all, push_char, u64_to_string, views};

verus! {

// ── metadata ─────────────────────────────────────────────────────────

/// A tool's metadata as plain values.
#[derive(Debug, Clone)]
pub struct ToolInfo {
    pub name: String,
    pub description: String,
    pub tags: Vec<String>,
    pub is_safe: bool,
    pub is_dangerous: bool,
    pub requires_approval: bool,
}

/// Mathematical model of a [`ToolInfo`].
pub struct ToolModel {
    pub name: Seq<char>,
    pub description: Seq<char>,
    pub tags: Seq<Seq<char>>,
    pub is_safe: bool,
    pub is_dangerous: bool,
    pub requires_approval: bool,
}

impl View for ToolInfo {
    type V = ToolModel;

    open spec fn view(&self) -> ToolModel {
        ToolModel {
            name: self.name@,
            description: self.description@,
            tags: views(self.tags@),
            is_safe: self.is_safe,
            is_dangerous: self.is_dangerous,
            requires_approval: self.requires_approval,
        }
    }
}

/// Builds a tool model.
pub open spec fn tool_model(
    name: Seq<char>,
    description: Seq<char>,
    tags: Seq<Seq<char>>,
    is_safe: bool,
    is_dangerous: bool,
    requires_approval: bool,
) -> ToolModel {
    ToolModel { name, description, tags, is_safe, is_dangerous, requires_approval }
}

/// Builds a [`ToolInfo`].
pub fn tool_info(
    name: &str,
    description: &str,
    tags: Vec<String>,
    is_safe: bool,
    is_dangerous: bool,
    requires_approval: bool,
) -> (r: ToolInfo)
    ensures
        r@ == tool_model(name@, description@, views(tags@), is_safe, is_dangerous, requires_approval),
{
    ToolInfo {
        name: owned(name),
        description: owned(description),
        tags,
        is_safe,
        is_dangerous,
        requires_approval,
    }
}

// ── shell ────────────────────────────────────────────────────────────

/// Whether `pattern` (a regular expression) matches somewhere in `text`,
/// as the `regex` crate decides; `None` when the pattern does not compile.
pub uninterp spec fn regex_search(pattern: Seq<char>, text: Seq<char>) -> Option<bool>;

/// `regex::Regex::new(pattern)` then `is_match(text)`. The contract claims
/// that the answer is a function of the pattern and the text, and `None`
/// exactly when compiling fails is the crate's documented behaviour; the
/// regex semantics themselves are not restated.
#[verifier::external_body]
fn regex_find(pattern: &str, text: &str) -> (r: Option<bool>)
    ensures
        r == regex_search(pattern@, text@),
{
    regex::Regex::new(pattern).ok().map(|re| re.is_match(text))
}

/// The default patterns of commands that the shell tool refuses.
pub open spec fn default_danger_patterns() -> Seq<Seq<char>> {
    seq![
        "rm\\s+-rf"@,
        "rm\\s+-r\\s+/"@,
        "git\\s+reset\\s+--hard"@,
        "git\\s+push\\s+--force"@,
        "sudo\\s+"@,
        "chmod\\s+777"@,
        ">\\s*/dev/"@,
        "mkfs\\."@,
        "dd\\s+if="@,
        ":\\(\\)\\s*\\{"@,
        ">\\s*/dev/sda"@,
        "mv\\s+/\\s+"@,
        "shutdown\\s"@,
        "reboot\\s"@,
        "init\\s+0"@,
        "init\\s+6"@,
        "poweroff"@,
    ]
}

/// Tool that runs shell commands (`/bin/sh -c`) and refuses commands that
/// match a dangerous pattern.
pub struct Shell {
    name: String,
    description: String,
    dangerous_patterns: Vec<String>,
}

impl Shell {
    #[verifier::type_invariant]
    closed spec fn inv(self) -> bool {
        self.name@ == "shell"@
    }

    /// The tool's description.
    pub closed spec fn description_view(&self) -> Seq<char> {
        self.description@
    }

    /// The patterns this shell refuses.
    pub closed spec fn patterns(&self) -> Seq<Seq<char>> {
        views(self.dangerous_patterns@)
    }

    /// Creates the shell tool with the default dangerous-command patterns.
    pub fn new() -> (r: Self)
        ensures
            r.patterns() == default_danger_patterns(),
    {
        let mut p: Vec<String> = Vec::new();
        p.push(owned("rm\\s+-rf"));
        p.push(owned("rm\\s+-r\\s+/"));
        p.push(owned("git\\s+reset\\s+--hard"));
        p.push(owned("git\\s+push\\s+--force"));
        p.push(owned("sudo\\s+"));
        p.push(owned("chmod\\s+777"));
        p.push(owned(">\\s*/dev/"));
        p.push(owned("mkfs\\."));
        p.push(owned("dd\\s+if="));
        p.push(owned(":\\(\\)\\s*\\{"));
        p.push(owned(">\\s*/dev/sda"));
        p.push(owned("mv\\s+/\\s+"));
        p.push(owned("shutdown\\s"));
        p.push(owned("reboot\\s"));
        p.push(owned("init\\s+0"));
        p.push(owned("init\\s+6"));
        p.push(owned("poweroff"));
        assert(views(p@) =~= default_danger_patterns());
        Shell {
            name: owned("shell"),
            description: owned(
                "Execute a shell command and return its stdout and stderr. Use for running terminal commands, scripts, or any system interaction.",
            ),
            dangerous_patterns: p,
        }
    }

    /// Creates the shell tool with custom patterns (regular expressions).
    pub fn with_patterns(patterns: Vec<String>) -> (r: Self)
        ensures
            r.patterns() == views(patterns@),
    {
        Shell {
            name: owned("shell"),
            description: owned("Execute a shell command and return its stdout and stderr."),
            dangerous_patterns: patterns,
        }
    }

    /// Whether `command` matches one of the dangerous patterns. A pattern
    /// that does not compile matches nothing.
    pub fn is_dangerous(&self, command: &str) -> (r: bool)
        ensures
            r == exists|i: int|
                0 <= i < self.patterns().len() && regex_search(
                    #[trigger] self.patterns()[i],
                    command@,
                ) == Some(true),
    {
        let mut i: usize = 0;
        while i < self.dangerous_patterns.len()
            invariant
                i <= self.dangerous_patterns.len(),
                self.patterns() == views(self.dangerous_patterns@),
                forall|k: int| 0 <= k < i ==> regex_search(#[trigger] self.patterns()[k], command@)
                    != Some(true),
            decreases self.dangerous_patterns.len() - i,
        {
            let m = regex_find(self.dangerous_patterns[i].as_str(), command);
            assert(self.patterns()[i as int] == self.dangerous_patterns@[i as int]@);
            match m {
                Some(true) => {
                    return true;
                },
                _ => {},
            }
            i = i + 1;
        }
        false
    }

    /// The tool's name.
    pub fn name(&self) -> (r: &str)
        ensures
            r@ == "shell"@,
    {
        proof {
            use_type_invariant(self);
        }
        self.name.as_str()
    }

    /// The tool's description.
    pub fn description(&self) -> (r: &str)
        ensures
            r@ == self.description_view(),
    {
        self.description.as_str()
    }

    /// Shell commands always need approval.
    pub fn requires_approval(&self) -> (r: bool)
        ensures
            r,
    {
        true
    }

    /// The shell is not side-effect free.
    pub fn is_safe(&self) -> (r: bool)
        ensures
            !r,
    {
        false
    }

    /// The shell tool as a whole is dangerous.
    pub fn is_dangerous_tool(&self) -> (r: bool)
        ensures
            r,
    {
        true
    }

    /// The tool's capability tags.
    pub fn capability_tags(&self) -> (r: Vec<String>)
        ensures
            views(r@) == seq!["shell"@, "system"@, "dangerous"@],
    {
        let mut v: Vec<String> = Vec::new();
        v.push(owned("shell"));
        v.push(owned("system"));
        v.push(owned("dangerous"));
        assert(views(v@) =~= seq!["shell"@, "system"@, "dangerous"@]);
        v
    }

    /// The tool's metadata as plain values.
    pub fn info(&self) -> (r: ToolInfo)
        ensures
            r@ == tool_model(
                "shell"@,
                self.description_view(),
                seq!["shell"@, "system"@, "dangerous"@],
                false,
                true,
                true,
            ),
    {
        tool_info(self.name(), self.description(), self.capability_tags(), false, true, true)
    }

    /// Error text for a refused command.
    pub fn blocked_message(command: &str) -> (r: String)
        ensures
            r@ == "Command matches dangerous pattern and was blocked: "@ + command@,
    {
        let mut s = owned("Command matches dangerous pattern and was blocked: ");
        push_all(&mut s, command);
        s
    }
}

// ── web search ───────────────────────────────────────────────────────

/// Tool that searches the web through a configurable URL template.
pub struct WebSearch {
    name: String,
    description: String,
    search_url_template: Option<String>,
}

impl WebSearch {
    #[verifier::type_invariant]
    closed spec fn inv(self) -> bool {
        self.name@ == "web_search"@ && self.description@ == "Search the web for information. Performs a web search using the configured search provider and returns results as text."@
    }

    /// The configured URL template.
    pub closed spec fn template(&self) -> Option<Seq<char>> {
        match self.search_url_template {
            Some(t) => Some(t@),
            None => None,
        }
    }

    /// Creates the tool without a search provider.
    pub fn new() -> (r: Self)
        ensures
            r.template() is None,
    {
        WebSearch {
            name: owned("web_search"),
            description: owned(
                "Search the web for information. Performs a web search using the configured search provider and returns results as text.",
            ),
            search_url_template: None,
        }
    }

    /// Creates the tool with a URL template holding `{query}`.
    pub fn with_search_url(template: String) -> (r: Self)
        ensures
            r.template() == Some(template@),
    {
        WebSearch {
            name: owned("web_search"),
            description: owned(
                "Search the web for information. Performs a web search using the configured search provider and returns results as text.",
            ),
            search_url_template: Some(template),
        }
    }

    /// The configured URL template.
    pub fn search_url_template(&self) -> (r: Option<&str>)
        ensures
            match r {
                Some(t) => self.template() == Some(t@),
                None => self.template() is None,
            },
    {
        match &self.search_url_template {
            Some(t) => Some(t.as_str()),
            None => None,
        }
    }

    /// The tool's name.
    pub fn name(&self) -> (r: &str)
        ensures
            r@ == "web_search"@,
    {
        proof {
            use_type_invariant(self);
        }
        self.name.as_str()
    }

    /// The tool's description.
    pub fn description(&self) -> (r: &str)
        ensures
            r@ == "Search the web for information. Performs a web search using the configured search provider and returns results as text."@,
    {
        proof {
            use_type_invariant(self);
        }
        self.description.as_str()
    }

    /// Web searches need no approval.
    pub fn requires_approval(&self) -> (r: bool)
        ensures
            !r,
    {
        false
    }

    /// Web searches are side-effect free.
    pub fn is_safe(&self) -> (r: bool)
        ensures
            r,
    {
        true
    }

    /// Web searches are not dangerous.
    pub fn is_dangerous(&self) -> (r: bool)
        ensures
            !r,
    {
        false
    }

    /// The tool's capability tags.
    pub fn capability_tags(&self) -> (r: Vec<String>)
        ensures
            views(r@) == seq!["web"@, "search"@, "read"@, "safe"@],
    {
        let mut v: Vec<String> = Vec::new();
        v.push(owned("web"));
        v.push(owned("search"));
        v.push(owned("read"));
        v.push(owned("safe"));
        assert(views(v@) =~= seq!["web"@, "search"@, "read"@, "safe"@]);
        v
    }

    /// The tool's metadata as plain values.
    pub fn info(&self) -> (r: ToolInfo)
        ensures
            r@ == tool_model(
                "web_search"@,
                "Search the web for information. Performs a web search using the configured search provider and returns results as text."@,
                seq!["web"@, "search"@, "read"@, "safe"@],
                true,
                false,
                false,
            ),
    {
        tool_info(self.name(), self.description(), self.capability_tags(), true, false, false)
    }
}

/// Tool that reads the contents of a file inside the sandbox.
pub struct FileRead {
    name: String,
    description: String,
}

impl FileRead {
    #[verifier::type_invariant]
    closed spec fn inv(self) -> bool {
        self.name@ == "file_read"@ && self.description@ == "Read the contents of a file at the given path. Returns the file contents as a string."@
    }

    /// Creates the tool.
    pub fn new() -> (r: Self)
        ensures
            r.info_model() == tool_model("file_read"@, "Read the contents of a file at the given path. Returns the file contents as a string."@, seq!["filesystem"@, "read"@, "safe"@], true, false, false),
    {
        FileRead { name: owned("file_read"), description: owned("Read the contents of a file at the given path. Returns the file contents as a string.") }
    }

    /// The tool's metadata.
    pub open spec fn info_model(&self) -> ToolModel {
        tool_model("file_read"@, "Read the contents of a file at the given path. Returns the file contents as a string."@, seq!["filesystem"@, "read"@, "safe"@], true, false, false)
    }

    /// The tool's name.
    pub fn name(&self) -> (r: &str)
        ensures
            r@ == "file_read"@,
    {
        proof {
            use_type_invariant(self);
        }
        self.name.as_str()
    }

    /// The tool's description.
    pub fn description(&self) -> (r: &str)
        ensures
            r@ == "Read the contents of a file at the given path. Returns the file contents as a string."@,
    {
        proof {
            use_type_invariant(self);
        }
        self.description.as_str()
    }

    /// Whether a call needs the user's approval.
    pub fn requires_approval(&self) -> (r: bool)
        ensures
            r == false,
    {
        false
    }

    /// Whether the tool is free of side effects.
    pub fn is_safe(&self) -> (r: bool)
        ensures
            r == true,
    {
        true
    }

    /// Whether the tool can change the world outside the agent.
    pub fn is_dangerous(&self) -> (r: bool)
        ensures
            r == false,
    {
        false
    }

    /// The tool's capability tags.
    pub fn capability_tags(&self) -> (r: Vec<String>)
        ensures
            views(r@) == seq!["filesystem"@, "read"@, "safe"@],
    {
        let mut v: Vec<String> = Vec::new();
        v.push(owned("filesystem"));
        v.push(owned("read"));
        v.push(owned("safe"));
        proof {
            assert(views(v@) =~= seq!["filesystem"@, "read"@, "safe"@]);
        }
        v
    }

    /// The tool's metadata as plain values.
    pub fn info(&self) -> (r: ToolInfo)
        ensures
            r@ == self.info_model(),
    {
        tool_info(self.name(), self.description(), self.capability_tags(), true, false, false)
    }
}

/// Tool that writes a file inside the sandbox.
pub struct FileWrite {
    name: String,
    description: String,
}

impl FileWrite {
    #[verifier::type_invariant]
    closed spec fn inv(self) -> bool {
        self.name@ == "file_write"@ && self.description@ == "Write content to a file at the given path. Creates parent directories if they don't exist."@
    }

    /// Creates the tool.
    pub fn new() -> (r: Self)
        ensures
            r.info_model() == tool_model("file_write"@, "Write content to a file at the given path. Creates parent directories if they don't exist."@, seq!["filesystem"@, "write"@, "dangerous"@], false, true, true),
    {
        FileWrite { name: owned("file_write"), description: owned("Write content to a file at the given path. Creates parent directories if they don't exist.") }
    }

    /// The tool's metadata.
    pub open spec fn info_model(&self) -> ToolModel {
        tool_model("file_write"@, "Write content to a file at the given path. Creates parent directories if they don't exist."@, seq!["filesystem"@, "write"@, "dangerous"@], false, true, true)
    }

    /// The tool's name.
    pub fn name(&self) -> (r: &str)
        ensures
            r@ == "file_write"@,
    {
        proof {
            use_type_invariant(self);
        }
        self.name.as_str()
    }

    /// The tool's description.
    pub fn description(&self) -> (r: &str)
        ensures
            r@ == "Write content to a file at the given path. Creates parent directories if they don't exist."@,
    {
        proof {
            use_type_invariant(self);
        }
        self.description.as_str()
    }

    /// Whether a call needs the user's approval.
    pub fn requires_approval(&self) -> (r: bool)
        ensures
            r == true,
    {
        true
    }

    /// Whether the tool is free of side effects.
    pub fn is_safe(&self) -> (r: bool)
        ensures
            r == false,
    {
        false
    }

    /// Whether the tool can change the world outside the agent.
    pub fn is_dangerous(&self) -> (r: bool)
        ensures
            r == true,
    {
        true
    }

    /// The tool's capability tags.
    pub fn capability_tags(&self) -> (r: Vec<String>)
        ensures
            views(r@) == seq!["filesystem"@, "write"@, "dangerous"@],
    {
        let mut v: Vec<String> = Vec::new();
        v.push(owned("filesystem"));
        v.push(owned("write"));
        v.push(owned("dangerous"));
        proof {
            assert(views(v@) =~= seq!["filesystem"@, "write"@, "dangerous"@]);
        }
        v
    }

    /// The tool's metadata as plain values.
    pub fn info(&self) -> (r: ToolInfo)
        ensures
            r@ == self.info_model(),
    {
        tool_info(self.name(), self.description(), self.capability_tags(), false, true, true)
    }
}

/// Tool that fetches a URL.
pub struct WebFetch {
    name: String,
    description: String,
}

impl WebFetch {
    #[verifier::type_invariant]
    closed spec fn inv(self) -> bool {
        self.name@ == "web_fetch"@ && self.description@ == "Fetch the contents of a URL via HTTP GET. Returns the raw text response body."@
    }

    /// Creates the tool.
    pub fn new() -> (r: Self)
        ensures
            r.info_model() == tool_model("web_fetch"@, "Fetch the contents of a URL via HTTP GET. Returns the raw text response body."@, seq!["web"@, "http"@, "read"@, "safe"@], true, false, false),
    {
        WebFetch { name: owned("web_fetch"), description: owned("Fetch the contents of a URL via HTTP GET. Returns the raw text response body.") }
    }

    /// The tool's metadata.
    pub open spec fn info_model(&self) -> ToolModel {
        tool_model("web_fetch"@, "Fetch the contents of a URL via HTTP GET. Returns the raw text response body."@, seq!["web"@, "http"@, "read"@, "safe"@], true, false, false)
    }

    /// The tool's name.
    pub fn name(&self) -> (r: &str)
        ensures
            r@ == "web_fetch"@,
    {
        proof {
            use_type_invariant(self);
        }
        self.name.as_str()
    }

    /// The tool's description.
    pub fn description(&self) -> (r: &str)
        ensures
            r@ == "Fetch the contents of a URL via HTTP GET. Returns the raw text response body."@,
    {
        proof {
            use_type_invariant(self);
        }
        self.description.as_str()
    }

    /// Whether a call needs the user's approval.
    pub fn requires_approval(&self) -> (r: bool)
        ensures
            r == false,
    {
        false
    }

    /// Whether the tool is free of side effects.
    pub fn is_safe(&self) -> (r: bool)
        ensures
            r == true,
    {
        true
    }

    /// Whether the tool can change the world outside the agent.
    pub fn is_dangerous(&self) -> (r: bool)
        ensures
            r == false,
    {
        false
    }

    /// The tool's capability tags.
    pub fn capability_tags(&self) -> (r: Vec<String>)
        ensures
            views(r@) == seq!["web"@, "http"@, "read"@, "safe"@],
    {
        let mut v: Vec<String> = Vec::new();
        v.push(owned("web"));
        v.push(owned("http"));
        v.push(owned("read"));
        v.push(owned("safe"));
        proof {
            assert(views(v@) =~= seq!["web"@, "http"@, "read"@, "safe"@]);
        }
        v
    }

    /// The tool's metadata as plain values.
    pub fn info(&self) -> (r: ToolInfo)
        ensures
            r@ == self.info_model(),
    {
        tool_info(self.name(), self.description(), self.capability_tags(), true, false, false)
    }
}

/// Tool that runs git commands in a repository.
pub struct Git {
    name: String,
    description: String,
}

impl Git {
    #[verifier::type_invariant]
    closed spec fn inv(self) -> bool {
        self.name@ == "git"@ && self.description@ == "Execute git commands in a repository. Use for cloning, committing, pushing, pulling, and other git operations."@
    }

    /// Creates the tool.
    pub fn new() -> (r: Self)
        ensures
            r.info_model() == tool_model("git"@, "Execute git commands in a repository. Use for cloning, committing, pushing, pulling, and other git operations."@, seq!["version-control"@, "git"@, "dangerous"@], false, true, true),
    {
        Git { name: owned("git"), description: owned("Execute git commands in a repository. Use for cloning, committing, pushing, pulling, and other git operations.") }
    }

    /// The tool's metadata.
    pub open spec fn info_model(&self) -> ToolModel {
        tool_model("git"@, "Execute git commands in a repository. Use for cloning, committing, pushing, pulling, and other git operations."@, seq!["version-control"@, "git"@, "dangerous"@], false, true, true)
    }

    /// The tool's name.
    pub fn name(&self) -> (r: &str)
        ensures
            r@ == "git"@,
    {
        proof {
            use_type_invariant(self);
        }
        self.name.as_str()
    }

    /// The tool's description.
    pub fn description(&self) -> (r: &str)
        ensures
            r@ == "Execute git commands in a repository. Use for cloning, committing, pushing, pulling, and other git operations."@,
    {
        proof {
            use_type_invariant(self);
        }
        self.description.as_str()
    }

    /// Whether a call needs the user's approval.
    pub fn requires_approval(&self) -> (r: bool)
        ensures
            r == true,
    {
        true
    }

    /// Whether the tool is free of side effects.
    pub fn is_safe(&self) -> (r: bool)
        ensures
            r == false,
    {
        false
    }

    /// Whether the tool can change the world outside the agent.
    pub fn is_dangerous(&self) -> (r: bool)
        ensures
            r == true,
    {
        true
    }

    /// The tool's capability tags.
    pub fn capability_tags(&self) -> (r: Vec<String>)
        ensures
            views(r@) == seq!["version-control"@, "git"@, "dangerous"@],
    {
        let mut v: Vec<String> = Vec::new();
        v.push(owned("version-control"));
        v.push(owned("git"));
        v.push(owned("dangerous"));
        proof {
            assert(views(v@) =~= seq!["version-control"@, "git"@, "dangerous"@]);
        }
        v
    }

    /// The tool's metadata as plain values.
    pub fn info(&self) -> (r: ToolInfo)
        ensures
            r@ == self.info_model(),
    {
        tool_info(self.name(), self.description(), self.capability_tags(), false, true, true)
    }
}

/// Tool that creates a GitHub issue.
pub struct GithubIssueCreate {
    name: String,
    description: String,
}

impl GithubIssueCreate {
    #[verifier::type_invariant]
    closed spec fn inv(self) -> bool {
        self.name@ == "github_issue_create"@ && self.description@ == "Create a GitHub issue in a repository. Requires 'gh' CLI to be installed and authenticated."@
    }

    /// Creates the tool.
    pub fn new() -> (r: Self)
        ensures
            r.info_model() == tool_model("github_issue_create"@, "Create a GitHub issue in a repository. Requires 'gh' CLI to be installed and authenticated."@, seq!["github"@, "issue"@, "write"@, "dangerous"@], false, true, true),
    {
        GithubIssueCreate { name: owned("github_issue_create"), description: owned("Create a GitHub issue in a repository. Requires 'gh' CLI to be installed and authenticated.") }
    }

    /// The tool's metadata.
    pub open spec fn info_model(&self) -> ToolModel {
        tool_model("github_issue_create"@, "Create a GitHub issue in a repository. Requires 'gh' CLI to be installed and authenticated."@, seq!["github"@, "issue"@, "write"@, "dangerous"@], false, true, true)
    }

    /// The tool's name.
    pub fn name(&self) -> (r: &str)
        ensures
            r@ == "github_issue_create"@,
    {
        proof {
            use_type_invariant(self);
        }
        self.name.as_str()
    }

    /// The tool's description.
    pub fn description(&self) -> (r: &str)
        ensures
            r@ == "Create a GitHub issue in a repository. Requires 'gh' CLI to be installed and authenticated."@,
    {
        proof {
            use_type_invariant(self);
        }
        self.description.as_str()
    }

    /// Whether a call needs the user's approval.
    pub fn requires_approval(&self) -> (r: bool)
        ensures
            r == true,
    {
        true
    }

    /// Whether the tool is free of side effects.
    pub fn is_safe(&self) -> (r: bool)
        ensures
            r == false,
    {
        false
    }

    /// Whether the tool can change the world outside the agent.
    pub fn is_dangerous(&self) -> (r: bool)
        ensures
            r == true,
    {
        true
    }

    /// The tool's capability tags.
    pub fn capability_tags(&self) -> (r: Vec<String>)
        ensures
            views(r@) == seq!["github"@, "issue"@, "write"@, "dangerous"@],
    {
        let mut v: Vec<String> = Vec::new();
        v.push(owned("github"));
        v.push(owned("issue"));
        v.push(owned("write"));
        v.push(owned("dangerous"));
        proof {
            assert(views(v@) =~= seq!["github"@, "issue"@, "write"@, "dangerous"@]);
        }
        v
    }

    /// The tool's metadata as plain values.
    pub fn info(&self) -> (r: ToolInfo)
        ensures
            r@ == self.info_model(),
    {
        tool_info(self.name(), self.description(), self.capability_tags(), false, true, true)
    }
}

/// Tool that searches GitHub issues.
pub struct GithubIssueSearch {
    name: String,
    description: String,
}

impl GithubIssueSearch {
    #[verifier::type_invariant]
    closed spec fn inv(self) -> bool {
        self.name@ == "github_issue_search"@ && self.description@ == "Search GitHub issues in a repository. Supports state filtering and text search."@
    }

    /// Creates the tool.
    pub fn new() -> (r: Self)
        ensures
            r.info_model() == tool_model("github_issue_search"@, "Search GitHub issues in a repository. Supports state filtering and text search."@, seq!["github"@, "issue"@, "read"@, "safe"@], true, false, false),
    {
        GithubIssueSearch { name: owned("github_issue_search"), description: owned("Search GitHub issues in a repository. Supports state filtering and text search.") }
    }

    /// The tool's metadata.
    pub open spec fn info_model(&self) -> ToolModel {
        tool_model("github_issue_search"@, "Search GitHub issues in a repository. Supports state filtering and text search."@, seq!["github"@, "issue"@, "read"@, "safe"@], true, false, false)
    }

    /// The tool's name.
    pub fn name(&self) -> (r: &str)
        ensures
            r@ == "github_issue_search"@,
    {
        proof {
            use_type_invariant(self);
        }
        self.name.as_str()
    }

    /// The tool's description.
    pub fn description(&self) -> (r: &str)
        ensures
            r@ == "Search GitHub issues in a repository. Supports state filtering and text search."@,
    {
        proof {
            use_type_invariant(self);
        }
        self.description.as_str()
    }

    /// Whether a call needs the user's approval.
    pub fn requires_approval(&self) -> (r: bool)
        ensures
            r == false,
    {
        false
    }

    /// Whether the tool is free of side effects.
    pub fn is_safe(&self) -> (r: bool)
        ensures
            r == true,
    {
        true
    }

    /// Whether the tool can change the world outside the agent.
    pub fn is_dangerous(&self) -> (r: bool)
        ensures
            r == false,
    {
        false
    }

    /// The tool's capability tags.
    pub fn capability_tags(&self) -> (r: Vec<String>)
        ensures
            views(r@) == seq!["github"@, "issue"@, "read"@, "safe"@],
    {
        let mut v: Vec<String> = Vec::new();
        v.push(owned("github"));
        v.push(owned("issue"));
        v.push(owned("read"));
        v.push(owned("safe"));
        proof {
            assert(views(v@) =~= seq!["github"@, "issue"@, "read"@, "safe"@]);
        }
        v
    }

    /// The tool's metadata as plain values.
    pub fn info(&self) -> (r: ToolInfo)
        ensures
            r@ == self.info_model(),
    {
        tool_info(self.name(), self.description(), self.capability_tags(), true, false, false)
    }
}

/// Tool that creates a GitHub pull request.
pub struct GithubPrCreate {
    name: String,
    description: String,
}

impl GithubPrCreate {
    #[verifier::type_invariant]
    closed spec fn inv(self) -> bool {
        self.name@ == "github_pr_create"@ && self.description@ == "Create a GitHub pull request. Requires 'gh' CLI to be installed and authenticated."@
    }

    /// Creates the tool.
    pub fn new() -> (r: Self)
        ensures
            r.info_model() == tool_model("github_pr_create"@, "Create a GitHub pull request. Requires 'gh' CLI to be installed and authenticated."@, seq!["github"@, "pr"@, "write"@, "dangerous"@], false, true, true),
    {
        GithubPrCreate { name: owned("github_pr_create"), description: owned("Create a GitHub pull request. Requires 'gh' CLI to be installed and authenticated.") }
    }

    /// The tool's metadata.
    pub open spec fn info_model(&self) -> ToolModel {
        tool_model("github_pr_create"@, "Create a GitHub pull request. Requires 'gh' CLI to be installed and authenticated."@, seq!["github"@, "pr"@, "write"@, "dangerous"@], false, true, true)
    }

    /// The tool's name.
    pub fn name(&self) -> (r: &str)
        ensures
            r@ == "github_pr_create"@,
    {
        proof {
            use_type_invariant(self);
        }
        self.name.as_str()
    }

    /// The tool's description.
    pub fn description(&self) -> (r: &str)
        ensures
            r@ == "Create a GitHub pull request. Requires 'gh' CLI to be installed and authenticated."@,
    {
        proof {
            use_type_invariant(self);
        }
        self.description.as_str()
    }

    /// Whether a call needs the user's approval.
    pub fn requires_approval(&self) -> (r: bool)
        ensures
            r == true,
    {
        true
    }

    /// Whether the tool is free of side effects.
    pub fn is_safe(&self) -> (r: bool)
        ensures
            r == false,
    {
        false
    }

    /// Whether the tool can change the world outside the agent.
    pub fn is_dangerous(&self) -> (r: bool)
        ensures
            r == true,
    {
        true
    }

    /// The tool's capability tags.
    pub fn capability_tags(&self) -> (r: Vec<String>)
        ensures
            views(r@) == seq!["github"@, "pr"@, "write"@, "dangerous"@],
    {
        let mut v: Vec<String> = Vec::new();
        v.push(owned("github"));
        v.push(owned("pr"));
        v.push(owned("write"));
        v.push(owned("dangerous"));
        proof {
            assert(views(v@) =~= seq!["github"@, "pr"@, "write"@, "dangerous"@]);
        }
        v
    }

    /// The tool's metadata as plain values.
    pub fn info(&self) -> (r: ToolInfo)
        ensures
            r@ == self.info_model(),
    {
        tool_info(self.name(), self.description(), self.capability_tags(), false, true, true)
    }
}

/// Tool that views or lists GitHub pull requests.
pub struct GithubPrStatus {
    name: String,
    description: String,
}

impl GithubPrStatus {
    #[verifier::type_invariant]
    closed spec fn inv(self) -> bool {
        self.name@ == "github_pr_status"@ && self.description@ == "View a specific pull request or list all open PRs in a repository."@
    }

    /// Creates the tool.
    pub fn new() -> (r: Self)
        ensures
            r.info_model() == tool_model("github_pr_status"@, "View a specific pull request or list all open PRs in a repository."@, seq!["github"@, "pr"@, "read"@, "safe"@], true, false, false),
    {
        GithubPrStatus { name: owned("github_pr_status"), description: owned("View a specific pull request or list all open PRs in a repository.") }
    }

    /// The tool's metadata.
    pub open spec fn info_model(&self) -> ToolModel {
        tool_model("github_pr_status"@, "View a specific pull request or list all open PRs in a repository."@, seq!["github"@, "pr"@, "read"@, "safe"@], true, false, false)
    }

    /// The tool's name.
    pub fn name(&self) -> (r: &str)
        ensures
            r@ == "github_pr_status"@,
    {
        proof {
            use_type_invariant(self);
        }
        self.name.as_str()
    }

    /// The tool's description.
    pub fn description(&self) -> (r: &str)
        ensures
            r@ == "View a specific pull request or list all open PRs in a repository."@,
    {
        proof {
            use_type_invariant(self);
        }
        self.description.as_str()
    }

    /// Whether a call needs the user's approval.
    pub fn requires_approval(&self) -> (r: bool)
        ensures
            r == false,
    {
        false
    }

    /// Whether the tool is free of side effects.
    pub fn is_safe(&self) -> (r: bool)
        ensures
            r == true,
    {
        true
    }

    /// Whether the tool can change the world outside the agent.
    pub fn is_dangerous(&self) -> (r: bool)
        ensures
            r == false,
    {
        false
    }

    /// The tool's capability tags.
    pub fn capability_tags(&self) -> (r: Vec<String>)
        ensures
            views(r@) == seq!["github"@, "pr"@, "read"@, "safe"@],
    {
        let mut v: Vec<String> = Vec::new();
        v.push(owned("github"));
        v.push(owned("pr"));
        v.push(owned("read"));
        v.push(owned("safe"));
        proof {
            assert(views(v@) =~= seq!["github"@, "pr"@, "read"@, "safe"@]);
        }
        v
    }

    /// The tool's metadata as plain values.
    pub fn info(&self) -> (r: ToolInfo)
        ensures
            r@ == self.info_model(),
    {
        tool_info(self.name(), self.description(), self.capability_tags(), true, false, false)
    }
}

/// Tool that lists recent GitHub Actions runs.
pub struct GithubActionsStatus {
    name: String,
    description: String,
}

impl GithubActionsStatus {
    #[verifier::type_invariant]
    closed spec fn inv(self) -> bool {
        self.name@ == "github_actions_status"@ && self.description@ == "Check the status of GitHub Actions workflow runs for a repository."@
    }

    /// Creates the tool.
    pub fn new() -> (r: Self)
        ensures
            r.info_model() == tool_model("github_actions_status"@, "Check the status of GitHub Actions workflow runs for a repository."@, seq!["github"@, "ci"@, "read"@, "safe"@], true, false, false),
    {
        GithubActionsStatus { name: owned("github_actions_status"), description: owned("Check the status of GitHub Actions workflow runs for a repository.") }
    }

    /// The tool's metadata.
    pub open spec fn info_model(&self) -> ToolModel {
        tool_model("github_actions_status"@, "Check the status of GitHub Actions workflow runs for a repository."@, seq!["github"@, "ci"@, "read"@, "safe"@], true, false, false)
    }

    /// The tool's name.
    pub fn name(&self) -> (r: &str)
        ensures
            r@ == "github_actions_status"@,
    {
        proof {
            use_type_invariant(self);
        }
        self.name.as_str()
    }

    /// The tool's description.
    pub fn description(&self) -> (r: &str)
        ensures
            r@ == "Check the status of GitHub Actions workflow runs for a repository."@,
    {
        proof {
            use_type_invariant(self);
        }
        self.description.as_str()
    }

    /// Whether a call needs the user's approval.
    pub fn requires_approval(&self) -> (r: bool)
        ensures
            r == false,
    {
        false
    }

    /// Whether the tool is free of side effects.
    pub fn is_safe(&self) -> (r: bool)
        ensures
            r == true,
    {
        true
    }

    /// Whether the tool can change the world outside the agent.
    pub fn is_dangerous(&self) -> (r: bool)
        ensures
            r == false,
    {
        false
    }

    /// The tool's capability tags.
    pub fn capability_tags(&self) -> (r: Vec<String>)
        ensures
            views(r@) == seq!["github"@, "ci"@, "read"@, "safe"@],
    {
        let mut v: Vec<String> = Vec::new();
        v.push(owned("github"));
        v.push(owned("ci"));
        v.push(owned("read"));
        v.push(owned("safe"));
        proof {
            assert(views(v@) =~= seq!["github"@, "ci"@, "read"@, "safe"@]);
        }
        v
    }

    /// The tool's metadata as plain values.
    pub fn info(&self) -> (r: ToolInfo)
        ensures
            r@ == self.info_model(),
    {
        tool_info(self.name(), self.description(), self.capability_tags(), true, false, false)
    }
}

/// Tool that reports kernel and memory information.
pub struct SystemInfo {
    name: String,
    description: String,
}

impl SystemInfo {
    #[verifier::type_invariant]
    closed spec fn inv(self) -> bool {
        self.name@ == "system_info"@ && self.description@ == "Get operating system information: kernel version, hostname, CPU architecture, and memory usage. Safe read-only diagnostic tool."@
    }

    /// Creates the tool.
    pub fn new() -> (r: Self)
        ensures
            r.info_model() == tool_model("system_info"@, "Get operating system information: kernel version, hostname, CPU architecture, and memory usage. Safe read-only diagnostic tool."@, seq!["diagnostic"@, "read"@, "safe"@], true, false, false),
    {
        SystemInfo { name: owned("system_info"), description: owned("Get operating system information: kernel version, hostname, CPU architecture, and memory usage. Safe read-only diagnostic tool.") }
    }

    /// The tool's metadata.
    pub open spec fn info_model(&self) -> ToolModel {
        tool_model("system_info"@, "Get operating system information: kernel version, hostname, CPU architecture, and memory usage. Safe read-only diagnostic tool."@, seq!["diagnostic"@, "read"@, "safe"@], true, false, false)
    }

    /// The tool's name.
    pub fn name(&self) -> (r: &str)
        ensures
            r@ == "system_info"@,
    {
        proof {
            use_type_invariant(self);
        }
        self.name.as_str()
    }

    /// The tool's description.
    pub fn description(&self) -> (r: &str)
        ensures
            r@ == "Get operating system information: kernel version, hostname, CPU architecture, and memory usage. Safe read-only diagnostic tool."@,
    {
        proof {
            use_type_invariant(self);
        }
        self.description.as_str()
    }

    /// Whether a call needs the user's approval.
    pub fn requires_approval(&self) -> (r: bool)
        ensures
            r == false,
    {
        false
    }

    /// Whether the tool is free of side effects.
    pub fn is_safe(&self) -> (r: bool)
        ensures
            r == true,
    {
        true
    }

    /// Whether the tool can change the world outside the agent.
    pub fn is_dangerous(&self) -> (r: bool)
        ensures
            r == false,
    {
        false
    }

    /// The tool's capability tags.
    pub fn capability_tags(&self) -> (r: Vec<String>)
        ensures
            views(r@) == seq!["diagnostic"@, "read"@, "safe"@],
    {
        let mut v: Vec<String> = Vec::new();
        v.push(owned("diagnostic"));
        v.push(owned("read"));
        v.push(owned("safe"));
        proof {
            assert(views(v@) =~= seq!["diagnostic"@, "read"@, "safe"@]);
        }
        v
    }

    /// The tool's metadata as plain values.
    pub fn info(&self) -> (r: ToolInfo)
        ensures
            r@ == self.info_model(),
    {
        tool_info(self.name(), self.description(), self.capability_tags(), true, false, false)
    }
}

/// Tool that reports disk usage (`df -h`).
pub struct DiskUsage {
    name: String,
    description: String,
}

impl DiskUsage {
    #[verifier::type_invariant]
    closed spec fn inv(self) -> bool {
        self.name@ == "disk_usage"@ && self.description@ == "Show disk usage information. Runs `df -h` optionally scoped to a path. Safe read-only diagnostic tool."@
    }

    /// Creates the tool.
    pub fn new() -> (r: Self)
        ensures
            r.info_model() == tool_model("disk_usage"@, "Show disk usage information. Runs `df -h` optionally scoped to a path. Safe read-only diagnostic tool."@, seq!["diagnostic"@, "read"@, "safe"@], true, false, false),
    {
        DiskUsage { name: owned("disk_usage"), description: owned("Show disk usage information. Runs `df -h` optionally scoped to a path. Safe read-only diagnostic tool.") }
    }

    /// The tool's metadata.
    pub open spec fn info_model(&self) -> ToolModel {
        tool_model("disk_usage"@, "Show disk usage information. Runs `df -h` optionally scoped to a path. Safe read-only diagnostic tool."@, seq!["diagnostic"@, "read"@, "safe"@], true, false, false)
    }

    /// The tool's name.
    pub fn name(&self) -> (r: &str)
        ensures
            r@ == "disk_usage"@,
    {
        proof {
            use_type_invariant(self);
        }
        self.name.as_str()
    }

    /// The tool's description.
    pub fn description(&self) -> (r: &str)
        ensures
            r@ == "Show disk usage information. Runs `df -h` optionally scoped to a path. Safe read-only diagnostic tool."@,
    {
        proof {
            use_type_invariant(self);
        }
        self.description.as_str()
    }

    /// Whether a call needs the user's approval.
    pub fn requires_approval(&self) -> (r: bool)
        ensures
            r == false,
    {
        false
    }

    /// Whether the tool is free of side effects.
    pub fn is_safe(&self) -> (r: bool)
        ensures
            r == true,
    {
        true
    }

    /// Whether the tool can change the world outside the agent.
    pub fn is_dangerous(&self) -> (r: bool)
        ensures
            r == false,
    {
        false
    }

    /// The tool's capability tags.
    pub fn capability_tags(&self) -> (r: Vec<String>)
        ensures
            views(r@) == seq!["diagnostic"@, "read"@, "safe"@],
    {
        let mut v: Vec<String> = Vec::new();
        v.push(owned("diagnostic"));
        v.push(owned("read"));
        v.push(owned("safe"));
        proof {
            assert(views(v@) =~= seq!["diagnostic"@, "read"@, "safe"@]);
        }
        v
    }

    /// The tool's metadata as plain values.
    pub fn info(&self) -> (r: ToolInfo)
        ensures
            r@ == self.info_model(),
    {
        tool_info(self.name(), self.description(), self.capability_tags(), true, false, false)
    }
}

/// Tool that extracts a value from JSON by a dot path.
pub struct JsonExtract {
    name: String,
    description: String,
}

impl JsonExtract {
    #[verifier::type_invariant]
    closed spec fn inv(self) -> bool {
        self.name@ == "json_extract"@ && self.description@ == "Extract a value from a JSON string using a dot-path query (e.g. 'users.0.name'). Supports nested objects and array indices. Safe read-only data transformation tool."@
    }

    /// Creates the tool.
    pub fn new() -> (r: Self)
        ensures
            r.info_model() == tool_model("json_extract"@, "Extract a value from a JSON string using a dot-path query (e.g. 'users.0.name'). Supports nested objects and array indices. Safe read-only data transformation tool."@, seq!["data"@, "transform"@, "safe"@], true, false, false),
    {
        JsonExtract { name: owned("json_extract"), description: owned("Extract a value from a JSON string using a dot-path query (e.g. 'users.0.name'). Supports nested objects and array indices. Safe read-only data transformation tool.") }
    }

    /// The tool's metadata.
    pub open spec fn info_model(&self) -> ToolModel {
        tool_model("json_extract"@, "Extract a value from a JSON string using a dot-path query (e.g. 'users.0.name'). Supports nested objects and array indices. Safe read-only data transformation tool."@, seq!["data"@, "transform"@, "safe"@], true, false, false)
    }

    /// The tool's name.
    pub fn name(&self) -> (r: &str)
        ensures
            r@ == "json_extract"@,
    {
        proof {
            use_type_invariant(self);
        }
        self.name.as_str()
    }

    /// The tool's description.
    pub fn description(&self) -> (r: &str)
        ensures
            r@ == "Extract a value from a JSON string using a dot-path query (e.g. 'users.0.name'). Supports nested objects and array indices. Safe read-only data transformation tool."@,
    {
        proof {
            use_type_invariant(self);
        }
        self.description.as_str()
    }

    /// Whether a call needs the user's approval.
    pub fn requires_approval(&self) -> (r: bool)
        ensures
            r == false,
    {
        false
    }

    /// Whether the tool is free of side effects.
    pub fn is_safe(&self) -> (r: bool)
        ensures
            r == true,
    {
        true
    }

    /// Whether the tool can change the world outside the agent.
    pub fn is_dangerous(&self) -> (r: bool)
        ensures
            r == false,
    {
        false
    }

    /// The tool's capability tags.
    pub fn capability_tags(&self) -> (r: Vec<String>)
        ensures
            views(r@) == seq!["data"@, "transform"@, "safe"@],
    {
        let mut v: Vec<String> = Vec::new();
        v.push(owned("data"));
        v.push(owned("transform"));
        v.push(owned("safe"));
        proof {
            assert(views(v@) =~= seq!["data"@, "transform"@, "safe"@]);
        }
        v
    }

    /// The tool's metadata as plain values.
    pub fn info(&self) -> (r: ToolInfo)
        ensures
            r@ == self.info_model(),
    {
        tool_info(self.name(), self.description(), self.capability_tags(), true, false, false)
    }
}

impl Git {
    /// Builds the git tool's argument list.
    pub fn build_args(command_str: &str) -> (r: Vec<String>)
        ensures
            views(r@) == git_args(command_str@),
    {
        let mut args: Vec<String> = Vec::new();
        args.push(owned("-c"));
        args.push(owned("color.ui=false"));
        let parts = shlex_split(command_str);
        let mut i: usize = 0;
        assert(views(args@) =~= seq!["-c"@, "color.ui=false"@] + shlex(command_str@).take(0));
        while i < parts.len()
            invariant
                i <= parts.len(),
                views(parts@) == shlex(command_str@),
                views(args@) == seq!["-c"@, "color.ui=false"@] + shlex(command_str@).take(i as int),
            decreases parts.len() - i,
        {
            let ghost before = views(args@);
            args.push(parts[i].clone());
            assert(views(args@) =~= before.push(parts@[i as int]@));
            assert(views(parts@)[i as int] == parts@[i as int]@);
            assert(shlex(command_str@).take(i + 1) =~= shlex(command_str@).take(i as int).push(
                parts@[i as int]@,
            ));
            i = i + 1;
            assert(views(args@) =~= seq!["-c"@, "color.ui=false"@] + shlex(command_str@).take(
                i as int,
            ));
        }
        assert(shlex(command_str@).take(i as int) =~= shlex(command_str@));
        args
    }
}

} // verus!
