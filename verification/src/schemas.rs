//! The function schemas the built-in tools present to a model: each
//! tool's function name, the description the model reads, and its
//! parameters as the checks see them, beside the canonical JSON text of
//! those parameters (compact, keys in order).
use vstd::prelude::*;
use crate::text::{owned, views};
use crate::tools::{
    DiskUsage, FileRead, FileWrite, Git, GithubActionsStatus, GithubIssueCreate, GithubIssueSearch,
    GithubPrCreate, GithubPrStatus, JsonExtract, Shell, SystemInfo, WebFetch, WebSearch,
};
use crate::validator::{opt_views, ParamsModel, SchemaParams, ToolSchemaInfo};

verus! {

/// The parameters of an object schema with these required fields and
/// these property names.
pub open spec fn object_params(required: Seq<Seq<char>>, properties: Seq<Seq<char>>) -> ParamsModel {
    ParamsModel {
        is_object: true,
        type_field: Some("object"@),
        required: Some(required.map_values(|f: Seq<char>| Some(f))),
        properties: Some(properties),
    }
}

/// A schema's parts as the checks see them.
pub open spec fn schema_is(
    r: ToolSchemaInfo,
    name: Seq<char>,
    description: Seq<char>,
    params: ParamsModel,
    json: Seq<char>,
) -> bool {
    &&& r.function_name@ == name
    &&& r.description@ == description
    &&& r.params@ == params
    &&& r.params_json@ == json
}

impl FileRead {
    /// The function schema under `name`.
    pub fn make_schema(name: &str) -> (r: ToolSchemaInfo)
        ensures
            schema_is(
                r,
                name@,
                "Read the contents of a file at the given path."@,
                object_params(seq!["path"@], seq!["path"@]),
                "{\"properties\":{\"path\":{\"description\":\"Absolute or relative path to the file to read\",\"type\":\"string\"}},\"required\":[\"path\"],\"type\":\"object\"}"@,
            ),
    {
        let mut required: Vec<Option<String>> = Vec::new();
        required.push(Some(owned("path")));
        let mut properties: Vec<String> = Vec::new();
        properties.push(owned("path"));
        proof {
            assert(opt_views(required@) =~= seq!["path"@].map_values(|f: Seq<char>| Some(f)));
            assert(views(properties@) =~= seq!["path"@]);
        }
        ToolSchemaInfo {
            function_name: owned(name),
            description: owned("Read the contents of a file at the given path."),
            params: SchemaParams {
                is_object: true,
                type_field: Some(owned("object")),
                required: Some(required),
                properties: Some(properties),
            },
            params_json: owned("{\"properties\":{\"path\":{\"description\":\"Absolute or relative path to the file to read\",\"type\":\"string\"}},\"required\":[\"path\"],\"type\":\"object\"}"),
        }
    }

    /// The tool's function schema, under the tool's name.
    pub fn schema(&self) -> (r: ToolSchemaInfo)
        ensures
            schema_is(
                r,
                "file_read"@,
                "Read the contents of a file at the given path."@,
                object_params(seq!["path"@], seq!["path"@]),
                "{\"properties\":{\"path\":{\"description\":\"Absolute or relative path to the file to read\",\"type\":\"string\"}},\"required\":[\"path\"],\"type\":\"object\"}"@,
            ),
    {
        Self::make_schema(self.name())
    }
}

impl FileWrite {
    /// The function schema under `name`.
    pub fn make_schema(name: &str) -> (r: ToolSchemaInfo)
        ensures
            schema_is(
                r,
                name@,
                "Write content to a file at the given path."@,
                object_params(seq!["path"@, "content"@], seq!["content"@, "path"@]),
                "{\"properties\":{\"content\":{\"description\":\"Content to write to the file\",\"type\":\"string\"},\"path\":{\"description\":\"Absolute or relative path to the file to write\",\"type\":\"string\"}},\"required\":[\"path\",\"content\"],\"type\":\"object\"}"@,
            ),
    {
        let mut required: Vec<Option<String>> = Vec::new();
        required.push(Some(owned("path")));
        required.push(Some(owned("content")));
        let mut properties: Vec<String> = Vec::new();
        properties.push(owned("content"));
        properties.push(owned("path"));
        proof {
            assert(opt_views(required@) =~= seq!["path"@, "content"@].map_values(|f: Seq<char>| Some(f)));
            assert(views(properties@) =~= seq!["content"@, "path"@]);
        }
        ToolSchemaInfo {
            function_name: owned(name),
            description: owned("Write content to a file at the given path."),
            params: SchemaParams {
                is_object: true,
                type_field: Some(owned("object")),
                required: Some(required),
                properties: Some(properties),
            },
            params_json: owned("{\"properties\":{\"content\":{\"description\":\"Content to write to the file\",\"type\":\"string\"},\"path\":{\"description\":\"Absolute or relative path to the file to write\",\"type\":\"string\"}},\"required\":[\"path\",\"content\"],\"type\":\"object\"}"),
        }
    }

    /// The tool's function schema, under the tool's name.
    pub fn schema(&self) -> (r: ToolSchemaInfo)
        ensures
            schema_is(
                r,
                "file_write"@,
                "Write content to a file at the given path."@,
                object_params(seq!["path"@, "content"@], seq!["content"@, "path"@]),
                "{\"properties\":{\"content\":{\"description\":\"Content to write to the file\",\"type\":\"string\"},\"path\":{\"description\":\"Absolute or relative path to the file to write\",\"type\":\"string\"}},\"required\":[\"path\",\"content\"],\"type\":\"object\"}"@,
            ),
    {
        Self::make_schema(self.name())
    }
}

impl Shell {
    /// The function schema under `name`.
    pub fn make_schema(name: &str) -> (r: ToolSchemaInfo)
        ensures
            schema_is(
                r,
                name@,
                "Execute a shell command."@,
                object_params(seq!["command"@], seq!["command"@, "timeout_secs"@, "workdir"@]),
                "{\"properties\":{\"command\":{\"description\":\"Shell command to execute (passed to /bin/sh -c)\",\"type\":\"string\"},\"timeout_secs\":{\"default\":60,\"description\":\"Timeout in seconds (optional, defaults to 60)\",\"type\":\"integer\"},\"workdir\":{\"description\":\"Working directory for the command (optional, defaults to agent working dir)\",\"type\":\"string\"}},\"required\":[\"command\"],\"type\":\"object\"}"@,
            ),
    {
        let mut required: Vec<Option<String>> = Vec::new();
        required.push(Some(owned("command")));
        let mut properties: Vec<String> = Vec::new();
        properties.push(owned("command"));
        properties.push(owned("timeout_secs"));
        properties.push(owned("workdir"));
        proof {
            assert(opt_views(required@) =~= seq!["command"@].map_values(|f: Seq<char>| Some(f)));
            assert(views(properties@) =~= seq!["command"@, "timeout_secs"@, "workdir"@]);
        }
        ToolSchemaInfo {
            function_name: owned(name),
            description: owned("Execute a shell command."),
            params: SchemaParams {
                is_object: true,
                type_field: Some(owned("object")),
                required: Some(required),
                properties: Some(properties),
            },
            params_json: owned("{\"properties\":{\"command\":{\"description\":\"Shell command to execute (passed to /bin/sh -c)\",\"type\":\"string\"},\"timeout_secs\":{\"default\":60,\"description\":\"Timeout in seconds (optional, defaults to 60)\",\"type\":\"integer\"},\"workdir\":{\"description\":\"Working directory for the command (optional, defaults to agent working dir)\",\"type\":\"string\"}},\"required\":[\"command\"],\"type\":\"object\"}"),
        }
    }

    /// The tool's function schema, under the tool's name.
    pub fn schema(&self) -> (r: ToolSchemaInfo)
        ensures
            schema_is(
                r,
                "shell"@,
                "Execute a shell command."@,
                object_params(seq!["command"@], seq!["command"@, "timeout_secs"@, "workdir"@]),
                "{\"properties\":{\"command\":{\"description\":\"Shell command to execute (passed to /bin/sh -c)\",\"type\":\"string\"},\"timeout_secs\":{\"default\":60,\"description\":\"Timeout in seconds (optional, defaults to 60)\",\"type\":\"integer\"},\"workdir\":{\"description\":\"Working directory for the command (optional, defaults to agent working dir)\",\"type\":\"string\"}},\"required\":[\"command\"],\"type\":\"object\"}"@,
            ),
    {
        Self::make_schema(self.name())
    }
}

impl Git {
    /// The function schema under `name`.
    pub fn make_schema(name: &str) -> (r: ToolSchemaInfo)
        ensures
            schema_is(
                r,
                name@,
                "Execute a git command in a repository."@,
                object_params(seq!["command"@], seq!["command"@, "repo_path"@, "timeout_secs"@]),
                "{\"properties\":{\"command\":{\"description\":\"Git command and arguments (e.g., 'status', 'log --oneline -5', 'add .')\",\"type\":\"string\"},\"repo_path\":{\"description\":\"Path to the git repository (optional, defaults to agent working directory)\",\"type\":\"string\"},\"timeout_secs\":{\"default\":120,\"description\":\"Timeout in seconds (optional, defaults to 120)\",\"type\":\"integer\"}},\"required\":[\"command\"],\"type\":\"object\"}"@,
            ),
    {
        let mut required: Vec<Option<String>> = Vec::new();
        required.push(Some(owned("command")));
        let mut properties: Vec<String> = Vec::new();
        properties.push(owned("command"));
        properties.push(owned("repo_path"));
        properties.push(owned("timeout_secs"));
        proof {
            assert(opt_views(required@) =~= seq!["command"@].map_values(|f: Seq<char>| Some(f)));
            assert(views(properties@) =~= seq!["command"@, "repo_path"@, "timeout_secs"@]);
        }
        ToolSchemaInfo {
            function_name: owned(name),
            description: owned("Execute a git command in a repository."),
            params: SchemaParams {
                is_object: true,
                type_field: Some(owned("object")),
                required: Some(required),
                properties: Some(properties),
            },
            params_json: owned("{\"properties\":{\"command\":{\"description\":\"Git command and arguments (e.g., 'status', 'log --oneline -5', 'add .')\",\"type\":\"string\"},\"repo_path\":{\"description\":\"Path to the git repository (optional, defaults to agent working directory)\",\"type\":\"string\"},\"timeout_secs\":{\"default\":120,\"description\":\"Timeout in seconds (optional, defaults to 120)\",\"type\":\"integer\"}},\"required\":[\"command\"],\"type\":\"object\"}"),
        }
    }

    /// The tool's function schema, under the tool's name.
    pub fn schema(&self) -> (r: ToolSchemaInfo)
        ensures
            schema_is(
                r,
                "git"@,
                "Execute a git command in a repository."@,
                object_params(seq!["command"@], seq!["command"@, "repo_path"@, "timeout_secs"@]),
                "{\"properties\":{\"command\":{\"description\":\"Git command and arguments (e.g., 'status', 'log --oneline -5', 'add .')\",\"type\":\"string\"},\"repo_path\":{\"description\":\"Path to the git repository (optional, defaults to agent working directory)\",\"type\":\"string\"},\"timeout_secs\":{\"default\":120,\"description\":\"Timeout in seconds (optional, defaults to 120)\",\"type\":\"integer\"}},\"required\":[\"command\"],\"type\":\"object\"}"@,
            ),
    {
        Self::make_schema(self.name())
    }
}

impl WebFetch {
    /// The function schema under `name`.
    pub fn make_schema(name: &str) -> (r: ToolSchemaInfo)
        ensures
            schema_is(
                r,
                name@,
                "Fetch the content of a URL."@,
                object_params(seq!["url"@], seq!["url"@]),
                "{\"properties\":{\"url\":{\"description\":\"The URL to fetch (must start with http:// or https://)\",\"type\":\"string\"}},\"required\":[\"url\"],\"type\":\"object\"}"@,
            ),
    {
        let mut required: Vec<Option<String>> = Vec::new();
        required.push(Some(owned("url")));
        let mut properties: Vec<String> = Vec::new();
        properties.push(owned("url"));
        proof {
            assert(opt_views(required@) =~= seq!["url"@].map_values(|f: Seq<char>| Some(f)));
            assert(views(properties@) =~= seq!["url"@]);
        }
        ToolSchemaInfo {
            function_name: owned(name),
            description: owned("Fetch the content of a URL."),
            params: SchemaParams {
                is_object: true,
                type_field: Some(owned("object")),
                required: Some(required),
                properties: Some(properties),
            },
            params_json: owned("{\"properties\":{\"url\":{\"description\":\"The URL to fetch (must start with http:// or https://)\",\"type\":\"string\"}},\"required\":[\"url\"],\"type\":\"object\"}"),
        }
    }

    /// The tool's function schema, under the tool's name.
    pub fn schema(&self) -> (r: ToolSchemaInfo)
        ensures
            schema_is(
                r,
                "web_fetch"@,
                "Fetch the content of a URL."@,
                object_params(seq!["url"@], seq!["url"@]),
                "{\"properties\":{\"url\":{\"description\":\"The URL to fetch (must start with http:// or https://)\",\"type\":\"string\"}},\"required\":[\"url\"],\"type\":\"object\"}"@,
            ),
    {
        Self::make_schema(self.name())
    }
}

impl WebSearch {
    /// The function schema under `name`.
    pub fn make_schema(name: &str) -> (r: ToolSchemaInfo)
        ensures
            schema_is(
                r,
                name@,
                "Search the web for information."@,
                object_params(seq!["query"@], seq!["max_results"@, "query"@]),
                "{\"properties\":{\"max_results\":{\"default\":5,\"description\":\"Maximum number of results to return (optional, default: 5)\",\"type\":\"integer\"},\"query\":{\"description\":\"The search query\",\"type\":\"string\"}},\"required\":[\"query\"],\"type\":\"object\"}"@,
            ),
    {
        let mut required: Vec<Option<String>> = Vec::new();
        required.push(Some(owned("query")));
        let mut properties: Vec<String> = Vec::new();
        properties.push(owned("max_results"));
        properties.push(owned("query"));
        proof {
            assert(opt_views(required@) =~= seq!["query"@].map_values(|f: Seq<char>| Some(f)));
            assert(views(properties@) =~= seq!["max_results"@, "query"@]);
        }
        ToolSchemaInfo {
            function_name: owned(name),
            description: owned("Search the web for information."),
            params: SchemaParams {
                is_object: true,
                type_field: Some(owned("object")),
                required: Some(required),
                properties: Some(properties),
            },
            params_json: owned("{\"properties\":{\"max_results\":{\"default\":5,\"description\":\"Maximum number of results to return (optional, default: 5)\",\"type\":\"integer\"},\"query\":{\"description\":\"The search query\",\"type\":\"string\"}},\"required\":[\"query\"],\"type\":\"object\"}"),
        }
    }

    /// The tool's function schema, under the tool's name.
    pub fn schema(&self) -> (r: ToolSchemaInfo)
        ensures
            schema_is(
                r,
                "web_search"@,
                "Search the web for information."@,
                object_params(seq!["query"@], seq!["max_results"@, "query"@]),
                "{\"properties\":{\"max_results\":{\"default\":5,\"description\":\"Maximum number of results to return (optional, default: 5)\",\"type\":\"integer\"},\"query\":{\"description\":\"The search query\",\"type\":\"string\"}},\"required\":[\"query\"],\"type\":\"object\"}"@,
            ),
    {
        Self::make_schema(self.name())
    }
}

impl SystemInfo {
    /// The function schema under `name`.
    pub fn make_schema(name: &str) -> (r: ToolSchemaInfo)
        ensures
            schema_is(
                r,
                name@,
                "Get OS information (uname + memory)."@,
                object_params(seq![], seq![]),
                "{\"properties\":{},\"required\":[],\"type\":\"object\"}"@,
            ),
    {
        let mut required: Vec<Option<String>> = Vec::new();
        let mut properties: Vec<String> = Vec::new();
        proof {
            assert(opt_views(required@) =~= seq![].map_values(|f: Seq<char>| Some(f)));
            assert(views(properties@) =~= seq![]);
        }
        ToolSchemaInfo {
            function_name: owned(name),
            description: owned("Get OS information (uname + memory)."),
            params: SchemaParams {
                is_object: true,
                type_field: Some(owned("object")),
                required: Some(required),
                properties: Some(properties),
            },
            params_json: owned("{\"properties\":{},\"required\":[],\"type\":\"object\"}"),
        }
    }

    /// The tool's function schema, under the tool's name.
    pub fn schema(&self) -> (r: ToolSchemaInfo)
        ensures
            schema_is(
                r,
                "system_info"@,
                "Get OS information (uname + memory)."@,
                object_params(seq![], seq![]),
                "{\"properties\":{},\"required\":[],\"type\":\"object\"}"@,
            ),
    {
        Self::make_schema(self.name())
    }
}

impl DiskUsage {
    /// The function schema under `name`.
    pub fn make_schema(name: &str) -> (r: ToolSchemaInfo)
        ensures
            schema_is(
                r,
                name@,
                "Show disk usage (df -h)."@,
                object_params(seq![], seq!["path"@]),
                "{\"properties\":{\"path\":{\"description\":\"Optional path to check disk usage for (default: all filesystems)\",\"type\":\"string\"}},\"required\":[],\"type\":\"object\"}"@,
            ),
    {
        let mut required: Vec<Option<String>> = Vec::new();
        let mut properties: Vec<String> = Vec::new();
        properties.push(owned("path"));
        proof {
            assert(opt_views(required@) =~= seq![].map_values(|f: Seq<char>| Some(f)));
            assert(views(properties@) =~= seq!["path"@]);
        }
        ToolSchemaInfo {
            function_name: owned(name),
            description: owned("Show disk usage (df -h)."),
            params: SchemaParams {
                is_object: true,
                type_field: Some(owned("object")),
                required: Some(required),
                properties: Some(properties),
            },
            params_json: owned("{\"properties\":{\"path\":{\"description\":\"Optional path to check disk usage for (default: all filesystems)\",\"type\":\"string\"}},\"required\":[],\"type\":\"object\"}"),
        }
    }

    /// The tool's function schema, under the tool's name.
    pub fn schema(&self) -> (r: ToolSchemaInfo)
        ensures
            schema_is(
                r,
                "disk_usage"@,
                "Show disk usage (df -h)."@,
                object_params(seq![], seq!["path"@]),
                "{\"properties\":{\"path\":{\"description\":\"Optional path to check disk usage for (default: all filesystems)\",\"type\":\"string\"}},\"required\":[],\"type\":\"object\"}"@,
            ),
    {
        Self::make_schema(self.name())
    }
}

impl JsonExtract {
    /// The function schema under `name`.
    pub fn make_schema(name: &str) -> (r: ToolSchemaInfo)
        ensures
            schema_is(
                r,
                name@,
                "Extract a value from JSON using dot-path query."@,
                object_params(seq!["input"@, "query"@], seq!["input"@, "query"@]),
                "{\"properties\":{\"input\":{\"description\":\"The JSON string to extract from\",\"type\":\"string\"},\"query\":{\"description\":\"Dot-path query like 'users.0.name' or 'data.metadata.author'\",\"type\":\"string\"}},\"required\":[\"input\",\"query\"],\"type\":\"object\"}"@,
            ),
    {
        let mut required: Vec<Option<String>> = Vec::new();
        required.push(Some(owned("input")));
        required.push(Some(owned("query")));
        let mut properties: Vec<String> = Vec::new();
        properties.push(owned("input"));
        properties.push(owned("query"));
        proof {
            assert(opt_views(required@) =~= seq!["input"@, "query"@].map_values(|f: Seq<char>| Some(f)));
            assert(views(properties@) =~= seq!["input"@, "query"@]);
        }
        ToolSchemaInfo {
            function_name: owned(name),
            description: owned("Extract a value from JSON using dot-path query."),
            params: SchemaParams {
                is_object: true,
                type_field: Some(owned("object")),
                required: Some(required),
                properties: Some(properties),
            },
            params_json: owned("{\"properties\":{\"input\":{\"description\":\"The JSON string to extract from\",\"type\":\"string\"},\"query\":{\"description\":\"Dot-path query like 'users.0.name' or 'data.metadata.author'\",\"type\":\"string\"}},\"required\":[\"input\",\"query\"],\"type\":\"object\"}"),
        }
    }

    /// The tool's function schema, under the tool's name.
    pub fn schema(&self) -> (r: ToolSchemaInfo)
        ensures
            schema_is(
                r,
                "json_extract"@,
                "Extract a value from JSON using dot-path query."@,
                object_params(seq!["input"@, "query"@], seq!["input"@, "query"@]),
                "{\"properties\":{\"input\":{\"description\":\"The JSON string to extract from\",\"type\":\"string\"},\"query\":{\"description\":\"Dot-path query like 'users.0.name' or 'data.metadata.author'\",\"type\":\"string\"}},\"required\":[\"input\",\"query\"],\"type\":\"object\"}"@,
            ),
    {
        Self::make_schema(self.name())
    }
}

impl GithubIssueCreate {
    /// The function schema under `name`.
    pub fn make_schema(name: &str) -> (r: ToolSchemaInfo)
        ensures
            schema_is(
                r,
                name@,
                "Create a GitHub issue in the specified repository."@,
                object_params(seq!["repo"@, "title"@], seq!["body"@, "labels"@, "repo"@, "title"@]),
                "{\"properties\":{\"body\":{\"description\":\"Issue body / description (optional)\",\"type\":\"string\"},\"labels\":{\"description\":\"Comma-separated label names (optional, e.g. 'bug,urgent')\",\"type\":\"string\"},\"repo\":{\"description\":\"Repository in owner/repo format (e.g. 'octocat/Hello-World')\",\"type\":\"string\"},\"title\":{\"description\":\"Issue title\",\"type\":\"string\"}},\"required\":[\"repo\",\"title\"],\"type\":\"object\"}"@,
            ),
    {
        let mut required: Vec<Option<String>> = Vec::new();
        required.push(Some(owned("repo")));
        required.push(Some(owned("title")));
        let mut properties: Vec<String> = Vec::new();
        properties.push(owned("body"));
        properties.push(owned("labels"));
        properties.push(owned("repo"));
        properties.push(owned("title"));
        proof {
            assert(opt_views(required@) =~= seq!["repo"@, "title"@].map_values(|f: Seq<char>| Some(f)));
            assert(views(properties@) =~= seq!["body"@, "labels"@, "repo"@, "title"@]);
        }
        ToolSchemaInfo {
            function_name: owned(name),
            description: owned("Create a GitHub issue in the specified repository."),
            params: SchemaParams {
                is_object: true,
                type_field: Some(owned("object")),
                required: Some(required),
                properties: Some(properties),
            },
            params_json: owned("{\"properties\":{\"body\":{\"description\":\"Issue body / description (optional)\",\"type\":\"string\"},\"labels\":{\"description\":\"Comma-separated label names (optional, e.g. 'bug,urgent')\",\"type\":\"string\"},\"repo\":{\"description\":\"Repository in owner/repo format (e.g. 'octocat/Hello-World')\",\"type\":\"string\"},\"title\":{\"description\":\"Issue title\",\"type\":\"string\"}},\"required\":[\"repo\",\"title\"],\"type\":\"object\"}"),
        }
    }

    /// The tool's function schema, under the tool's name.
    pub fn schema(&self) -> (r: ToolSchemaInfo)
        ensures
            schema_is(
                r,
                "github_issue_create"@,
                "Create a GitHub issue in the specified repository."@,
                object_params(seq!["repo"@, "title"@], seq!["body"@, "labels"@, "repo"@, "title"@]),
                "{\"properties\":{\"body\":{\"description\":\"Issue body / description (optional)\",\"type\":\"string\"},\"labels\":{\"description\":\"Comma-separated label names (optional, e.g. 'bug,urgent')\",\"type\":\"string\"},\"repo\":{\"description\":\"Repository in owner/repo format (e.g. 'octocat/Hello-World')\",\"type\":\"string\"},\"title\":{\"description\":\"Issue title\",\"type\":\"string\"}},\"required\":[\"repo\",\"title\"],\"type\":\"object\"}"@,
            ),
    {
        Self::make_schema(self.name())
    }
}

impl GithubIssueSearch {
    /// The function schema under `name`.
    pub fn make_schema(name: &str) -> (r: ToolSchemaInfo)
        ensures
            schema_is(
                r,
                name@,
                "Search GitHub issues in a repository with optional filters."@,
                object_params(seq!["repo"@], seq!["limit"@, "query"@, "repo"@, "state"@]),
                "{\"properties\":{\"limit\":{\"default\":10,\"description\":\"Maximum results to return (default: 10)\",\"type\":\"integer\"},\"query\":{\"description\":\"Search query (optional — matches against title, body, and comments)\",\"type\":\"string\"},\"repo\":{\"description\":\"Repository in owner/repo format (e.g. 'octocat/Hello-World')\",\"type\":\"string\"},\"state\":{\"description\":\"Issue state filter (default: open)\",\"enum\":[\"open\",\"closed\"],\"type\":\"string\"}},\"required\":[\"repo\"],\"type\":\"object\"}"@,
            ),
    {
        let mut required: Vec<Option<String>> = Vec::new();
        required.push(Some(owned("repo")));
        let mut properties: Vec<String> = Vec::new();
        properties.push(owned("limit"));
        properties.push(owned("query"));
        properties.push(owned("repo"));
        properties.push(owned("state"));
        proof {
            assert(opt_views(required@) =~= seq!["repo"@].map_values(|f: Seq<char>| Some(f)));
            assert(views(properties@) =~= seq!["limit"@, "query"@, "repo"@, "state"@]);
        }
        ToolSchemaInfo {
            function_name: owned(name),
            description: owned("Search GitHub issues in a repository with optional filters."),
            params: SchemaParams {
                is_object: true,
                type_field: Some(owned("object")),
                required: Some(required),
                properties: Some(properties),
            },
            params_json: owned("{\"properties\":{\"limit\":{\"default\":10,\"description\":\"Maximum results to return (default: 10)\",\"type\":\"integer\"},\"query\":{\"description\":\"Search query (optional — matches against title, body, and comments)\",\"type\":\"string\"},\"repo\":{\"description\":\"Repository in owner/repo format (e.g. 'octocat/Hello-World')\",\"type\":\"string\"},\"state\":{\"description\":\"Issue state filter (default: open)\",\"enum\":[\"open\",\"closed\"],\"type\":\"string\"}},\"required\":[\"repo\"],\"type\":\"object\"}"),
        }
    }

    /// The tool's function schema, under the tool's name.
    pub fn schema(&self) -> (r: ToolSchemaInfo)
        ensures
            schema_is(
                r,
                "github_issue_search"@,
                "Search GitHub issues in a repository with optional filters."@,
                object_params(seq!["repo"@], seq!["limit"@, "query"@, "repo"@, "state"@]),
                "{\"properties\":{\"limit\":{\"default\":10,\"description\":\"Maximum results to return (default: 10)\",\"type\":\"integer\"},\"query\":{\"description\":\"Search query (optional — matches against title, body, and comments)\",\"type\":\"string\"},\"repo\":{\"description\":\"Repository in owner/repo format (e.g. 'octocat/Hello-World')\",\"type\":\"string\"},\"state\":{\"description\":\"Issue state filter (default: open)\",\"enum\":[\"open\",\"closed\"],\"type\":\"string\"}},\"required\":[\"repo\"],\"type\":\"object\"}"@,
            ),
    {
        Self::make_schema(self.name())
    }
}

impl GithubPrCreate {
    /// The function schema under `name`.
    pub fn make_schema(name: &str) -> (r: ToolSchemaInfo)
        ensures
            schema_is(
                r,
                name@,
                "Create a pull request on a GitHub repository."@,
                object_params(seq!["repo"@, "title"@, "head"@], seq!["base"@, "body"@, "head"@, "repo"@, "title"@]),
                "{\"properties\":{\"base\":{\"default\":\"main\",\"description\":\"Base branch to merge into (default: 'main')\",\"type\":\"string\"},\"body\":{\"description\":\"Pull request body / description (optional)\",\"type\":\"string\"},\"head\":{\"description\":\"Head branch to merge from (required)\",\"type\":\"string\"},\"repo\":{\"description\":\"Repository in owner/repo format (e.g. 'octocat/Hello-World')\",\"type\":\"string\"},\"title\":{\"description\":\"Pull request title\",\"type\":\"string\"}},\"required\":[\"repo\",\"title\",\"head\"],\"type\":\"object\"}"@,
            ),
    {
        let mut required: Vec<Option<String>> = Vec::new();
        required.push(Some(owned("repo")));
        required.push(Some(owned("title")));
        required.push(Some(owned("head")));
        let mut properties: Vec<String> = Vec::new();
        properties.push(owned("base"));
        properties.push(owned("body"));
        properties.push(owned("head"));
        properties.push(owned("repo"));
        properties.push(owned("title"));
        proof {
            assert(opt_views(required@) =~= seq!["repo"@, "title"@, "head"@].map_values(|f: Seq<char>| Some(f)));
            assert(views(properties@) =~= seq!["base"@, "body"@, "head"@, "repo"@, "title"@]);
        }
        ToolSchemaInfo {
            function_name: owned(name),
            description: owned("Create a pull request on a GitHub repository."),
            params: SchemaParams {
                is_object: true,
                type_field: Some(owned("object")),
                required: Some(required),
                properties: Some(properties),
            },
            params_json: owned("{\"properties\":{\"base\":{\"default\":\"main\",\"description\":\"Base branch to merge into (default: 'main')\",\"type\":\"string\"},\"body\":{\"description\":\"Pull request body / description (optional)\",\"type\":\"string\"},\"head\":{\"description\":\"Head branch to merge from (required)\",\"type\":\"string\"},\"repo\":{\"description\":\"Repository in owner/repo format (e.g. 'octocat/Hello-World')\",\"type\":\"string\"},\"title\":{\"description\":\"Pull request title\",\"type\":\"string\"}},\"required\":[\"repo\",\"title\",\"head\"],\"type\":\"object\"}"),
        }
    }

    /// The tool's function schema, under the tool's name.
    pub fn schema(&self) -> (r: ToolSchemaInfo)
        ensures
            schema_is(
                r,
                "github_pr_create"@,
                "Create a pull request on a GitHub repository."@,
                object_params(seq!["repo"@, "title"@, "head"@], seq!["base"@, "body"@, "head"@, "repo"@, "title"@]),
                "{\"properties\":{\"base\":{\"default\":\"main\",\"description\":\"Base branch to merge into (default: 'main')\",\"type\":\"string\"},\"body\":{\"description\":\"Pull request body / description (optional)\",\"type\":\"string\"},\"head\":{\"description\":\"Head branch to merge from (required)\",\"type\":\"string\"},\"repo\":{\"description\":\"Repository in owner/repo format (e.g. 'octocat/Hello-World')\",\"type\":\"string\"},\"title\":{\"description\":\"Pull request title\",\"type\":\"string\"}},\"required\":[\"repo\",\"title\",\"head\"],\"type\":\"object\"}"@,
            ),
    {
        Self::make_schema(self.name())
    }
}

impl GithubPrStatus {
    /// The function schema under `name`.
    pub fn make_schema(name: &str) -> (r: ToolSchemaInfo)
        ensures
            schema_is(
                r,
                name@,
                "View details of a specific PR or list open PRs for a repository."@,
                object_params(seq!["repo"@], seq!["pr_number"@, "repo"@]),
                "{\"properties\":{\"pr_number\":{\"description\":\"PR number to view (optional — if omitted, lists all open PRs)\",\"type\":\"integer\"},\"repo\":{\"description\":\"Repository in owner/repo format (e.g. 'octocat/Hello-World')\",\"type\":\"string\"}},\"required\":[\"repo\"],\"type\":\"object\"}"@,
            ),
    {
        let mut required: Vec<Option<String>> = Vec::new();
        required.push(Some(owned("repo")));
        let mut properties: Vec<String> = Vec::new();
        properties.push(owned("pr_number"));
        properties.push(owned("repo"));
        proof {
            assert(opt_views(required@) =~= seq!["repo"@].map_values(|f: Seq<char>| Some(f)));
            assert(views(properties@) =~= seq!["pr_number"@, "repo"@]);
        }
        ToolSchemaInfo {
            function_name: owned(name),
            description: owned("View details of a specific PR or list open PRs for a repository."),
            params: SchemaParams {
                is_object: true,
                type_field: Some(owned("object")),
                required: Some(required),
                properties: Some(properties),
            },
            params_json: owned("{\"properties\":{\"pr_number\":{\"description\":\"PR number to view (optional — if omitted, lists all open PRs)\",\"type\":\"integer\"},\"repo\":{\"description\":\"Repository in owner/repo format (e.g. 'octocat/Hello-World')\",\"type\":\"string\"}},\"required\":[\"repo\"],\"type\":\"object\"}"),
        }
    }

    /// The tool's function schema, under the tool's name.
    pub fn schema(&self) -> (r: ToolSchemaInfo)
        ensures
            schema_is(
                r,
                "github_pr_status"@,
                "View details of a specific PR or list open PRs for a repository."@,
                object_params(seq!["repo"@], seq!["pr_number"@, "repo"@]),
                "{\"properties\":{\"pr_number\":{\"description\":\"PR number to view (optional — if omitted, lists all open PRs)\",\"type\":\"integer\"},\"repo\":{\"description\":\"Repository in owner/repo format (e.g. 'octocat/Hello-World')\",\"type\":\"string\"}},\"required\":[\"repo\"],\"type\":\"object\"}"@,
            ),
    {
        Self::make_schema(self.name())
    }
}

impl GithubActionsStatus {
    /// The function schema under `name`.
    pub fn make_schema(name: &str) -> (r: ToolSchemaInfo)
        ensures
            schema_is(
                r,
                name@,
                "View recent GitHub Actions workflow runs for a repository."@,
                object_params(seq!["repo"@], seq!["repo"@, "workflow"@]),
                "{\"properties\":{\"repo\":{\"description\":\"Repository in owner/repo format (e.g. 'octocat/Hello-World')\",\"type\":\"string\"},\"workflow\":{\"description\":\"Workflow filename (e.g. 'ci.yml') or workflow name (optional — if omitted, shows latest runs across all workflows)\",\"type\":\"string\"}},\"required\":[\"repo\"],\"type\":\"object\"}"@,
            ),
    {
        let mut required: Vec<Option<String>> = Vec::new();
        required.push(Some(owned("repo")));
        let mut properties: Vec<String> = Vec::new();
        properties.push(owned("repo"));
        properties.push(owned("workflow"));
        proof {
            assert(opt_views(required@) =~= seq!["repo"@].map_values(|f: Seq<char>| Some(f)));
            assert(views(properties@) =~= seq!["repo"@, "workflow"@]);
        }
        ToolSchemaInfo {
            function_name: owned(name),
            description: owned("View recent GitHub Actions workflow runs for a repository."),
            params: SchemaParams {
                is_object: true,
                type_field: Some(owned("object")),
                required: Some(required),
                properties: Some(properties),
            },
            params_json: owned("{\"properties\":{\"repo\":{\"description\":\"Repository in owner/repo format (e.g. 'octocat/Hello-World')\",\"type\":\"string\"},\"workflow\":{\"description\":\"Workflow filename (e.g. 'ci.yml') or workflow name (optional — if omitted, shows latest runs across all workflows)\",\"type\":\"string\"}},\"required\":[\"repo\"],\"type\":\"object\"}"),
        }
    }

    /// The tool's function schema, under the tool's name.
    pub fn schema(&self) -> (r: ToolSchemaInfo)
        ensures
            schema_is(
                r,
                "github_actions_status"@,
                "View recent GitHub Actions workflow runs for a repository."@,
                object_params(seq!["repo"@], seq!["repo"@, "workflow"@]),
                "{\"properties\":{\"repo\":{\"description\":\"Repository in owner/repo format (e.g. 'octocat/Hello-World')\",\"type\":\"string\"},\"workflow\":{\"description\":\"Workflow filename (e.g. 'ci.yml') or workflow name (optional — if omitted, shows latest runs across all workflows)\",\"type\":\"string\"}},\"required\":[\"repo\"],\"type\":\"object\"}"@,
            ),
    {
        Self::make_schema(self.name())
    }
}

} // verus!
