//! Dry runs: a tool stand-in that checks arguments and answers with a
//! synthetic result instead of acting.
use vstd::prelude::*;
use crate::text::{owned, push_all, views};
use crate::tools::{ToolInfo, ToolModel};

verus! {

/// The output a dry run reports unless configured otherwise.
pub open spec fn default_mock_output() -> Seq<char> {
    "[DRY RUN] Tool execution was intercepted by DryRunTool — no side effects performed."@
}

/// How a dry run answers.
#[derive(Debug, Clone)]
pub struct DryRunConfig {
    /// Check the arguments before answering.
    pub validate_args: bool,
    /// The output of a simulated success.
    pub mock_output: String,
    /// The duration reported.
    pub mock_duration_ms: u64,
    /// Whether to simulate a success.
    pub mock_success: bool,
    /// The error of a simulated failure.
    pub mock_error: Option<String>,
}

impl Default for DryRunConfig {
    /// Checks arguments and simulates an instant success with the default
    /// output.
    fn default() -> (r: DryRunConfig)
        ensures
            r.validate_args,
            r.mock_output@ == default_mock_output(),
            r.mock_duration_ms == 0,
            r.mock_success,
            r.mock_error is None,
    {
        DryRunConfig {
            validate_args: true,
            mock_output: owned(
                "[DRY RUN] Tool execution was intercepted by DryRunTool — no side effects performed.",
            ),
            mock_duration_ms: 0,
            mock_success: true,
            mock_error: None,
        }
    }
}

/// What a dry run answers.
#[derive(Debug, Clone, PartialEq, Eq)]
pub struct DryRunResult {
    pub call_id: String,
    pub tool_name: String,
    pub success: bool,
    pub output: String,
    pub error: Option<String>,
    pub duration_ms: u64,
}

/// A tool whose execution is replaced by a dry run.
#[derive(Debug, Clone)]
pub struct DryRunTool {
    inner: ToolInfo,
    config: DryRunConfig,
}

/// The error text of arguments that failed the inner tool's validation.
pub open spec fn validation_msg(name: Seq<char>, e: Seq<char>) -> Seq<char> {
    "[DRY RUN] Argument validation failed for tool '"@ + name + "': "@ + e
}

/// `res` is the configured answer of a dry run of the tool `name`.
pub open spec fn mock_result_ok(res: DryRunResult, cfg: DryRunConfig, name: Seq<char>, call_id: String) -> bool {
    &&& res.call_id == call_id
    &&& res.tool_name@ == name
    &&& res.duration_ms == cfg.mock_duration_ms
    &&& res.success == cfg.mock_success
    &&& if res.success {
        res.output@ == cfg.mock_output@ && res.error is None
    } else {
        &&& res.output@.len() == 0
        &&& res.error matches Some(er) && er@ == match cfg.mock_error {
            Some(x) => x@,
            None => "[DRY RUN] Simulated failure"@,
        }
    }
}

impl DryRunTool {
    /// The wrapped tool.
    pub closed spec fn inner_spec(&self) -> ToolInfo {
        self.inner
    }

    /// The configuration.
    pub closed spec fn config_spec(&self) -> DryRunConfig {
        self.config
    }

    /// A dry run of `inner` with the default configuration.
    pub fn new(inner: ToolInfo) -> (r: DryRunTool)
        ensures
            r.inner_spec() == inner,
            r.config_spec().validate_args,
            r.config_spec().mock_output@ == default_mock_output(),
            r.config_spec().mock_duration_ms == 0,
            r.config_spec().mock_success,
            r.config_spec().mock_error is None,
    {
        DryRunTool { inner, config: DryRunConfig::default() }
    }

    /// A dry run of `inner` with `config`.
    pub fn with_config(inner: ToolInfo, config: DryRunConfig) -> (r: DryRunTool)
        ensures
            r.inner_spec() == inner,
            r.config_spec() == config,
    {
        DryRunTool { inner, config }
    }

    /// The wrapped tool.
    pub fn inner_tool(&self) -> (r: &ToolInfo)
        ensures
            *r == self.inner_spec(),
    {
        &self.inner
    }

    /// The wrapped tool's name.
    pub fn name(&self) -> (r: &str)
        ensures
            r@ == self.inner_spec().name@,
    {
        self.inner.name.as_str()
    }

    /// The wrapped tool's description.
    pub fn description(&self) -> (r: &str)
        ensures
            r@ == self.inner_spec().description@,
    {
        self.inner.description.as_str()
    }

    /// A dry run needs no approval.
    pub fn requires_approval(&self) -> (r: bool)
        ensures
            !r,
    {
        false
    }

    /// A dry run is safe.
    pub fn is_safe(&self) -> (r: bool)
        ensures
            r,
    {
        true
    }

    /// A dry run is not dangerous.
    pub fn is_dangerous(&self) -> (r: bool)
        ensures
            !r,
    {
        false
    }

    /// The dry run's tags: `dry-run` and `safe`.
    pub fn capability_tags(&self) -> (r: Vec<String>)
        ensures
            views(r@) == seq!["dry-run"@, "safe"@],
    {
        let mut v: Vec<String> = Vec::new();
        v.push(owned("dry-run"));
        v.push(owned("safe"));
        assert(views(v@) =~= seq!["dry-run"@, "safe"@]);
        v
    }

    /// The dry run's metadata: the inner tool's name and description,
    /// safe, not dangerous, no approval.
    pub fn info(&self) -> (r: ToolInfo)
        ensures
            r@ == (ToolModel {
                name: self.inner_spec().name@,
                description: self.inner_spec().description@,
                tags: seq!["dry-run"@, "safe"@],
                is_safe: true,
                is_dangerous: false,
                requires_approval: false,
            }),
    {
        ToolInfo {
            name: self.inner.name.clone(),
            description: self.inner.description.clone(),
            tags: self.capability_tags(),
            is_safe: true,
            is_dangerous: false,
            requires_approval: false,
        }
    }

    /// Answers a call: when arguments are checked and `validation` (what
    /// the inner tool said of them) is an error, fails with it; otherwise
    /// the configured success or failure, under `call_id`.
    pub fn execute(&self, validation: &Result<(), String>, call_id: String) -> (r: Result<
        DryRunResult,
        String,
    >)
        ensures
            match (self.config_spec().validate_args, *validation) {
                (true, Err(e)) => r matches Err(m) && m@ == validation_msg(self.inner_spec().name@, e@),
                _ => r matches Ok(res) && mock_result_ok(res, self.config_spec(), self.inner_spec().name@, call_id),
            },
    {
        if self.config.validate_args {
            if let Err(e) = validation {
                let mut m = owned("[DRY RUN] Argument validation failed for tool '");
                push_all(&mut m, self.inner.name.as_str());
                push_all(&mut m, "': ");
                push_all(&mut m, e.as_str());
                return Err(m);
            }
        }
        if self.config.mock_success {
            Ok(DryRunResult {
                call_id,
                tool_name: self.inner.name.clone(),
                success: true,
                output: self.config.mock_output.clone(),
                error: None,
                duration_ms: self.config.mock_duration_ms,
            })
        } else {
            let error = match &self.config.mock_error {
                Some(x) => x.clone(),
                None => owned("[DRY RUN] Simulated failure"),
            };
            Ok(DryRunResult {
                call_id,
                tool_name: self.inner.name.clone(),
                success: false,
                output: String::new(),
                error: Some(error),
                duration_ms: self.config.mock_duration_ms,
            })
        }
    }
}

} // verus!
