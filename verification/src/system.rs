//! What the diagnostic tools `system_info` and `disk_usage` run, and how
//! the commands' output becomes their result.
//!
//! Running `uname`, `free` and `df` belongs to the caller, which hands in
//! what they printed.
use vstd::prelude::*;
use crate::text::{i64_to_string, dec_int, owned, push_all, trim, trim_str, views};

verus! {

/// The report of `system_info`, from what `uname -a` and `free -h` printed.
pub open spec fn system_report(uname_out: Seq<char>, free_out: Seq<char>) -> Seq<char> {
    "── System Information ──\nKernel/OS: "@ + trim(uname_out) + "\n\n── Memory ──\n"@ + trim(free_out)
}

/// Builds the `system_info` report from the two commands' output.
pub fn system_info_output(uname_out: &str, free_out: &str) -> (r: String)
    ensures
        r@ == system_report(uname_out@, free_out@),
{
    let mut s = owned("── System Information ──\nKernel/OS: ");
    push_all(&mut s, trim_str(uname_out).as_str());
    push_all(&mut s, "\n\n── Memory ──\n");
    push_all(&mut s, trim_str(free_out).as_str());
    s
}

/// The arguments of `df`: `-h`, then the path when one is given.
pub fn df_args(path: &Option<String>) -> (r: Vec<String>)
    ensures
        views(r@) == match path {
            Some(p) => seq!["-h"@, p@],
            None => seq!["-h"@],
        },
{
    let mut v: Vec<String> = Vec::new();
    v.push(owned("-h"));
    if let Some(p) = path {
        v.push(p.clone());
        assert(views(v@) =~= seq!["-h"@, p@]);
    } else {
        assert(views(v@) =~= seq!["-h"@]);
    }
    v
}

/// What `disk_usage` reports.
#[derive(Debug, Clone, PartialEq, Eq)]
pub struct DiskReport {
    pub success: bool,
    pub output: String,
    pub error: Option<String>,
}

/// `{:?}` of an exit code: `Some(n)` or `None`.
pub open spec fn exit_code_text(code: Option<i32>) -> Seq<char> {
    match code {
        Some(c) => "Some("@ + dec_int(c as int) + ")"@,
        None => "None"@,
    }
}

/// The output of `disk_usage`: what `df` printed, with its error stream
/// appended under a separator when there is one.
pub open spec fn disk_output(stdout: Seq<char>, stderr: Seq<char>) -> Seq<char> {
    if trim(stderr).len() == 0 {
        trim(stdout)
    } else {
        trim(stdout) + "\n--- stderr ---\n"@ + trim(stderr)
    }
}

/// The error of `disk_usage`: none on success, else the error stream or,
/// when that is empty, the exit code.
pub open spec fn disk_error(success: bool, stderr: Seq<char>, code: Option<i32>) -> Option<Seq<char>> {
    if success {
        None
    } else if trim(stderr).len() == 0 {
        Some("df exited with code "@ + exit_code_text(code))
    } else {
        Some(trim(stderr))
    }
}

/// Builds the `disk_usage` result from how `df` ended and what it printed.
pub fn disk_usage_report(success: bool, code: Option<i32>, stdout: &str, stderr: &str) -> (r: DiskReport)
    ensures
        r.success == success,
        r.output@ == disk_output(stdout@, stderr@),
        match r.error {
            Some(e) => disk_error(success, stderr@, code) == Some(e@),
            None => disk_error(success, stderr@, code) is None,
        },
{
    let out0 = trim_str(stdout);
    let err = trim_str(stderr);
    let error = if !success {
        if err.as_str().is_empty() {
            let mut m = owned("df exited with code ");
            match code {
                Some(c) => {
                    push_all(&mut m, "Some(");
                    push_all(&mut m, i64_to_string(c as i64).as_str());
                    push_all(&mut m, ")");
                },
                None => {
                    push_all(&mut m, "None");
                },
            }
            assert(m@ =~= "df exited with code "@ + exit_code_text(code));
            Some(m)
        } else {
            Some(err.clone())
        }
    } else {
        None
    };
    let mut out = out0;
    if !err.as_str().is_empty() {
        push_all(&mut out, "\n--- stderr ---\n");
        push_all(&mut out, err.as_str());
    }
    DiskReport { success, output: out, error }
}

} // verus!
