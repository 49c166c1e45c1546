//! Tool validation: schema, argument and permission checks on a tool's
//! metadata, duplicate detection across a registry, and the doctor's
//! health report.
//!
//! A tool enters as plain values: its [`ToolInfo`] and what its JSON schema
//! holds ([`SchemaParams`]); the caller reads those out of the schema.
use vstd::prelude::*;
use crate::skills::{missing, missing_from};
use crate::tools::ToolInfo;
use crate::text::{contains_str, owned, push_all, str_eq, u64_to_string, views, dec};

verus! {

/// What the checks read of a tool's JSON parameter schema.
#[derive(Debug, Clone)]
pub struct SchemaParams {
    /// The parameters are a JSON object.
    pub is_object: bool,
    /// The `type` member, when it is a string.
    pub type_field: Option<String>,
    /// The `required` member, when it is an array: each entry's text when
    /// it is a string.
    pub required: Option<Vec<Option<String>>>,
    /// The keys of the `properties` member, when it is an object.
    pub properties: Option<Vec<String>>,
}

/// A tool's function schema, as the checks see it.
#[derive(Debug, Clone)]
pub struct ToolSchemaInfo {
    /// The function name in the schema.
    pub function_name: String,
    /// The function description in the schema.
    pub description: String,
    pub params: SchemaParams,
    /// The parameters serialised canonically, to compare two schemas.
    pub params_json: String,
}

/// A registered tool: its metadata and its schema.
#[derive(Debug, Clone)]
pub struct ToolEntry {
    pub info: ToolInfo,
    pub schema: ToolSchemaInfo,
}

/// Model of [`SchemaParams`].
pub struct ParamsModel {
    pub is_object: bool,
    pub type_field: Option<Seq<char>>,
    pub required: Option<Seq<Option<Seq<char>>>>,
    pub properties: Option<Seq<Seq<char>>>,
}

/// The character sequences of optional strings.
pub open spec fn opt_views(s: Seq<Option<String>>) -> Seq<Option<Seq<char>>> {
    s.map_values(|o: Option<String>| match o {
        Some(t) => Some(t@),
        None => None,
    })
}

impl View for SchemaParams {
    type V = ParamsModel;

    open spec fn view(&self) -> ParamsModel {
        ParamsModel {
            is_object: self.is_object,
            type_field: match self.type_field {
                Some(t) => Some(t@),
                None => None,
            },
            required: match self.required {
                Some(r) => Some(opt_views(r@)),
                None => None,
            },
            properties: match self.properties {
                Some(p) => Some(views(p@)),
                None => None,
            },
        }
    }
}

/// The entries that are strings, in order.
pub open spec fn strings_only(s: Seq<Option<Seq<char>>>) -> Seq<Seq<char>>
    decreases s.len(),
{
    if s.len() == 0 {
        seq![]
    } else {
        match s.last() {
            Some(t) => strings_only(s.drop_last()).push(t),
            None => strings_only(s.drop_last()),
        }
    }
}

// ── validation reports ───────────────────────────────────────────────

/// Schema, argument and permission checks of tools.
pub struct ToolValidator;

/// The checks that passed and failed, and the warnings, for one tool.
#[derive(Debug, Clone)]
pub struct ValidationReport {
    pub tool_name: String,
    pub passed: Vec<String>,
    pub failed: Vec<String>,
    pub warnings: Vec<String>,
}

/// Model of a [`ValidationReport`].
pub struct ReportModel {
    pub tool_name: Seq<char>,
    pub passed: Seq<Seq<char>>,
    pub failed: Seq<Seq<char>>,
    pub warnings: Seq<Seq<char>>,
}

impl View for ValidationReport {
    type V = ReportModel;

    open spec fn view(&self) -> ReportModel {
        ReportModel {
            tool_name: self.tool_name@,
            passed: views(self.passed@),
            failed: views(self.failed@),
            warnings: views(self.warnings@),
        }
    }
}

/// `[s]` when `b` holds, else nothing.
pub open spec fn when(b: bool, s: Seq<char>) -> Seq<Seq<char>> {
    if b {
        seq![s]
    } else {
        seq![]
    }
}

fn push_str(v: &mut Vec<String>, s: &str)
    ensures
        views(final(v)@) == views(old(v)@).push(s@),
{
    let ghost before = views(v@);
    v.push(owned(s));
    assert(views(v@) =~= before.push(s@));
}

fn push_when(v: &mut Vec<String>, b: bool, s: &str)
    ensures
        views(final(v)@) == views(old(v)@) + when(b, s@),
{
    if b {
        push_str(v, s);
    } else {
        assert(views(v@) =~= views(v@) + when(b, s@));
    }
}

impl ValidationReport {
    /// An empty report for `tool_name`.
    pub fn new(tool_name: &str) -> (r: ValidationReport)
        ensures
            r@.tool_name == tool_name@,
            r@.passed.len() == 0,
            r@.failed.len() == 0,
            r@.warnings.len() == 0,
    {
        ValidationReport {
            tool_name: owned(tool_name),
            passed: Vec::new(),
            failed: Vec::new(),
            warnings: Vec::new(),
        }
    }

    /// The score as a fraction: checks passed over checks run, or one over
    /// one when nothing ran.
    pub fn score_fraction(&self) -> (r: (usize, usize))
        requires
            self.passed@.len() + self.failed@.len() <= usize::MAX,
        ensures
            self.passed@.len() + self.failed@.len() == 0 ==> r == (1usize, 1usize),
            self.passed@.len() + self.failed@.len() > 0 ==> r == (
                self.passed@.len() as usize,
                (self.passed@.len() + self.failed@.len()) as usize,
            ),
    {
        let total = self.passed.len() + self.failed.len();
        if total == 0 {
            (1, 1)
        } else {
            (self.passed.len(), total)
        }
    }
}

/// The schema checks' passes.
pub open spec fn schema_passed(name: Seq<char>, desc: Seq<char>, p: ParamsModel) -> Seq<Seq<char>> {
    let reqs = match p.required {
        Some(r) => strings_only(r),
        None => seq![],
    };
    let props = match p.properties {
        Some(q) => q,
        None => seq![],
    };
    when(name.len() != 0, "name is non-empty"@) + when(desc.len() != 0, "description is non-empty"@)
        + if !p.is_object {
        seq![]
    } else {
        seq!["schema parameters are a JSON object"@] + when(
            p.type_field == Some("object"@),
            "schema type is 'object'"@,
        ) + if reqs.len() == 0 {
            seq![]
        } else {
            seq!["required parameters are declared"@] + when(
                missing(reqs, props).len() == 0,
                "all required parameters have property definitions"@,
            )
        }
    }
}

/// The failure text for a required field without a property definition.
pub open spec fn undocumented_msg(field: Seq<char>) -> Seq<char> {
    "required field '"@ + field + "' has a corresponding property definition"@
}

/// The schema checks' failures.
pub open spec fn schema_failed(name: Seq<char>, desc: Seq<char>, p: ParamsModel) -> Seq<Seq<char>> {
    let reqs = match p.required {
        Some(r) => strings_only(r),
        None => seq![],
    };
    let props = match p.properties {
        Some(q) => q,
        None => seq![],
    };
    when(name.len() == 0, "name is non-empty"@) + when(desc.len() == 0, "description is non-empty"@)
        + if !p.is_object {
        seq!["schema parameters are a JSON object"@]
    } else {
        missing(reqs, props).map_values(|f: Seq<char>| undocumented_msg(f))
    }
}

/// The schema checks' warnings.
pub open spec fn schema_warnings(p: ParamsModel) -> Seq<Seq<char>> {
    let reqs = match p.required {
        Some(r) => strings_only(r),
        None => seq![],
    };
    if !p.is_object {
        seq![]
    } else {
        when(p.type_field != Some("object"@), "schema type is not 'object' or is missing"@) + when(
            reqs.len() == 0,
            "no required parameters declared in schema"@,
        )
    }
}

fn string_entries(r: &Vec<Option<String>>) -> (out: Vec<String>)
    ensures
        views(out@) == strings_only(opt_views(r@)),
{
    let mut out: Vec<String> = Vec::new();
    let mut i: usize = 0;
    while i < r.len()
        invariant
            i <= r@.len(),
            views(out@) == strings_only(opt_views(r@).take(i as int)),
        decreases r@.len() - i,
    {
        assert(opt_views(r@).take(i + 1).drop_last() =~= opt_views(r@).take(i as int));
        match &r[i] {
            Some(s) => {
                let ghost before = views(out@);
                out.push(s.clone());
                assert(views(out@) =~= before.push(s@));
            },
            None => {},
        }
        i = i + 1;
    }
    assert(opt_views(r@).take(i as int) =~= opt_views(r@));
    out
}

impl ToolValidator {
    /// Checks a tool's schema: name and description are non-empty, the
    /// parameters are a JSON object of type `object`, and every required
    /// parameter has a property definition.
    pub fn validate_schema(tool: &ToolEntry) -> (r: ValidationReport)
        ensures
            r@.tool_name == tool.info.name@,
            r@.passed == schema_passed(tool.info.name@, tool.info.description@, tool.schema.params@),
            r@.failed == schema_failed(tool.info.name@, tool.info.description@, tool.schema.params@),
            r@.warnings == schema_warnings(tool.schema.params@),
    {
        let mut report = ValidationReport::new(tool.info.name.as_str());
        let name_ok = !tool.info.name.as_str().is_empty();
        push_when(&mut report.passed, name_ok, "name is non-empty");
        push_when(&mut report.failed, !name_ok, "name is non-empty");
        let desc_ok = !tool.info.description.as_str().is_empty();
        push_when(&mut report.passed, desc_ok, "description is non-empty");
        push_when(&mut report.failed, !desc_ok, "description is non-empty");
        let p = &tool.schema.params;
        proof {
            reveal_strlit("object");
        }
        if !p.is_object {
            push_str(&mut report.failed, "schema parameters are a JSON object");
            assert(views(report.passed@) =~= schema_passed(
                tool.info.name@,
                tool.info.description@,
                tool.schema.params@,
            ));
            assert(views(report.warnings@) =~= schema_warnings(tool.schema.params@));
            return report;
        }
        push_str(&mut report.passed, "schema parameters are a JSON object");
        let type_ok = match &p.type_field {
            Some(t) => str_eq(t.as_str(), "object"),
            None => false,
        };
        push_when(&mut report.passed, type_ok, "schema type is 'object'");
        push_when(&mut report.warnings, !type_ok, "schema type is not 'object' or is missing");
        let reqs = match &p.required {
            Some(r) => string_entries(r),
            None => Vec::new(),
        };
        let props = match &p.properties {
            Some(q) => q.clone(),
            None => Vec::new(),
        };
        let ghost req_v = match tool.schema.params@.required {
            Some(r) => strings_only(r),
            None => seq![],
        };
        assert(views(reqs@) == req_v);
        let ghost props_v = match tool.schema.params@.properties {
            Some(q) => q,
            None => seq![],
        };
        assert(views(props@) == props_v);
        push_when(&mut report.warnings, reqs.len() == 0, "no required parameters declared in schema");
        if reqs.len() != 0 {
            push_str(&mut report.passed, "required parameters are declared");
            let undocumented = missing_from(&reqs, props.as_slice());
            let mut i: usize = 0;
            let ghost failed0 = views(report.failed@);
            let ghost passed0 = views(report.passed@);
            let ghost warnings0 = views(report.warnings@);
            while i < undocumented.len()
                invariant
                    i <= undocumented@.len(),
                    views(report.passed@) == passed0,
                    views(report.warnings@) == warnings0,
                    report.tool_name@ == tool.info.name@,
                    views(report.failed@) == failed0 + views(undocumented@).take(i as int).map_values(
                        |f: Seq<char>| undocumented_msg(f),
                    ),
                decreases undocumented@.len() - i,
            {
                let mut m = owned("required field '");
                push_all(&mut m, undocumented[i].as_str());
                push_all(&mut m, "' has a corresponding property definition");
                let ghost before = views(report.failed@);
                let ghost u = views(undocumented@);
                assert(m@ == undocumented_msg(u[i as int]));
                report.failed.push(m);
                assert(views(report.failed@) =~= before.push(undocumented_msg(u[i as int])));
                assert(u.take(i + 1) =~= u.take(i as int).push(u[i as int]));
                assert(u.take(i + 1).map_values(|f: Seq<char>| undocumented_msg(f)) =~= u.take(
                    i as int,
                ).map_values(|f: Seq<char>| undocumented_msg(f)).push(undocumented_msg(u[i as int])));
                i = i + 1;
                assert(views(report.failed@) =~= failed0 + views(undocumented@).take(i as int).map_values(
                    |f: Seq<char>| undocumented_msg(f),
                ));
            }
            assert(views(undocumented@).take(i as int) =~= views(undocumented@));
            push_when(
                &mut report.passed,
                undocumented.len() == 0,
                "all required parameters have property definitions",
            );
        }
        assert(views(report.passed@) =~= schema_passed(
            tool.info.name@,
            tool.info.description@,
            tool.schema.params@,
        ));
        assert(views(report.failed@) =~= schema_failed(
            tool.info.name@,
            tool.info.description@,
            tool.schema.params@,
        ));
        assert(views(report.warnings@) =~= schema_warnings(tool.schema.params@));
        report
    }
}

impl ToolValidator {
    /// The report of an argument check, from what the tool's own argument
    /// validation answered: `Ok` or the error's text.
    pub fn validate_args(tool_name: &str, outcome: &Result<(), String>) -> (r: ValidationReport)
        ensures
            r@.tool_name == tool_name@,
            r@.warnings.len() == 0,
            match *outcome {
                Ok(_) => r@.passed == seq!["arguments pass schema validation"@] && r@.failed.len() == 0,
                Err(e) => r@.passed.len() == 0 && r@.failed == seq![
                    "arguments pass schema validation: "@ + e@,
                ],
            },
    {
        let mut report = ValidationReport::new(tool_name);
        match outcome {
            Ok(_) => {
                push_str(&mut report.passed, "arguments pass schema validation");
            },
            Err(e) => {
                let mut m = owned("arguments pass schema validation: ");
                push_all(&mut m, e.as_str());
                let ghost before = views(report.failed@);
                report.failed.push(m);
                assert(views(report.failed@) =~= before.push("arguments pass schema validation: "@ + e@));
            },
        }
        report
    }
}

/// The permission checks' passes.
pub open spec fn permission_passed(t: crate::tools::ToolModel) -> Seq<Seq<char>> {
    let dangerous = t.tags.contains("dangerous"@);
    let safe = t.tags.contains("safe"@);
    let fs = t.tags.contains("filesystem"@);
    (if dangerous {
        when(t.requires_approval, "dangerous tool requires approval"@) + when(
            !t.is_safe,
            "dangerous tool is not marked safe"@,
        )
    } else {
        seq![]
    }) + when(safe && t.is_safe, "safe tool is marked safe"@) + when(
        fs && t.is_safe,
        "filesystem tool is sandbox-safe"@,
    ) + when(t.tags.len() != 0, "capability tags are present"@)
}

/// The permission checks' failures.
pub open spec fn permission_failed(t: crate::tools::ToolModel) -> Seq<Seq<char>> {
    let dangerous = t.tags.contains("dangerous"@);
    let safe = t.tags.contains("safe"@);
    (if dangerous {
        when(!t.requires_approval, "dangerous tool requires approval"@) + when(
            t.is_safe,
            "dangerous tool is not marked safe"@,
        )
    } else {
        seq![]
    }) + when(safe && !t.is_safe, "safe tool is marked safe"@)
}

/// The permission checks' warnings.
pub open spec fn permission_warnings(t: crate::tools::ToolModel) -> Seq<Seq<char>> {
    let dangerous = t.tags.contains("dangerous"@);
    let fs = t.tags.contains("filesystem"@);
    when(fs && !t.is_safe, "filesystem tool is not marked as sandbox-safe"@) + when(
        t.is_dangerous && !dangerous,
        "tool is_dangerous() returns true but 'dangerous' tag is missing"@,
    ) + when(
        dangerous && !t.is_dangerous,
        "tool has 'dangerous' tag but is_dangerous() returns false"@,
    ) + when(t.tags.len() == 0, "tool has no capability tags"@)
}

impl ToolValidator {
    /// Checks a tool's safety flags against its capability tags: a
    /// `dangerous` tool needs approval and is not safe, a `safe` one is safe,
    /// a `filesystem` one should be safe, and the tags should not be empty.
    pub fn validate_permissions(info: &ToolInfo) -> (r: ValidationReport)
        ensures
            r@.tool_name == info.name@,
            r@.passed == permission_passed(info@),
            r@.failed == permission_failed(info@),
            r@.warnings == permission_warnings(info@),
    {
        let mut report = ValidationReport::new(info.name.as_str());
        let dangerous = contains_str(info.tags.as_slice(), "dangerous");
        let safe = contains_str(info.tags.as_slice(), "safe");
        let fs = contains_str(info.tags.as_slice(), "filesystem");
        if dangerous {
            push_when(&mut report.passed, info.requires_approval, "dangerous tool requires approval");
            push_when(&mut report.failed, !info.requires_approval, "dangerous tool requires approval");
            push_when(&mut report.passed, !info.is_safe, "dangerous tool is not marked safe");
            push_when(&mut report.failed, info.is_safe, "dangerous tool is not marked safe");
        }
        if safe {
            push_when(&mut report.passed, info.is_safe, "safe tool is marked safe");
            push_when(&mut report.failed, !info.is_safe, "safe tool is marked safe");
        }
        if fs {
            push_when(&mut report.passed, info.is_safe, "filesystem tool is sandbox-safe");
            push_when(
                &mut report.warnings,
                !info.is_safe,
                "filesystem tool is not marked as sandbox-safe",
            );
        }
        push_when(
            &mut report.warnings,
            info.is_dangerous && !dangerous,
            "tool is_dangerous() returns true but 'dangerous' tag is missing",
        );
        push_when(
            &mut report.warnings,
            dangerous && !info.is_dangerous,
            "tool has 'dangerous' tag but is_dangerous() returns false",
        );
        push_when(&mut report.warnings, info.tags.len() == 0, "tool has no capability tags");
        push_when(&mut report.passed, info.tags.len() != 0, "capability tags are present");
        assert(views(report.passed@) =~= permission_passed(info@));
        assert(views(report.failed@) =~= permission_failed(info@));
        assert(views(report.warnings@) =~= permission_warnings(info@));
        report
    }
}

/// Whether a tool may be used under the configured lists: when the
/// enabled list is not empty the tool must be on it, and it must not be
/// on the disabled list.
pub open spec fn tool_allowed(
    enabled: Seq<Seq<char>>,
    disabled: Seq<Seq<char>>,
    name: Seq<char>,
) -> bool {
    (enabled.len() == 0 || enabled.contains(name)) && !disabled.contains(name)
}

/// Whether the tool `name` may be used under the enabled and disabled
/// lists.
pub fn is_tool_allowed(enabled: &[String], disabled: &[String], name: &str) -> (r: bool)
    ensures
        r == tool_allowed(views(enabled@), views(disabled@), name@),
{
    if enabled.len() != 0 && !contains_str(enabled, name) {
        return false;
    }
    if contains_str(disabled, name) {
        return false;
    }
    true
}

/// A disabled tool is never allowed, whatever the enabled list says.
pub proof fn lemma_disabled_wins(enabled: Seq<Seq<char>>, disabled: Seq<Seq<char>>, name: Seq<char>)
    requires
        disabled.contains(name),
    ensures
        !tool_allowed(enabled, disabled, name),
{
}

/// With both lists empty every tool is allowed.
pub proof fn lemma_empty_lists_allow_all(name: Seq<char>)
    ensures
        tool_allowed(seq![], seq![], name),
{
}

// ── duplicates ───────────────────────────────────────────────────────

/// What duplicate detection compares of a tool.
pub struct DupKey {
    pub name: Seq<char>,
    pub desc: Seq<char>,
    pub params: Seq<char>,
}

/// The duplicate-detection key of a tool.
pub open spec fn dup_key(t: ToolEntry) -> DupKey {
    DupKey { name: t.info.name@, desc: t.schema.description@, params: t.schema.params_json@ }
}

/// The keys of a list of tools.
pub open spec fn dup_keys(ts: Seq<ToolEntry>) -> Seq<DupKey> {
    ts.map_values(|t: ToolEntry| dup_key(t))
}

/// The names in a list of keys.
pub open spec fn key_names(ks: Seq<DupKey>) -> Seq<Seq<char>> {
    ks.map_values(|d: DupKey| d.name)
}

/// How many tools are named `n`.
pub open spec fn name_count(ks: Seq<DupKey>, n: Seq<char>) -> nat
    decreases ks.len(),
{
    if ks.len() == 0 {
        0
    } else {
        name_count(ks.drop_last(), n) + if ks.last().name == n {
            1nat
        } else {
            0nat
        }
    }
}

/// The warning for a name registered `c` times.
pub open spec fn dup_name_msg(n: Seq<char>, c: nat) -> Seq<char> {
    "Duplicate tool name '"@ + n + "': "@ + dec(c) + " registrations found"@
}

/// The warning for two tools with the same schema.
pub open spec fn dup_schema_msg(a: Seq<char>, b: Seq<char>) -> Seq<char> {
    "Duplicate schema: '"@ + a + "' and '"@ + b + "' have identical function schemas"@
}

/// Whether the schemas of two tools are the same: description and
/// parameters, the name aside.
pub open spec fn same_schema(a: DupKey, b: DupKey) -> bool {
    a.desc == b.desc && a.params == b.params
}

/// What the pair `(i, j)` adds to the warnings of the tool named `n`.
pub open spec fn pair_msgs(ks: Seq<DupKey>, n: Seq<char>, i: int, j: int) -> Seq<Seq<char>> {
    if same_schema(ks[i], ks[j]) {
        let m = dup_schema_msg(ks[i].name, ks[j].name);
        when(ks[i].name == n, m) + when(ks[j].name == n, m)
    } else {
        seq![]
    }
}

/// The pairs `(i, j)` with `i < j < k`, in order.
pub open spec fn pair_row(ks: Seq<DupKey>, n: Seq<char>, i: int, k: int) -> Seq<Seq<char>>
    decreases k - i,
{
    if k <= i + 1 {
        seq![]
    } else {
        pair_row(ks, n, i, k - 1) + pair_msgs(ks, n, i, k - 1)
    }
}

/// The pairs `(i, j)` with `i < m` and `i < j`, in order.
pub open spec fn pair_rows(ks: Seq<DupKey>, n: Seq<char>, m: int) -> Seq<Seq<char>>
    decreases m,
{
    if m <= 0 {
        seq![]
    } else {
        pair_rows(ks, n, m - 1) + pair_row(ks, n, m - 1, ks.len() as int)
    }
}

/// The duplicate warnings of the tool named `n`: the name warning once per
/// registration when the name is taken more than once, then the schema
/// warnings of every pair it belongs to.
pub open spec fn dup_warnings(ks: Seq<DupKey>, n: Seq<char>) -> Seq<Seq<char>> {
    let c = name_count(ks, n);
    (if c > 1 {
        Seq::new(c, |x: int| dup_name_msg(n, c))
    } else {
        seq![]
    }) + pair_rows(ks, n, ks.len() as int)
}

/// Whether the tool named `n` is a duplicate.
pub open spec fn is_duplicate(ks: Seq<DupKey>, n: Seq<char>) -> bool {
    name_count(ks, n) > 0 && dup_warnings(ks, n).len() > 0
}

/// The failure every duplicate report carries.
pub open spec fn dup_check_name() -> Seq<char> {
    "duplicate name or schema check"@
}

fn name_count_of(tools: &Vec<ToolEntry>, n: &str) -> (r: usize)
    ensures
        r == name_count(dup_keys(tools@), n@),
{
    let ghost ks = dup_keys(tools@);
    let mut c: usize = 0;
    let mut i: usize = 0;
    while i < tools.len()
        invariant
            i <= tools@.len(),
            ks == dup_keys(tools@),
            c == name_count(ks.take(i as int), n@),
            c <= i,
        decreases tools@.len() - i,
    {
        assert(ks.take(i + 1).drop_last() =~= ks.take(i as int));
        if str_eq(tools[i].info.name.as_str(), n) {
            c = c + 1;
        }
        i = i + 1;
    }
    assert(ks.take(i as int) =~= ks);
    c
}

/// The duplicate warnings of the tool named `n` (see [`dup_warnings`]).
pub fn duplicate_warnings(tools: &Vec<ToolEntry>, n: &str) -> (r: Vec<String>)
    ensures
        views(r@) == dup_warnings(dup_keys(tools@), n@),
{
    let ghost ks = dup_keys(tools@);
    let count = name_count_of(tools, n);
    let mut out: Vec<String> = Vec::new();
    if count > 1 {
        let mut m = owned("Duplicate tool name '");
        push_all(&mut m, n);
        push_all(&mut m, "': ");
        let cs = u64_to_string(count as u64);
        push_all(&mut m, cs.as_str());
        push_all(&mut m, " registrations found");
        let mut k: usize = 0;
        while k < count
            invariant
                k <= count,
                count == name_count(ks, n@),
                m@ == dup_name_msg(n@, count as nat),
                views(out@) == Seq::new(k as nat, |x: int| dup_name_msg(n@, count as nat)),
            decreases count - k,
        {
            let ghost before = views(out@);
            out.push(m.clone());
            assert(views(out@) =~= before.push(m@));
            k = k + 1;
            assert(views(out@) =~= Seq::new(k as nat, |x: int| dup_name_msg(n@, count as nat)));
        }
    }
    let ghost head = views(out@);
    assert(head == (if name_count(ks, n@) > 1 {
        Seq::new(name_count(ks, n@), |x: int| dup_name_msg(n@, name_count(ks, n@)))
    } else {
        seq![]
    }));
    let len = tools.len();
    let mut i: usize = 0;
    while i < len
        invariant
            i <= len,
            len == tools@.len(),
            ks == dup_keys(tools@),
            views(out@) == head + pair_rows(ks, n@, i as int),
        decreases len - i,
    {
        let mut j: usize = i + 1;
        let ghost row_start = views(out@);
        while j < len
            invariant
                i < j <= len,
                len == tools@.len(),
                ks == dup_keys(tools@),
                views(out@) == row_start + pair_row(ks, n@, i as int, j as int),
            decreases len - j,
        {
            let ti = &tools[i];
            let tj = &tools[j];
            let ghost before = views(out@);
            if ti.schema.description == tj.schema.description && ti.schema.params_json
                == tj.schema.params_json {
                let mut m = owned("Duplicate schema: '");
                push_all(&mut m, ti.info.name.as_str());
                push_all(&mut m, "' and '");
                push_all(&mut m, tj.info.name.as_str());
                push_all(&mut m, "' have identical function schemas");
                let ghost mv = m@;
                assert(mv == dup_schema_msg(ks[i as int].name, ks[j as int].name));
                if str_eq(ti.info.name.as_str(), n) {
                    let ghost b1 = views(out@);
                    out.push(m.clone());
                    assert(views(out@) =~= b1.push(mv));
                }
                let ghost mid = views(out@);
                assert(mid =~= before + when(ks[i as int].name == n@, mv));
                if str_eq(tj.info.name.as_str(), n) {
                    let ghost b2 = views(out@);
                    out.push(m.clone());
                    assert(views(out@) =~= b2.push(mv));
                }
                assert(views(out@) =~= before + pair_msgs(ks, n@, i as int, j as int));
            } else {
                assert(views(out@) =~= before + pair_msgs(ks, n@, i as int, j as int));
            }
            j = j + 1;
            assert(views(out@) =~= row_start + pair_row(ks, n@, i as int, j as int));
        }
        i = i + 1;
        assert(views(out@) =~= head + pair_rows(ks, n@, i as int));
    }
    out
}

/// The names of the tools, each once, in order of first appearance.
fn distinct_names(tools: &Vec<ToolEntry>) -> (r: Vec<String>)
    ensures
        forall|k: int| 0 <= k < r@.len() ==> key_names(dup_keys(tools@)).contains(
            #[trigger] r@[k]@,
        ),
        forall|i: int|
            0 <= i < tools@.len() ==> views(r@).contains(#[trigger] tools@[i].info.name@),
        crate::fallback::distinct(views(r@)),
{
    let ghost names = key_names(dup_keys(tools@));
    let mut out: Vec<String> = Vec::new();
    let mut i: usize = 0;
    while i < tools.len()
        invariant
            i <= tools@.len(),
            names == key_names(dup_keys(tools@)),
            forall|k: int| 0 <= k < out@.len() ==> names.contains(#[trigger] out@[k]@),
            forall|k: int| 0 <= k < i ==> views(out@).contains(#[trigger] tools@[k].info.name@),
            crate::fallback::distinct(views(out@)),
        decreases tools@.len() - i,
    {
        let name = &tools[i].info.name;
        assert(names[i as int] == name@);
        if !contains_str(out.as_slice(), name.as_str()) {
            let ghost before = views(out@);
            out.push(name.clone());
            proof {
                let now = views(out@);
                assert(now =~= before.push(name@));
                assert forall|a: int, b: int|
                    0 <= a < now.len() && 0 <= b < now.len() && a != b implies now[a] != now[b] by {
                    if a == now.len() - 1 {
                        assert(!before.contains(name@));
                        assert(before[b] == now[b]);
                    } else if b == now.len() - 1 {
                        assert(!before.contains(name@));
                        assert(before[a] == now[a]);
                    } else {
                        assert(before[a] == now[a] && before[b] == now[b]);
                    }
                }
                assert forall|k: int| 0 <= k < i + 1 implies now.contains(
                    #[trigger] tools@[k].info.name@,
                ) by {
                    if k < i {
                        let x = choose|x: int| 0 <= x < before.len() && before[x] == tools@[k].info.name@;
                        assert(now[x] == before[x]);
                    } else {
                        assert(now[now.len() - 1] == name@);
                    }
                }
            }
        }
        i = i + 1;
    }
    out
}

impl ToolValidator {
    /// One report per duplicated tool name (see [`dup_warnings`]), each with
    /// the failed duplicate check; tools that are no duplicates get none.
    pub fn detect_duplicates(tools: &Vec<ToolEntry>) -> (r: Vec<ValidationReport>)
        ensures
            forall|k: int|
                0 <= k < r@.len() ==> {
                    let n = (#[trigger] r@[k])@.tool_name;
                    &&& is_duplicate(dup_keys(tools@), n)
                    &&& r@[k]@.passed.len() == 0
                    &&& r@[k]@.failed == seq![dup_check_name()]
                    &&& r@[k]@.warnings == dup_warnings(dup_keys(tools@), n)
                },
            forall|i: int|
                0 <= i < tools@.len() && is_duplicate(dup_keys(tools@), #[trigger] tools@[i].info.name@)
                    ==> Seq::new(r@.len(), |k: int| r@[k]@.tool_name).contains(tools@[i].info.name@),
            crate::fallback::distinct(Seq::new(r@.len(), |k: int| r@[k]@.tool_name)),
    {
        let ghost ks = dup_keys(tools@);
        let names = distinct_names(tools);
        let mut out: Vec<ValidationReport> = Vec::new();
        let mut q: usize = 0;
        while q < names.len()
            invariant
                q <= names@.len(),
                ks == dup_keys(tools@),
                forall|k: int| 0 <= k < names@.len() ==> key_names(ks).contains(
                    #[trigger] names@[k]@,
                ),
                forall|i: int| 0 <= i < tools@.len() ==> views(names@).contains(#[trigger] tools@[i].info.name@),
                crate::fallback::distinct(views(names@)),
                forall|k: int|
                    0 <= k < out@.len() ==> {
                        let n = (#[trigger] out@[k])@.tool_name;
                        &&& is_duplicate(ks, n)
                        &&& out@[k]@.passed.len() == 0
                        &&& out@[k]@.failed == seq![dup_check_name()]
                        &&& out@[k]@.warnings == dup_warnings(ks, n)
                    },
                forall|k: int| 0 <= k < out@.len() ==> exists|x: int| 0 <= x < q && (#[trigger] out@[k])@.tool_name == names@[x]@,
                forall|x: int|
                    0 <= x < q && is_duplicate(ks, #[trigger] names@[x]@) ==> Seq::new(
                        out@.len(),
                        |k: int| out@[k]@.tool_name,
                    ).contains(names@[x]@),
                crate::fallback::distinct(Seq::new(out@.len(), |k: int| out@[k]@.tool_name)),
            decreases names@.len() - q,
        {
            let n = names[q].as_str();
            proof {
                let kn = key_names(ks);
                assert(kn.contains(n@));
                let x = choose|x: int| 0 <= x < kn.len() && kn[x] == n@;
                lemma_count_positive(ks, n@, x);
            }
            let ws = duplicate_warnings(tools, n);
            let ghost names0 = Seq::new(out@.len(), |k: int| out@[k]@.tool_name);
            let ghost out0 = out@;
            if ws.len() > 0 {
                let mut report = ValidationReport::new(n);
                push_str(&mut report.failed, "duplicate name or schema check");
                report.warnings = ws;
                let ghost before = Seq::new(out@.len(), |k: int| out@[k]@.tool_name);
                out.push(report);
                proof {
                    let now = Seq::new(out@.len(), |k: int| out@[k]@.tool_name);
                    assert(now =~= before.push(n@));
                    assert forall|a: int, b: int|
                        0 <= a < now.len() && 0 <= b < now.len() && a != b implies now[a] != now[b] by {
                        if a == now.len() - 1 || b == now.len() - 1 {
                            let o = if a == now.len() - 1 { b } else { a };
                            let x = choose|x: int| 0 <= x < q && out@[o]@.tool_name == names@[x]@;
                            assert(views(names@)[x] != views(names@)[q as int]);
                        } else {
                            assert(before[a] == now[a] && before[b] == now[b]);
                        }
                    }
                    assert(now[now.len() - 1] == n@);
                }
            }
            proof {
                assert forall|k: int| 0 <= k < out@.len() implies exists|x: int|
                    0 <= x < q + 1 && (#[trigger] out@[k])@.tool_name == names@[x]@ by {
                    if k < out@.len() - 1 || ws@.len() == 0 {
                        let x = choose|x: int| 0 <= x < q && out@[k]@.tool_name == names@[x]@;
                    } else {
                        assert(out@[k]@.tool_name == names@[q as int]@);
                    }
                }
                let now = Seq::new(out@.len(), |k: int| out@[k]@.tool_name);
                assert forall|x: int|
                    0 <= x < q + 1 && is_duplicate(ks, #[trigger] names@[x]@) implies now.contains(
                    names@[x]@,
                ) by {
                    if x < q {
                        let y = choose|y: int| 0 <= y < names0.len() && names0[y] == names@[x]@;
                        assert(out@[y] == out0[y]);
                        assert(now[y] == names0[y]);
                    } else {
                        assert(names@[x]@ == n@);
                        assert(dup_warnings(ks, n@).len() > 0);
                        assert(views(ws@).len() == ws@.len());
                        assert(now[now.len() - 1] == n@);
                    }
                }
            }
            q = q + 1;
        }
        proof {
            let now = Seq::new(out@.len(), |k: int| out@[k]@.tool_name);
            assert forall|i: int|
                0 <= i < tools@.len() && is_duplicate(ks, #[trigger] tools@[i].info.name@) implies now.contains(
                tools@[i].info.name@,
            ) by {
                let x = choose|x: int| 0 <= x < views(names@).len() && views(names@)[x] == tools@[i].info.name@;
                assert(names@[x]@ == tools@[i].info.name@);
            }
        }
        out
    }
}

/// A name that some tool has is counted at least once.
pub proof fn lemma_count_positive(ks: Seq<DupKey>, n: Seq<char>, x: int)
    requires
        0 <= x < ks.len(),
        ks[x].name == n,
    ensures
        name_count(ks, n) > 0,
    decreases ks.len(),
{
    if x < ks.len() - 1 {
        lemma_count_positive(ks.drop_last(), n, x);
    }
}

// ── validating a whole registry ──────────────────────────────────────

/// `base` followed by the entries of `extra` that it does not hold yet,
/// each added once.
pub open spec fn append_new(base: Seq<Seq<char>>, extra: Seq<Seq<char>>) -> Seq<Seq<char>>
    decreases extra.len(),
{
    if extra.len() == 0 {
        base
    } else {
        let b = append_new(base, extra.drop_last());
        if b.contains(extra.last()) {
            b
        } else {
            b.push(extra.last())
        }
    }
}

/// No earlier tool has the name of tool `i`.
pub open spec fn first_of_name(ks: Seq<DupKey>, i: int) -> bool {
    forall|j: int| 0 <= j < i ==> ks[j].name != ks[i].name
}

/// The passes of an argument check.
pub open spec fn args_passed(outcome: Result<(), String>) -> Seq<Seq<char>> {
    match outcome {
        Ok(_) => seq!["arguments pass schema validation"@],
        Err(_) => seq![],
    }
}

/// The failures of an argument check.
pub open spec fn args_failed(outcome: Result<(), String>) -> Seq<Seq<char>> {
    match outcome {
        Ok(_) => seq![],
        Err(e) => seq!["arguments pass schema validation: "@ + e@],
    }
}

/// The combined report of tool `i` of `ts`, whose argument check answered
/// `outcome`.
pub open spec fn combined_report(ts: Seq<ToolEntry>, i: int, outcome: Result<(), String>) -> ReportModel {
    let t = ts[i];
    let ks = dup_keys(ts);
    let base = schema_warnings(t.schema.params@) + permission_warnings(t.info@);
    ReportModel {
        tool_name: t.info.name@,
        passed: schema_passed(t.info.name@, t.info.description@, t.schema.params@) + args_passed(
            outcome,
        ) + permission_passed(t.info@),
        failed: schema_failed(t.info.name@, t.info.description@, t.schema.params@) + args_failed(
            outcome,
        ) + permission_failed(t.info@),
        warnings: if first_of_name(ks, i) {
            append_new(base, dup_warnings(ks, t.info.name@))
        } else {
            base
        },
    }
}

fn append_all(v: &mut Vec<String>, w: Vec<String>)
    ensures
        views(final(v)@) == views(old(v)@) + views(w@),
{
    let mut w = w;
    let ghost wv = views(w@);
    let ghost v0 = views(v@);
    let mut i: usize = 0;
    let n = w.len();
    while i < n
        invariant
            i <= n,
            n == wv.len(),
            views(v@) == v0 + wv.take(i as int),
            views(w@) == wv,
        decreases n - i,
    {
        let ghost before = views(v@);
        v.push(w[i].clone());
        assert(views(v@) =~= before.push(wv[i as int]));
        i = i + 1;
        assert(views(v@) =~= v0 + wv.take(i as int));
    }
    assert(wv.take(i as int) =~= wv);
}

fn append_new_exec(v: &mut Vec<String>, extra: &Vec<String>)
    ensures
        views(final(v)@) == append_new(views(old(v)@), views(extra@)),
{
    let ghost ev = views(extra@);
    let mut i: usize = 0;
    while i < extra.len()
        invariant
            i <= extra@.len(),
            ev == views(extra@),
            views(v@) == append_new(views(old(v)@), ev.take(i as int)),
        decreases extra@.len() - i,
    {
        assert(ev.take(i + 1).drop_last() =~= ev.take(i as int));
        if !contains_str(v.as_slice(), extra[i].as_str()) {
            let ghost before = views(v@);
            v.push(extra[i].clone());
            assert(views(v@) =~= before.push(ev[i as int]));
        }
        i = i + 1;
    }
    assert(ev.take(i as int) =~= ev);
}

fn is_first_of_name(tools: &Vec<ToolEntry>, i: usize) -> (r: bool)
    requires
        i < tools@.len(),
    ensures
        r == first_of_name(dup_keys(tools@), i as int),
{
    let ghost ks = dup_keys(tools@);
    let mut j: usize = 0;
    while j < i
        invariant
            j <= i < tools@.len(),
            ks == dup_keys(tools@),
            forall|x: int| 0 <= x < j ==> ks[x].name != ks[i as int].name,
        decreases i - j,
    {
        if tools[j].info.name == tools[i].info.name {
            assert(ks[j as int].name == ks[i as int].name);
            return false;
        }
        j = j + 1;
    }
    true
}

impl ToolValidator {
    /// Runs the schema, argument and permission checks on every tool and
    /// merges them into one report per tool; the first report of a
    /// duplicated name also gets the duplicate warnings it lacks.
    /// `arg_outcomes[i]` is what tool `i` answered to empty arguments.
    pub fn validate_all(tools: &Vec<ToolEntry>, arg_outcomes: &Vec<Result<(), String>>) -> (r: Vec<
        ValidationReport,
    >)
        requires
            arg_outcomes@.len() == tools@.len(),
        ensures
            r@.len() == tools@.len(),
            forall|i: int|
                0 <= i < r@.len() ==> (#[trigger] r@[i])@ == combined_report(tools@, i, arg_outcomes@[i]),
    {
        let mut out: Vec<ValidationReport> = Vec::new();
        let mut i: usize = 0;
        while i < tools.len()
            invariant
                i <= tools@.len(),
                arg_outcomes@.len() == tools@.len(),
                out@.len() == i,
                forall|k: int|
                    0 <= k < i ==> (#[trigger] out@[k])@ == combined_report(tools@, k, arg_outcomes@[k]),
            decreases tools@.len() - i,
        {
            let t = &tools[i];
            let sr = Self::validate_schema(t);
            let ar = Self::validate_args(t.info.name.as_str(), &arg_outcomes[i]);
            let pr = Self::validate_permissions(&t.info);
            let mut combined = ValidationReport::new(t.info.name.as_str());
            append_all(&mut combined.passed, sr.passed);
            append_all(&mut combined.passed, ar.passed);
            append_all(&mut combined.passed, pr.passed);
            append_all(&mut combined.failed, sr.failed);
            append_all(&mut combined.failed, ar.failed);
            append_all(&mut combined.failed, pr.failed);
            append_all(&mut combined.warnings, sr.warnings);
            append_all(&mut combined.warnings, ar.warnings);
            append_all(&mut combined.warnings, pr.warnings);
            if is_first_of_name(tools, i) {
                let dw = duplicate_warnings(tools, t.info.name.as_str());
                append_new_exec(&mut combined.warnings, &dw);
            }
            proof {
                let m = combined_report(tools@, i as int, arg_outcomes@[i as int]);
                assert(combined@.passed =~= m.passed);
                assert(combined@.failed =~= m.failed);
                assert(combined@.warnings =~= m.warnings) by {
                    assert(schema_warnings(t.schema.params@) + seq![] + permission_warnings(t.info@)
                        =~= schema_warnings(t.schema.params@) + permission_warnings(t.info@));
                }
            }
            out.push(combined);
            i = i + 1;
        }
        out
    }
}

// ── the doctor ───────────────────────────────────────────────────────

/// Outcome of one doctor check.
#[derive(Debug, Clone, Copy, PartialEq, Eq)]
pub enum DoctorCheckStatus {
    Pass,
    Fail,
    Warn,
}

/// One doctor check of one tool.
#[derive(Debug, Clone)]
pub struct DoctorCheckItem {
    pub name: String,
    pub status: DoctorCheckStatus,
    pub detail: Option<String>,
}

/// The doctor checks of one tool.
#[derive(Debug, Clone)]
pub struct ToolDoctorCheck {
    pub tool_name: String,
    pub checks: Vec<DoctorCheckItem>,
}

/// A check of the registry as a whole.
#[derive(Debug, Clone)]
pub struct EcosystemCheck {
    pub name: String,
    pub status: DoctorCheckStatus,
    pub detail: Option<String>,
}

/// Counts over a doctor report.
#[derive(Debug, Clone, Copy, PartialEq, Eq)]
pub struct DoctorSummary {
    pub total_tools: usize,
    pub healthy_tools: usize,
    pub unhealthy_tools: usize,
    pub total_checks: usize,
    pub passed: usize,
    pub failed: usize,
    pub warnings: usize,
}

/// The doctor's findings.
#[derive(Debug, Clone)]
pub struct DoctorReport {
    /// No check failed.
    pub healthy: bool,
    pub tool_checks: Vec<ToolDoctorCheck>,
    pub ecosystem_checks: Vec<EcosystemCheck>,
    pub summary: DoctorSummary,
}

/// Model of a check: name, status and detail.
pub struct ItemModel {
    pub name: Seq<char>,
    pub status: DoctorCheckStatus,
    pub detail: Option<Seq<char>>,
}

/// Model of an optional string.
pub open spec fn opt_view(o: Option<String>) -> Option<Seq<char>> {
    match o {
        Some(t) => Some(t@),
        None => None,
    }
}

/// The models of a tool's checks.
pub open spec fn item_views(s: Seq<DoctorCheckItem>) -> Seq<ItemModel> {
    s.map_values(|c: DoctorCheckItem| ItemModel { name: c.name@, status: c.status, detail: opt_view(c.detail) })
}

/// The models of the registry-wide checks.
pub open spec fn eco_views(s: Seq<EcosystemCheck>) -> Seq<ItemModel> {
    s.map_values(|c: EcosystemCheck| ItemModel { name: c.name@, status: c.status, detail: opt_view(c.detail) })
}

/// A check model.
pub open spec fn im(name: Seq<char>, status: DoctorCheckStatus, detail: Option<Seq<char>>) -> ItemModel {
    ItemModel { name, status, detail }
}

/// `Pass` when `ok`, else `bad`.
pub open spec fn pass_if(ok: bool, bad: DoctorCheckStatus) -> DoctorCheckStatus {
    if ok {
        DoctorCheckStatus::Pass
    } else {
        bad
    }
}

/// The parameters' schema is a JSON object of type `object`.
pub open spec fn schema_valid(p: ParamsModel) -> bool {
    p.is_object && p.type_field == Some("object"@)
}

/// Every required entry is a string with a property definition.
pub open spec fn all_documented(p: ParamsModel) -> bool {
    match p.required {
        Some(r) => r.len() == 0 || match p.properties {
            Some(props) => forall|k: int|
                0 <= k < r.len() ==> (#[trigger] r[k] matches Some(f) && props.contains(f)),
            None => false,
        },
        None => true,
    }
}

/// How many entries the `required` array has.
pub open spec fn required_len(p: ParamsModel) -> nat {
    match p.required {
        Some(r) => r.len(),
        None => 0,
    }
}

/// The check that required parameters are documented.
pub open spec fn required_item(p: ParamsModel) -> ItemModel {
    let n = required_len(p);
    let documented = all_documented(p);
    if !schema_valid(p) {
        im("required params documented"@, DoctorCheckStatus::Fail, Some("Cannot check — schema is invalid"@))
    } else {
        im(
            "required params documented"@,
            if documented {
                DoctorCheckStatus::Pass
            } else if n > 0 && p.properties is None {
                DoctorCheckStatus::Fail
            } else {
                DoctorCheckStatus::Warn
            },
            if !documented && n > 0 {
                Some(dec(n) + " required param(s) but not all have property definitions"@)
            } else if n == 0 {
                Some("No required parameters declared"@)
            } else {
                None
            },
        )
    }
}

/// `"true"` or `"false"`.
pub open spec fn bool_text(b: bool) -> Seq<char> {
    if b {
        "true"@
    } else {
        "false"@
    }
}

/// The safety check of a tool.
pub open spec fn safety_item(t: crate::tools::ToolModel) -> ItemModel {
    let tagged = t.tags.contains("dangerous"@);
    if t.is_dangerous != tagged {
        im(
            "safety consistency"@,
            DoctorCheckStatus::Warn,
            Some("is_dangerous()="@ + bool_text(t.is_dangerous) + " but 'dangerous' tag is "@ + if tagged {
                "present"@
            } else {
                "missing"@
            }),
        )
    } else if t.is_dangerous && !t.requires_approval {
        im(
            "dangerous requires approval"@,
            DoctorCheckStatus::Warn,
            Some("Tool is dangerous but does not require approval"@),
        )
    } else {
        im("safety consistency"@, DoctorCheckStatus::Pass, None)
    }
}

/// The doctor checks of one tool, in order.
pub open spec fn tool_items(t: ToolEntry) -> Seq<ItemModel> {
    let name = t.info.name@;
    let desc = t.info.description@;
    let p = t.schema.params@;
    let tags = views(t.info.tags@);
    let fname = t.schema.function_name@;
    seq![
        im("unique name"@, pass_if(name.len() != 0, DoctorCheckStatus::Fail), if name.len() == 0 {
            Some("Tool name is empty"@)
        } else {
            None
        }),
        im("description"@, pass_if(desc.len() != 0, DoctorCheckStatus::Fail), if desc.len() == 0 {
            Some("Tool has no description"@)
        } else {
            None
        }),
        im("valid JSON schema"@, pass_if(schema_valid(p), DoctorCheckStatus::Fail), if !schema_valid(p) {
            Some("Schema is not a valid JSON Schema object"@)
        } else {
            None
        }),
        required_item(p),
        im("capability tags"@, pass_if(tags.len() != 0, DoctorCheckStatus::Fail), if tags.len() == 0 {
            Some("Tool has no capability tags"@)
        } else {
            None
        }),
        safety_item(t.info@),
        if tags.contains("safe"@) && !t.info.is_safe {
            im(
                "safe tag consistency"@,
                DoctorCheckStatus::Warn,
                Some("Tool has 'safe' tag but is_safe() returns false"@),
            )
        } else {
            im("safe tag consistency"@, DoctorCheckStatus::Pass, None)
        },
        im("schema name matches"@, pass_if(fname == name, DoctorCheckStatus::Fail), if fname != name {
            Some("Schema function name '"@ + fname + "' != tool name '"@ + name + "'"@)
        } else {
            None
        }),
    ]
}

/// The sixth doctor check of a tool is its safety check, and it passes
/// exactly when the tool's `is_dangerous` flag agrees with its `dangerous`
/// tag and a dangerous tool requires approval. A consistently dangerous
/// tool that does not require approval is warned about by name.
pub proof fn law_safety_check(t: ToolEntry)
    ensures
        tool_items(t).len() > 5,
        tool_items(t)[5].status == DoctorCheckStatus::Pass <==> (t.info.is_dangerous == views(
            t.info.tags@,
        ).contains("dangerous"@) && (t.info.is_dangerous ==> t.info.requires_approval)),
        t.info.is_dangerous && views(t.info.tags@).contains("dangerous"@) && !t.info.requires_approval
            ==> tool_items(t)[5] == im(
            "dangerous requires approval"@,
            DoctorCheckStatus::Warn,
            Some("Tool is dangerous but does not require approval"@),
        ),
{
}

/// The checks `check_one` runs on a single tool, in order.
pub open spec fn single_tool_items(t: ToolEntry) -> Seq<ItemModel> {
    let name = t.info.name@;
    seq![
        im("unique name"@, pass_if(name.len() != 0, DoctorCheckStatus::Fail), None),
        im("description"@, pass_if(t.info.description@.len() != 0, DoctorCheckStatus::Fail), None),
        im("valid JSON schema"@, pass_if(schema_valid(t.schema.params@), DoctorCheckStatus::Fail), None),
        im("capability tags"@, pass_if(views(t.info.tags@).len() != 0, DoctorCheckStatus::Fail), None),
        im("safety consistency"@, DoctorCheckStatus::Pass, None),
        im("schema name matches"@, pass_if(t.schema.function_name@ == name, DoctorCheckStatus::Fail), None),
    ]
}

/// How many of `s` have status `st`.
pub open spec fn count_status(s: Seq<ItemModel>, st: DoctorCheckStatus) -> nat
    decreases s.len(),
{
    if s.len() == 0 {
        0
    } else {
        count_status(s.drop_last(), st) + if s.last().status == st {
            1nat
        } else {
            0nat
        }
    }
}

/// All checks of all tools, tool by tool.
pub open spec fn all_tool_items(tcs: Seq<ToolDoctorCheck>) -> Seq<ItemModel>
    decreases tcs.len(),
{
    if tcs.len() == 0 {
        seq![]
    } else {
        all_tool_items(tcs.drop_last()) + item_views(tcs.last().checks@)
    }
}

/// How many tools have no failed check.
pub open spec fn healthy_count(tcs: Seq<ToolDoctorCheck>) -> nat
    decreases tcs.len(),
{
    if tcs.len() == 0 {
        0
    } else {
        healthy_count(tcs.drop_last()) + if count_status(
            item_views(tcs.last().checks@),
            DoctorCheckStatus::Fail,
        ) == 0 {
            1nat
        } else {
            0nat
        }
    }
}

/// What a report's summary and health flag say of its checks.
pub open spec fn summary_ok(r: DoctorReport) -> bool {
    let all = all_tool_items(r.tool_checks@) + eco_views(r.ecosystem_checks@);
    &&& r.summary.passed == count_status(all, DoctorCheckStatus::Pass)
    &&& r.summary.failed == count_status(all, DoctorCheckStatus::Fail)
    &&& r.summary.warnings == count_status(all, DoctorCheckStatus::Warn)
    &&& r.summary.total_checks == all.len()
    &&& r.healthy == (count_status(all, DoctorCheckStatus::Fail) == 0)
    &&& r.summary.total_tools == r.tool_checks@.len()
    &&& r.summary.healthy_tools == healthy_count(r.tool_checks@)
    &&& r.summary.unhealthy_tools == r.tool_checks@.len() - healthy_count(r.tool_checks@)
}

/// Every check has exactly one status.
pub proof fn lemma_counts_add_up(s: Seq<ItemModel>)
    ensures
        count_status(s, DoctorCheckStatus::Pass) + count_status(s, DoctorCheckStatus::Fail)
            + count_status(s, DoctorCheckStatus::Warn) == s.len(),
    decreases s.len(),
{
    if s.len() > 0 {
        lemma_counts_add_up(s.drop_last());
    }
}

proof fn lemma_count_le(s: Seq<ItemModel>, st: DoctorCheckStatus)
    ensures
        count_status(s, st) <= s.len(),
    decreases s.len(),
{
    if s.len() > 0 {
        lemma_count_le(s.drop_last(), st);
    }
}

proof fn lemma_count_concat(a: Seq<ItemModel>, b: Seq<ItemModel>, st: DoctorCheckStatus)
    ensures
        count_status(a + b, st) == count_status(a, st) + count_status(b, st),
    decreases b.len(),
{
    if b.len() == 0 {
        assert(a + b =~= a);
    } else {
        lemma_count_concat(a, b.drop_last(), st);
        assert((a + b).drop_last() =~= a + b.drop_last());
    }
}

proof fn lemma_healthy_le(tcs: Seq<ToolDoctorCheck>)
    ensures
        healthy_count(tcs) <= tcs.len(),
    decreases tcs.len(),
{
    if tcs.len() > 0 {
        lemma_healthy_le(tcs.drop_last());
    }
}

fn status_item(name: &str, status: DoctorCheckStatus, detail: Option<String>) -> (r: DoctorCheckItem)
    ensures
        r.name@ == name@,
        r.status == status,
        opt_view(r.detail) == opt_view(detail),
{
    DoctorCheckItem { name: owned(name), status, detail }
}

fn some_text(s: &str) -> (r: Option<String>)
    ensures
        opt_view(r) == Some(s@),
{
    Some(owned(s))
}

fn bool_string(b: bool) -> (r: &'static str)
    ensures
        r@ == bool_text(b),
{
    if b {
        "true"
    } else {
        "false"
    }
}

fn documented_exec(p: &SchemaParams) -> (r: bool)
    ensures
        r == all_documented(p@),
{
    match &p.required {
        None => true,
        Some(req) => {
            if req.len() == 0 {
                return true;
            }
            match &p.properties {
                None => false,
                Some(props) => {
                    let mut k: usize = 0;
                    while k < req.len()
                        invariant
                            k <= req@.len(),
                            req@.len() > 0,
                            p@.required == Some(opt_views(req@)),
                            p@.properties == Some(views(props@)),
                            forall|x: int|
                                0 <= x < k ==> (#[trigger] opt_views(req@)[x] matches Some(f)
                                    && views(props@).contains(f)),
                        decreases req@.len() - k,
                    {
                        match &req[k] {
                            None => {
                                assert(opt_views(req@)[k as int] is None);
                                assert(!(opt_views(req@)[k as int] matches Some(f) && views(
                                    props@,
                                ).contains(f)));
                                return false;
                            },
                            Some(f) => {
                                if !contains_str(props.as_slice(), f.as_str()) {
                                    assert(opt_views(req@)[k as int] == Some(f@));
                                    assert(!(opt_views(req@)[k as int] matches Some(g) && views(
                                        props@,
                                    ).contains(g)));
                                    return false;
                                }
                            },
                        }
                        k = k + 1;
                    }
                    true
                },
            }
        },
    }
}

fn schema_valid_exec(p: &SchemaParams) -> (r: bool)
    ensures
        r == schema_valid(p@),
{
    proof {
        reveal_strlit("object");
    }
    p.is_object && match &p.type_field {
        Some(t) => str_eq(t.as_str(), "object"),
        None => false,
    }
}

/// The doctor checks of one tool.
pub fn check_tool(t: &ToolEntry) -> (r: ToolDoctorCheck)
    ensures
        r.tool_name@ == t.info.name@,
        item_views(r.checks@) == tool_items(*t),
{
    let name = t.info.name.as_str();
    let p = &t.schema.params;
    let mut checks: Vec<DoctorCheckItem> = Vec::new();
    let name_empty = name.is_empty();
    checks.push(status_item(
        "unique name",
        if name_empty { DoctorCheckStatus::Fail } else { DoctorCheckStatus::Pass },
        if name_empty { some_text("Tool name is empty") } else { None },
    ));
    let desc_empty = t.info.description.as_str().is_empty();
    checks.push(status_item(
        "description",
        if desc_empty { DoctorCheckStatus::Fail } else { DoctorCheckStatus::Pass },
        if desc_empty { some_text("Tool has no description") } else { None },
    ));
    let valid = schema_valid_exec(p);
    checks.push(status_item(
        "valid JSON schema",
        if valid { DoctorCheckStatus::Pass } else { DoctorCheckStatus::Fail },
        if valid { None } else { some_text("Schema is not a valid JSON Schema object") },
    ));
    if valid {
        let n: usize = match &p.required {
            Some(r) => r.len(),
            None => 0,
        };
        let documented = documented_exec(p);
        let status = if documented {
            DoctorCheckStatus::Pass
        } else if n > 0 && p.properties.is_none() {
            DoctorCheckStatus::Fail
        } else {
            DoctorCheckStatus::Warn
        };
        let detail = if !documented && n > 0 {
            let mut m = u64_to_string(n as u64);
            push_all(&mut m, " required param(s) but not all have property definitions");
            Some(m)
        } else if n == 0 {
            some_text("No required parameters declared")
        } else {
            None
        };
        checks.push(status_item("required params documented", status, detail));
    } else {
        checks.push(status_item(
            "required params documented",
            DoctorCheckStatus::Fail,
            some_text("Cannot check — schema is invalid"),
        ));
    }
    let no_tags = t.info.tags.len() == 0;
    checks.push(status_item(
        "capability tags",
        if no_tags { DoctorCheckStatus::Fail } else { DoctorCheckStatus::Pass },
        if no_tags { some_text("Tool has no capability tags") } else { None },
    ));
    let tagged = contains_str(t.info.tags.as_slice(), "dangerous");
    if t.info.is_dangerous != tagged {
        let mut m = owned("is_dangerous()=");
        push_all(&mut m, bool_string(t.info.is_dangerous));
        push_all(&mut m, " but 'dangerous' tag is ");
        push_all(&mut m, if tagged { "present" } else { "missing" });
        checks.push(status_item("safety consistency", DoctorCheckStatus::Warn, Some(m)));
    } else if t.info.is_dangerous && !t.info.requires_approval {
        checks.push(status_item(
            "dangerous requires approval",
            DoctorCheckStatus::Warn,
            some_text("Tool is dangerous but does not require approval"),
        ));
    } else {
        checks.push(status_item("safety consistency", DoctorCheckStatus::Pass, None));
    }
    if contains_str(t.info.tags.as_slice(), "safe") && !t.info.is_safe {
        checks.push(status_item(
            "safe tag consistency",
            DoctorCheckStatus::Warn,
            some_text("Tool has 'safe' tag but is_safe() returns false"),
        ));
    } else {
        checks.push(status_item("safe tag consistency", DoctorCheckStatus::Pass, None));
    }
    let matches_name = t.schema.function_name == t.info.name;
    if matches_name {
        checks.push(status_item("schema name matches", DoctorCheckStatus::Pass, None));
    } else {
        let mut m = owned("Schema function name '");
        push_all(&mut m, t.schema.function_name.as_str());
        push_all(&mut m, "' != tool name '");
        push_all(&mut m, name);
        push_all(&mut m, "'");
        checks.push(status_item("schema name matches", DoctorCheckStatus::Fail, Some(m)));
    }
    assert(item_views(checks@) =~= tool_items(*t));
    ToolDoctorCheck { tool_name: owned(name), checks }
}

impl DoctorReport {
    /// A healthy report with no checks.
    pub fn new() -> (r: DoctorReport)
        ensures
            r.healthy,
            r.tool_checks@.len() == 0,
            r.ecosystem_checks@.len() == 0,
            r.summary == (DoctorSummary {
                total_tools: 0,
                healthy_tools: 0,
                unhealthy_tools: 0,
                total_checks: 0,
                passed: 0,
                failed: 0,
                warnings: 0,
            }),
    {
        DoctorReport {
            healthy: true,
            tool_checks: Vec::new(),
            ecosystem_checks: Vec::new(),
            summary: DoctorSummary {
                total_tools: 0,
                healthy_tools: 0,
                unhealthy_tools: 0,
                total_checks: 0,
                passed: 0,
                failed: 0,
                warnings: 0,
            },
        }
    }

    /// Counts one more check; a failed one makes the report unhealthy.
    pub fn add_check(&mut self, item: &DoctorCheckItem)
        requires
            old(self).summary.total_checks < usize::MAX,
            old(self).summary.passed < usize::MAX,
            old(self).summary.failed < usize::MAX,
            old(self).summary.warnings < usize::MAX,
        ensures
            final(self).tool_checks == old(self).tool_checks,
            final(self).ecosystem_checks == old(self).ecosystem_checks,
            final(self).summary == (DoctorSummary {
                passed: (old(self).summary.passed + if item.status == DoctorCheckStatus::Pass {
                    1int
                } else {
                    0int
                }) as usize,
                failed: (old(self).summary.failed + if item.status == DoctorCheckStatus::Fail {
                    1int
                } else {
                    0int
                }) as usize,
                warnings: (old(self).summary.warnings + if item.status == DoctorCheckStatus::Warn {
                    1int
                } else {
                    0int
                }) as usize,
                total_checks: (old(self).summary.total_checks + 1) as usize,
                ..old(self).summary
            }),
            final(self).healthy == (old(self).healthy && item.status != DoctorCheckStatus::Fail),
    {
        self.count_status_of(item.status);
    }

    fn count_status_of(&mut self, st: DoctorCheckStatus)
        requires
            old(self).summary.total_checks < usize::MAX,
            old(self).summary.passed < usize::MAX,
            old(self).summary.failed < usize::MAX,
            old(self).summary.warnings < usize::MAX,
        ensures
            final(self).tool_checks == old(self).tool_checks,
            final(self).ecosystem_checks == old(self).ecosystem_checks,
            final(self).summary == (DoctorSummary {
                passed: (old(self).summary.passed + if st == DoctorCheckStatus::Pass {
                    1int
                } else {
                    0int
                }) as usize,
                failed: (old(self).summary.failed + if st == DoctorCheckStatus::Fail {
                    1int
                } else {
                    0int
                }) as usize,
                warnings: (old(self).summary.warnings + if st == DoctorCheckStatus::Warn {
                    1int
                } else {
                    0int
                }) as usize,
                total_checks: (old(self).summary.total_checks + 1) as usize,
                ..old(self).summary
            }),
            final(self).healthy == (old(self).healthy && st != DoctorCheckStatus::Fail),
    {
        match st {
            DoctorCheckStatus::Pass => self.summary.passed = self.summary.passed + 1,
            DoctorCheckStatus::Fail => {
                self.summary.failed = self.summary.failed + 1;
                self.healthy = false;
            },
            DoctorCheckStatus::Warn => self.summary.warnings = self.summary.warnings + 1,
        }
        self.summary.total_checks = self.summary.total_checks + 1;
    }

    /// Recounts the summary and the health flag from the checks.
    pub fn recalc(&mut self)
        requires
            all_tool_items(old(self).tool_checks@).len() + old(self).ecosystem_checks@.len()
                < usize::MAX,
        ensures
            final(self).tool_checks == old(self).tool_checks,
            final(self).ecosystem_checks == old(self).ecosystem_checks,
            summary_ok(*final(self)),
    {
        self.healthy = true;
        self.summary.passed = 0;
        self.summary.failed = 0;
        self.summary.warnings = 0;
        self.summary.total_checks = 0;
        let ghost tcs = self.tool_checks@;
        let ghost limit = all_tool_items(tcs).len() + self.ecosystem_checks@.len();
        let mut healthy_tools: usize = 0;
        let mut t: usize = 0;
        while t < self.tool_checks.len()
            invariant
                t <= tcs.len(),
                tcs == self.tool_checks@,
                tcs == old(self).tool_checks@,
                self.tool_checks == old(self).tool_checks,
                self.ecosystem_checks == old(self).ecosystem_checks,
                limit == all_tool_items(tcs).len() + self.ecosystem_checks@.len(),
                limit < usize::MAX,
                self.summary.passed == count_status(all_tool_items(tcs.take(t as int)), DoctorCheckStatus::Pass),
                self.summary.failed == count_status(all_tool_items(tcs.take(t as int)), DoctorCheckStatus::Fail),
                self.summary.warnings == count_status(all_tool_items(tcs.take(t as int)), DoctorCheckStatus::Warn),
                self.summary.total_checks == all_tool_items(tcs.take(t as int)).len(),
                self.healthy == (count_status(all_tool_items(tcs.take(t as int)), DoctorCheckStatus::Fail) == 0),
                all_tool_items(tcs.take(t as int)).len() <= all_tool_items(tcs).len(),
                healthy_tools == healthy_count(tcs.take(t as int)),
                healthy_tools <= t,
            decreases tcs.len() - t,
        {
            let ghost prefix = all_tool_items(tcs.take(t as int));
            proof {
                assert(tcs.take(t + 1).drop_last() =~= tcs.take(t as int));
                lemma_items_prefix_len(tcs, t as int + 1);
            }
            let mut c: usize = 0;
            let mut tool_failed = false;
            let ghost items = item_views(self.tool_checks@[t as int].checks@);
            while c < self.tool_checks[t].checks.len()
                invariant
                    t < tcs.len(),
                    c <= items.len(),
                    tcs == self.tool_checks@,
                    self.tool_checks == old(self).tool_checks,
                    self.ecosystem_checks == old(self).ecosystem_checks,
                    items == item_views(tcs[t as int].checks@),
                    all_tool_items(tcs.take(t + 1)) == prefix + items,
                    all_tool_items(tcs.take(t + 1)).len() <= all_tool_items(tcs).len(),
                    limit == all_tool_items(tcs).len() + self.ecosystem_checks@.len(),
                    limit < usize::MAX,
                    self.summary.passed == count_status(prefix + items.take(c as int), DoctorCheckStatus::Pass),
                    self.summary.failed == count_status(prefix + items.take(c as int), DoctorCheckStatus::Fail),
                    self.summary.warnings == count_status(prefix + items.take(c as int), DoctorCheckStatus::Warn),
                    self.summary.total_checks == (prefix + items.take(c as int)).len(),
                    self.healthy == (count_status(prefix + items.take(c as int), DoctorCheckStatus::Fail) == 0),
                    tool_failed == (count_status(items.take(c as int), DoctorCheckStatus::Fail) > 0),
                    healthy_tools == healthy_count(tcs.take(t as int)),
                    healthy_tools <= t,
                decreases items.len() - c,
            {
                let st = self.tool_checks[t].checks[c].status;
                proof {
                    let cur = prefix + items.take(c as int);
                    lemma_count_le(cur, DoctorCheckStatus::Pass);
                    lemma_count_le(cur, DoctorCheckStatus::Fail);
                    lemma_count_le(cur, DoctorCheckStatus::Warn);
                    assert((prefix + items.take(c + 1)).drop_last() =~= cur);
                    assert(items.take(c + 1).drop_last() =~= items.take(c as int));
                    assert(items[c as int].status == st);
                    assert(prefix + items.take(c + 1) =~= (prefix + items).take(prefix.len() + c + 1));
                }
                self.count_status_of(st);
                if matches!(st, DoctorCheckStatus::Fail) {
                    tool_failed = true;
                }
                c = c + 1;
            }
            proof {
                assert(items.take(c as int) =~= items);
            }
            if !tool_failed {
                healthy_tools = healthy_tools + 1;
            }
            t = t + 1;
        }
        proof {
            assert(tcs.take(t as int) =~= tcs);
        }
        let ghost tool_items_all = all_tool_items(tcs);
        let ghost eco = eco_views(self.ecosystem_checks@);
        let mut e: usize = 0;
        while e < self.ecosystem_checks.len()
            invariant
                e <= eco.len(),
                tcs == self.tool_checks@,
                self.tool_checks == old(self).tool_checks,
                self.ecosystem_checks == old(self).ecosystem_checks,
                eco == eco_views(self.ecosystem_checks@),
                limit == tool_items_all.len() + eco.len(),
                limit < usize::MAX,
                self.summary.passed == count_status(tool_items_all + eco.take(e as int), DoctorCheckStatus::Pass),
                self.summary.failed == count_status(tool_items_all + eco.take(e as int), DoctorCheckStatus::Fail),
                self.summary.warnings == count_status(tool_items_all + eco.take(e as int), DoctorCheckStatus::Warn),
                self.summary.total_checks == (tool_items_all + eco.take(e as int)).len(),
                self.healthy == (count_status(tool_items_all + eco.take(e as int), DoctorCheckStatus::Fail) == 0),
            decreases eco.len() - e,
        {
            let st = self.ecosystem_checks[e].status;
            proof {
                let cur = tool_items_all + eco.take(e as int);
                lemma_count_le(cur, DoctorCheckStatus::Pass);
                lemma_count_le(cur, DoctorCheckStatus::Fail);
                lemma_count_le(cur, DoctorCheckStatus::Warn);
                assert((tool_items_all + eco.take(e + 1)).drop_last() =~= cur);
                assert(eco[e as int].status == st);
            }
            self.count_status_of(st);
            e = e + 1;
        }
        proof {
            assert(eco.take(e as int) =~= eco);
            lemma_healthy_le(tcs);
        }
        self.summary.total_tools = self.tool_checks.len();
        self.summary.healthy_tools = healthy_tools;
        self.summary.unhealthy_tools = self.tool_checks.len() - healthy_tools;
    }
}

/// The joined names of the duplicate reports, as the doctor shows them.
pub open spec fn dup_detail(ns: Seq<Seq<char>>) -> Seq<char> {
    dec(ns.len()) + " duplicate(s) detected: "@ + crate::fallback::join_comma(ns)
}

/// The doctor's registry-wide checks, given the names it found duplicated.
pub open spec fn ecosystem_items(n_tools: nat, dups: Seq<Seq<char>>) -> Seq<ItemModel> {
    seq![
        im("duplicate tools"@, pass_if(dups.len() == 0, DoctorCheckStatus::Fail), if dups.len() == 0 {
            None
        } else {
            Some(dup_detail(dups))
        }),
        im(
            "tool count"@,
            pass_if(n_tools != 0, DoctorCheckStatus::Warn),
            Some(dec(n_tools) + " tools registered"@),
        ),
    ]
}

/// `ns` lists each duplicated tool name once.
pub open spec fn lists_duplicates(ks: Seq<DupKey>, ns: Seq<Seq<char>>) -> bool {
    &&& crate::fallback::distinct(ns)
    &&& forall|k: int| 0 <= k < ns.len() ==> is_duplicate(ks, #[trigger] ns[k])
    &&& forall|i: int| 0 <= i < ks.len() && is_duplicate(ks, #[trigger] ks[i].name) ==> ns.contains(ks[i].name)
}

proof fn lemma_all_items_len(tcs: Seq<ToolDoctorCheck>, per: nat)
    requires
        forall|i: int| 0 <= i < tcs.len() ==> (#[trigger] tcs[i]).checks@.len() == per,
    ensures
        all_tool_items(tcs).len() == per * tcs.len(),
    decreases tcs.len(),
{
    if tcs.len() > 0 {
        let d = tcs.drop_last();
        assert forall|i: int| 0 <= i < d.len() implies (#[trigger] d[i]).checks@.len() == per by {
            assert(d[i] == tcs[i]);
        }
        lemma_all_items_len(d, per);
        assert(per * tcs.len() == per * d.len() + per) by (nonlinear_arith)
            requires
                tcs.len() == d.len() + 1,
        ;
    }
}

fn join_names(ns: &Vec<String>) -> (r: String)
    ensures
        r@ == crate::fallback::join_comma(views(ns@)),
{
    let mut m = String::new();
    let mut j: usize = 0;
    while j < ns.len()
        invariant
            j <= ns@.len(),
            m@ == crate::fallback::join_comma(views(ns@).take(j as int)),
        decreases ns@.len() - j,
    {
        let ghost prev = views(ns@).take(j as int);
        if j > 0 {
            push_all(&mut m, ", ");
        }
        push_all(&mut m, ns[j].as_str());
        j = j + 1;
        proof {
            let cur = views(ns@).take(j as int);
            assert(cur.drop_last() =~= prev);
            assert(cur.last() == ns@[j - 1]@);
            if j == 1 {
                assert(crate::fallback::join_comma(prev) =~= seq![]);
                assert(crate::fallback::join_comma(cur) == cur[0]);
            }
        }
    }
    assert(views(ns@).take(j as int) =~= views(ns@));
    m
}

/// Health checks of a whole tool registry.
pub struct ToolDoctor;

impl ToolDoctor {
    /// Runs the doctor checks on every tool and the registry-wide checks
    /// (duplicates, tool count), and sums them up.
    pub fn check(tools: &Vec<ToolEntry>) -> (r: DoctorReport)
        requires
            8 * tools@.len() + 2 < usize::MAX,
        ensures
            r.tool_checks@.len() == tools@.len(),
            forall|i: int|
                0 <= i < tools@.len() ==> (#[trigger] r.tool_checks@[i]).tool_name@ == tools@[i].info.name@
                    && item_views(r.tool_checks@[i].checks@) == tool_items(tools@[i]),
            exists|ns: Seq<Seq<char>>|
                lists_duplicates(dup_keys(tools@), ns) && eco_views(r.ecosystem_checks@)
                    == ecosystem_items(tools@.len(), ns),
            summary_ok(r),
    {
        let mut report = DoctorReport::new();
        let mut i: usize = 0;
        while i < tools.len()
            invariant
                i <= tools@.len(),
                report.tool_checks@.len() == i,
                report.ecosystem_checks@.len() == 0,
                forall|k: int|
                    0 <= k < i ==> (#[trigger] report.tool_checks@[k]).tool_name@ == tools@[k].info.name@
                        && item_views(report.tool_checks@[k].checks@) == tool_items(tools@[k]),
            decreases tools@.len() - i,
        {
            let c = check_tool(&tools[i]);
            report.tool_checks.push(c);
            i = i + 1;
        }
        let dups = ToolValidator::detect_duplicates(tools);
        let mut names: Vec<String> = Vec::new();
        let mut d: usize = 0;
        while d < dups.len()
            invariant
                d <= dups@.len(),
                names@.len() == d,
                forall|k: int| 0 <= k < d ==> (#[trigger] names@[k])@ == dups@[k]@.tool_name,
            decreases dups@.len() - d,
        {
            names.push(dups[d].tool_name.clone());
            d = d + 1;
        }
        let ghost ns = views(names@);
        proof {
            let ks = dup_keys(tools@);
            let rn = Seq::new(dups@.len(), |k: int| dups@[k]@.tool_name);
            assert(ns =~= rn);
            assert forall|x: int| 0 <= x < ks.len() && is_duplicate(ks, #[trigger] ks[x].name) implies ns.contains(
                ks[x].name,
            ) by {
                assert(ks[x].name == tools@[x].info.name@);
            }
        }
        let has_dupes = dups.len() > 0;
        let dup_detail_text = if has_dupes {
            let mut m = u64_to_string(dups.len() as u64);
            push_all(&mut m, " duplicate(s) detected: ");
            let joined = join_names(&names);
            push_all(&mut m, joined.as_str());
            Some(m)
        } else {
            None
        };
        report.ecosystem_checks.push(
            EcosystemCheck {
                name: owned("duplicate tools"),
                status: if has_dupes {
                    DoctorCheckStatus::Fail
                } else {
                    DoctorCheckStatus::Pass
                },
                detail: dup_detail_text,
            },
        );
        let mut count_text = u64_to_string(tools.len() as u64);
        push_all(&mut count_text, " tools registered");
        report.ecosystem_checks.push(
            EcosystemCheck {
                name: owned("tool count"),
                status: if tools.len() == 0 {
                    DoctorCheckStatus::Warn
                } else {
                    DoctorCheckStatus::Pass
                },
                detail: Some(count_text),
            },
        );
        assert(eco_views(report.ecosystem_checks@) =~= ecosystem_items(tools@.len(), ns));
        proof {
            assert forall|k: int| 0 <= k < report.tool_checks@.len() implies (#[trigger] report.tool_checks@[k]).checks@.len() == 8 by {
                assert(item_views(report.tool_checks@[k].checks@).len() == 8);
            }
            lemma_all_items_len(report.tool_checks@, 8);
        }
        let ghost tcs = report.tool_checks@;
        let ghost eco = report.ecosystem_checks;
        report.recalc();
        assert(lists_duplicates(dup_keys(tools@), ns));
        report
    }

    /// The doctor's short check of the tool named `tool_name`: name,
    /// description, schema, tags and schema name; `None` when no tool has
    /// that name.
    pub fn check_one(tools: &Vec<ToolEntry>, tool_name: &str) -> (r: Option<DoctorReport>)
        ensures
            match r {
                None => forall|i: int| 0 <= i < tools@.len() ==> (#[trigger] tools@[i]).info.name@ != tool_name@,
                Some(rep) => exists|i: int|
                    0 <= i < tools@.len() && (#[trigger] tools@[i]).info.name@ == tool_name@ && (forall|j: int|
                        0 <= j < i ==> tools@[j].info.name@ != tool_name@) && rep.tool_checks@.len() == 1
                        && rep.tool_checks@[0].tool_name@ == tool_name@ && item_views(
                        rep.tool_checks@[0].checks@,
                    ) == single_tool_items(tools@[i]) && rep.ecosystem_checks@.len() == 0 && summary_ok(
                        rep,
                    ),
            },
    {
        let mut i: usize = 0;
        while i < tools.len()
            invariant
                i <= tools@.len(),
                forall|j: int| 0 <= j < i ==> (#[trigger] tools@[j]).info.name@ != tool_name@,
            decreases tools@.len() - i,
        {
            if str_eq(tools[i].info.name.as_str(), tool_name) {
                let t = &tools[i];
                let mut checks: Vec<DoctorCheckItem> = Vec::new();
                let name_empty = t.info.name.as_str().is_empty();
                checks.push(status_item(
                    "unique name",
                    if name_empty { DoctorCheckStatus::Fail } else { DoctorCheckStatus::Pass },
                    None,
                ));
                let desc_empty = t.info.description.as_str().is_empty();
                checks.push(status_item(
                    "description",
                    if desc_empty { DoctorCheckStatus::Fail } else { DoctorCheckStatus::Pass },
                    None,
                ));
                let valid = schema_valid_exec(&t.schema.params);
                checks.push(status_item(
                    "valid JSON schema",
                    if valid { DoctorCheckStatus::Pass } else { DoctorCheckStatus::Fail },
                    None,
                ));
                let no_tags = t.info.tags.len() == 0;
                checks.push(status_item(
                    "capability tags",
                    if no_tags { DoctorCheckStatus::Fail } else { DoctorCheckStatus::Pass },
                    None,
                ));
                checks.push(status_item("safety consistency", DoctorCheckStatus::Pass, None));
                let same = t.schema.function_name == t.info.name;
                checks.push(status_item(
                    "schema name matches",
                    if same { DoctorCheckStatus::Pass } else { DoctorCheckStatus::Fail },
                    None,
                ));
                assert(item_views(checks@) =~= single_tool_items(tools@[i as int]));
                let mut report = DoctorReport::new();
                report.tool_checks.push(ToolDoctorCheck { tool_name: owned(t.info.name.as_str()), checks });
                proof {
                    let tcs = report.tool_checks@;
                    assert(tcs.drop_last() =~= Seq::<ToolDoctorCheck>::empty());
                    assert(all_tool_items(tcs.drop_last()) =~= Seq::<ItemModel>::empty());
                    assert(tcs.last() == tcs[0]);
                    assert(all_tool_items(tcs) =~= item_views(tcs[0].checks@));
                }
                report.recalc();
                return Some(report);
            }
            i = i + 1;
        }
        None
    }
}

proof fn lemma_items_prefix_len(tcs: Seq<ToolDoctorCheck>, t: int)
    requires
        0 <= t <= tcs.len(),
    ensures
        all_tool_items(tcs.take(t)).len() <= all_tool_items(tcs).len(),
    decreases tcs.len() - t,
{
    if t < tcs.len() {
        lemma_items_prefix_len(tcs, t + 1);
        assert(tcs.take(t + 1).drop_last() =~= tcs.take(t));
    } else {
        assert(tcs.take(t) =~= tcs);
    }
}

} // verus!
