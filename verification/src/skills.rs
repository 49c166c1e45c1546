//! Skills: markdown instructions with frontmatter, and the registry that
//! indexes them by name and checks their tool dependencies.
use vstd::prelude::*;
use crate::text::{
    chars_of, contains_str, find_seq, find_spec, is_prefix, is_ws, lead_ws, lemma_find_first,
    lemma_lead_ws, lemma_lead_ws_is, lemma_trail_ws, lemma_trail_ws_is, occurs_at, owned, push_all,
    slice_of, str_eq, string_of, trail_ws, trim, trim_chars, trim_end, trim_start, views,
};

verus! {

/// A skill loaded from a markdown file.
#[derive(Debug, Clone)]
pub struct Skill {
    /// Unique skill name.
    pub name: String,
    /// Human-readable description.
    pub description: String,
    /// The markdown body (instructions).
    pub content: String,
    /// Tools the skill needs.
    pub required_tools: Vec<String>,
    /// Tools the skill can use when present.
    pub recommended_tools: Vec<String>,
    /// Whether the skill is enabled.
    pub enabled: bool,
    /// The file the skill was read from, if any.
    pub source_path: Option<String>,
}

/// Mathematical model of a [`Skill`].
pub struct SkillModel {
    pub name: Seq<char>,
    pub description: Seq<char>,
    pub content: Seq<char>,
    pub required_tools: Seq<Seq<char>>,
    pub recommended_tools: Seq<Seq<char>>,
    pub enabled: bool,
    pub source_path: Option<Seq<char>>,
}

/// The view of an optional string.
pub open spec fn opt_view(o: Option<String>) -> Option<Seq<char>> {
    match o {
        Some(s) => Some(s@),
        None => None,
    }
}

impl View for Skill {
    type V = SkillModel;

    open spec fn view(&self) -> SkillModel {
        SkillModel {
            name: self.name@,
            description: self.description@,
            content: self.content@,
            required_tools: views(self.required_tools@),
            recommended_tools: views(self.recommended_tools@),
            enabled: self.enabled,
            source_path: opt_view(self.source_path),
        }
    }
}

/// Frontmatter of a skill file.
#[derive(Debug, Clone)]
pub struct SkillFrontmatter {
    pub name: String,
    pub description: String,
    pub required_tools: Vec<String>,
    pub recommended_tools: Vec<String>,
    pub enabled: bool,
}

/// Required and recommended tools of one skill.
#[derive(Debug, Clone)]
pub struct SkillTools {
    pub skill_name: String,
    pub required: Vec<String>,
    pub recommended: Vec<String>,
}

/// Tool dependencies of a skill that the available tools do not cover.
#[derive(Debug, Clone)]
pub struct SkillValidation {
    pub skill_name: String,
    pub missing_required: Vec<String>,
    pub missing_recommended: Vec<String>,
    /// True when the skill requires tools and none of them is available.
    pub has_errors: bool,
}

/// Mathematical model of a [`SkillValidation`].
pub struct ValidationModel {
    pub skill_name: Seq<char>,
    pub missing_required: Seq<Seq<char>>,
    pub missing_recommended: Seq<Seq<char>>,
    pub has_errors: bool,
}

impl View for SkillValidation {
    type V = ValidationModel;

    open spec fn view(&self) -> ValidationModel {
        ValidationModel {
            skill_name: self.skill_name@,
            missing_required: views(self.missing_required@),
            missing_recommended: views(self.missing_recommended@),
            has_errors: self.has_errors,
        }
    }
}

/// The tools of `tools` that `available` does not hold, in order.
pub open spec fn missing(tools: Seq<Seq<char>>, available: Seq<Seq<char>>) -> Seq<Seq<char>>
    decreases tools.len(),
{
    if tools.len() == 0 {
        seq![]
    } else if available.contains(tools.last()) {
        missing(tools.drop_last(), available)
    } else {
        missing(tools.drop_last(), available).push(tools.last())
    }
}

/// What checking one skill against the available tools reports, if anything.
pub open spec fn check_skill(s: SkillModel, available: Seq<Seq<char>>) -> Option<ValidationModel> {
    let mr = missing(s.required_tools, available);
    let mo = missing(s.recommended_tools, available);
    if mr.len() > 0 || mo.len() > 0 {
        Some(
            ValidationModel {
                skill_name: s.name,
                missing_required: mr,
                missing_recommended: mo,
                has_errors: s.required_tools.len() > 0 && mr.len() == s.required_tools.len(),
            },
        )
    } else {
        None
    }
}

/// The reports for a sequence of skills, in order.
pub open spec fn check_all(skills: Seq<SkillModel>, available: Seq<Seq<char>>) -> Seq<ValidationModel>
    decreases skills.len(),
{
    if skills.len() == 0 {
        seq![]
    } else {
        match check_skill(skills.last(), available) {
            Some(v) => check_all(skills.drop_last(), available).push(v),
            None => check_all(skills.drop_last(), available),
        }
    }
}

/// The enabled skills of a sequence, in order.
pub open spec fn enabled_of(skills: Seq<SkillModel>) -> Seq<SkillModel>
    decreases skills.len(),
{
    if skills.len() == 0 {
        seq![]
    } else if skills.last().enabled {
        enabled_of(skills.drop_last()).push(skills.last())
    } else {
        enabled_of(skills.drop_last())
    }
}

/// Models of a sequence of borrowed skills.
pub open spec fn ref_views(v: Seq<&Skill>) -> Seq<SkillModel> {
    v.map_values(|s: &Skill| s@)
}

/// Models of a sequence of skills.
pub open spec fn skill_views(v: Seq<Skill>) -> Seq<SkillModel> {
    v.map_values(|s: Skill| s@)
}

/// Models of a sequence of validation reports.
pub open spec fn validation_views(v: Seq<SkillValidation>) -> Seq<ValidationModel> {
    v.map_values(|s: SkillValidation| s@)
}

/// No two skills share a name.
pub open spec fn unique_names(s: Seq<SkillModel>) -> bool {
    forall|i: int, j: int| 0 <= i < s.len() && 0 <= j < s.len() && i != j ==> s[i].name != s[j].name
}

/// The position of the skill named `name`, if any.
pub open spec fn position_of(s: Seq<SkillModel>, name: Seq<char>) -> Option<int> {
    if exists|i: int| 0 <= i < s.len() && s[i].name == name {
        Some(choose|i: int| 0 <= i < s.len() && s[i].name == name)
    } else {
        None
    }
}

/// The skills indexed by name.
pub open spec fn as_map(s: Seq<SkillModel>) -> Map<Seq<char>, SkillModel> {
    Map::new(
        |n: Seq<char>| exists|i: int| 0 <= i < s.len() && s[i].name == n,
        |n: Seq<char>| s[choose|i: int| 0 <= i < s.len() && s[i].name == n],
    )
}

/// A registry of skills, indexed by name.
#[derive(Debug, Clone)]
pub struct SkillRegistry {
    skills: Vec<Skill>,
    skills_dir: Option<String>,
}

impl View for SkillRegistry {
    type V = Seq<SkillModel>;

    /// The skills in registration order.
    closed spec fn view(&self) -> Seq<SkillModel> {
        skill_views(self.skills@)
    }
}

pub proof fn lemma_position_unique(s: Seq<SkillModel>, k: int)
    requires
        unique_names(s),
        0 <= k < s.len(),
    ensures
        position_of(s, s[k].name) == Some(k),
        as_map(s).contains_key(s[k].name),
        as_map(s)[s[k].name] == s[k],
{
}

impl SkillRegistry {
    /// The registry's invariant: skill names are unique.
    pub open spec fn wf(&self) -> bool {
        unique_names(self@)
    }

    /// The directory the skills were read from.
    pub closed spec fn dir(&self) -> Option<Seq<char>> {
        opt_view(self.skills_dir)
    }

    /// Creates an empty registry.
    pub fn new() -> (r: SkillRegistry)
        ensures
            r@ == Seq::<SkillModel>::empty(),
            r.wf(),
            r.dir() is None,
    {
        let r = SkillRegistry { skills: Vec::new(), skills_dir: None };
        assert(skill_views(r.skills@) =~= Seq::<SkillModel>::empty());
        r
    }

    /// Creates an empty registry that records its source directory.
    pub fn with_dir(dir: String) -> (r: SkillRegistry)
        ensures
            r@ == Seq::<SkillModel>::empty(),
            r.wf(),
            r.dir() == Some(dir@),
    {
        let r = SkillRegistry { skills: Vec::new(), skills_dir: Some(dir) };
        assert(skill_views(r.skills@) =~= Seq::<SkillModel>::empty());
        r
    }

    fn index_of(&self, name: &str) -> (r: Option<usize>)
        ensures
            match r {
                Some(i) => i < self@.len() && self@[i as int].name == name@,
                None => forall|k: int| 0 <= k < self@.len() ==> self@[k].name != name@,
            },
    {
        let mut i: usize = 0;
        while i < self.skills.len()
            invariant
                i <= self.skills.len(),
                self@ == skill_views(self.skills@),
                forall|k: int| 0 <= k < i ==> self@[k].name != name@,
            decreases self.skills.len() - i,
        {
            if str_eq(self.skills[i].name.as_str(), name) {
                return Some(i);
            }
            i = i + 1;
        }
        None
    }

    /// The skill named `name`.
    pub fn get(&self, name: &str) -> (r: Option<&Skill>)
        requires
            self.wf(),
        ensures
            match r {
                Some(s) => as_map(self@).contains_key(name@) && s@ == as_map(self@)[name@],
                None => !as_map(self@).contains_key(name@),
            },
    {
        match self.index_of(name) {
            Some(i) => {
                proof {
                    lemma_position_unique(self@, i as int);
                }
                Some(&self.skills[i])
            },
            None => None,
        }
    }

    /// All skills, in registration order.
    pub fn all(&self) -> (r: Vec<&Skill>)
        ensures
            ref_views(r@) == self@,
    {
        let mut r: Vec<&Skill> = Vec::new();
        let mut i: usize = 0;
        while i < self.skills.len()
            invariant
                i <= self.skills.len(),
                self@ == skill_views(self.skills@),
                ref_views(r@) == self@.take(i as int),
            decreases self.skills.len() - i,
        {
            let ghost before = r@;
            r.push(&self.skills[i]);
            assert(r@ == before.push(&self.skills@[i as int]));
            assert(ref_views(r@) =~= ref_views(before).push(self@[i as int]));
            i = i + 1;
            assert(ref_views(r@) =~= self@.take(i as int));
        }
        assert(self@.take(i as int) =~= self@);
        r
    }

    /// The enabled skills, in registration order.
    pub fn enabled(&self) -> (r: Vec<&Skill>)
        ensures
            ref_views(r@) == enabled_of(self@),
    {
        let mut r: Vec<&Skill> = Vec::new();
        let mut i: usize = 0;
        while i < self.skills.len()
            invariant
                i <= self.skills.len(),
                self@ == skill_views(self.skills@),
                ref_views(r@) == enabled_of(self@.take(i as int)),
            decreases self.skills.len() - i,
        {
            assert(self@.take(i + 1).drop_last() =~= self@.take(i as int));
            if self.skills[i].enabled {
                let ghost before = r@;
                r.push(&self.skills[i]);
                assert(ref_views(r@) =~= ref_views(before).push(self@[i as int]));
            }
            i = i + 1;
            assert(ref_views(r@) =~= enabled_of(self@.take(i as int)));
        }
        assert(self@.take(i as int) =~= self@);
        r
    }

    /// Whether a skill named `name` is registered.
    pub fn has(&self, name: &str) -> (r: bool)
        ensures
            r == as_map(self@).contains_key(name@),
    {
        match self.index_of(name) {
            Some(_) => true,
            None => false,
        }
    }

    /// Registers a skill, replacing any skill with the same name.
    pub fn register(&mut self, skill: Skill)
        requires
            old(self).wf(),
        ensures
            as_map(final(self)@) == as_map(old(self)@).insert(skill@.name, skill@),
            old(self)@.len() <= final(self)@.len() <= old(self)@.len() + 1,
            unique_names(final(self)@),
            final(self).dir() == old(self).dir(),
    {
        let ghost pre = self@;
        let ghost sm = skill@;
        match self.index_of(skill.name.as_str()) {
            Some(i) => {
                self.skills.set(i, skill);
                assert(skill_views(self.skills@) =~= pre.update(i as int, sm));
                assert(self@[i as int] == sm);
                assert forall|n: Seq<char>| #[trigger] as_map(self@).contains_key(n) == as_map(
                    pre,
                ).insert(sm.name, sm).contains_key(n) by {
                    if n == sm.name {
                        assert(self@[i as int].name == n);
                    } else {
                        if as_map(pre).contains_key(n) {
                            let k = choose|k: int| 0 <= k < pre.len() && pre[k].name == n;
                            assert(self@[k].name == n);
                        }
                        if as_map(self@).contains_key(n) {
                            let k = choose|k: int| 0 <= k < self@.len() && self@[k].name == n;
                            assert(pre[k].name == n);
                        }
                    }
                }
            },
            None => {
                self.skills.push(skill);
                assert(skill_views(self.skills@) =~= pre.push(sm));
                assert(self@[pre.len() as int] == sm);
                assert forall|n: Seq<char>| #[trigger] as_map(self@).contains_key(n) == as_map(
                    pre,
                ).insert(sm.name, sm).contains_key(n) by {
                    if n == sm.name {
                        assert(self@[pre.len() as int].name == n);
                    } else {
                        if as_map(pre).contains_key(n) {
                            let k = choose|k: int| 0 <= k < pre.len() && pre[k].name == n;
                            assert(self@[k].name == n);
                        }
                        if as_map(self@).contains_key(n) {
                            let k = choose|k: int| 0 <= k < self@.len() && self@[k].name == n;
                            assert(pre[k].name == n);
                        }
                    }
                }
            },
        }
        assert(unique_names(self@));
        assert(as_map(self@) =~= as_map(pre).insert(sm.name, sm)) by {
            assert forall|n: Seq<char>| #[trigger] as_map(self@).contains_key(n) implies as_map(
                self@,
            )[n] == as_map(pre).insert(sm.name, sm)[n] by {
                let k = choose|k: int| 0 <= k < self@.len() && self@[k].name == n;
                lemma_position_unique(self@, k);
                if n != sm.name {
                    assert(pre[k] == self@[k]);
                    lemma_position_unique(pre, k);
                }
            }
        }
    }

    /// Removes the skill named `name` and returns it.
    pub fn remove(&mut self, name: &str) -> (r: Option<Skill>)
        requires
            old(self).wf(),
        ensures
            as_map(final(self)@) == as_map(old(self)@).remove(name@),
            unique_names(final(self)@),
            match r {
                Some(s) => as_map(old(self)@).contains_key(name@) && s@ == as_map(old(self)@)[name@],
                None => !as_map(old(self)@).contains_key(name@),
            },
            final(self).dir() == old(self).dir(),
    {
        let ghost pre = self@;
        match self.index_of(name) {
            Some(i) => {
                proof {
                    lemma_position_unique(pre, i as int);
                }
                let s = self.skills.remove(i);
                assert(skill_views(self.skills@) =~= pre.remove(i as int));
                assert(unique_names(skill_views(self.skills@))) by {
                    let v = skill_views(self.skills@);
                    assert forall|a: int, b: int|
                        0 <= a < v.len() && 0 <= b < v.len() && a != b implies v[a].name
                        != v[b].name by {
                        let a2 = if a < i { a } else { a + 1 };
                        let b2 = if b < i { b } else { b + 1 };
                        assert(v[a] == pre[a2]);
                        assert(v[b] == pre[b2]);
                    }
                }
                assert(as_map(self@) =~= as_map(pre).remove(name@)) by {
                    assert forall|n: Seq<char>| #[trigger] as_map(self@).contains_key(n)
                        == as_map(pre).remove(name@).contains_key(n) by {
                        if as_map(pre).contains_key(n) && n != name@ {
                            let k = choose|k: int| 0 <= k < pre.len() && pre[k].name == n;
                            if k < i {
                                assert(self@[k].name == n);
                            } else {
                                assert(self@[k - 1].name == n);
                            }
                        }
                    }
                    assert forall|n: Seq<char>| #[trigger] as_map(self@).contains_key(n) implies as_map(
                        self@,
                    )[n] == as_map(pre).remove(name@)[n] by {
                        let k = choose|k: int| 0 <= k < self@.len() && self@[k].name == n;
                        lemma_position_unique(self@, k);
                        if k < i {
                            lemma_position_unique(pre, k);
                        } else {
                            lemma_position_unique(pre, k + 1);
                        }
                    }
                }
                Some(s)
            },
            None => {
                assert(as_map(pre).remove(name@) =~= as_map(pre));
                None
            },
        }
    }

    /// Number of registered skills.
    pub fn len(&self) -> (r: usize)
        requires
            self.wf(),
        ensures
            r == self@.len(),
            r == as_map(self@).len(),
    {
        proof {
            lemma_map_len(self@);
        }
        self.skills.len()
    }

    /// Whether no skill is registered.
    pub fn is_empty(&self) -> (r: bool)
        ensures
            r == (self@.len() == 0),
    {
        self.skills.len() == 0
    }

    /// The directory the skills were read from.
    pub fn skills_dir(&self) -> (r: Option<&str>)
        ensures
            match r {
                Some(d) => self.dir() == Some(d@),
                None => self.dir() is None,
            },
    {
        match &self.skills_dir {
            Some(d) => Some(d.as_str()),
            None => None,
        }
    }

    /// The required and recommended tools of the skill named `name`.
    pub fn tools_for_skill(&self, name: &str) -> (r: Option<SkillTools>)
        requires
            self.wf(),
        ensures
            match r {
                Some(t) => {
                    &&& as_map(self@).contains_key(name@)
                    &&& t.skill_name@ == as_map(self@)[name@].name
                    &&& views(t.required@) == as_map(self@)[name@].required_tools
                    &&& views(t.recommended@) == as_map(self@)[name@].recommended_tools
                },
                None => !as_map(self@).contains_key(name@),
            },
    {
        match self.get(name) {
            Some(s) => {
                let required = clone_strings(&s.required_tools);
                let recommended = clone_strings(&s.recommended_tools);
                Some(SkillTools { skill_name: s.name.clone(), required, recommended })
            },
            None => None,
        }
    }

    /// Checks every skill's tools against `available_tools`: one report per
    /// skill that misses a required or a recommended tool, in registration
    /// order.
    pub fn validate_tools(&self, available_tools: &[String]) -> (r: Vec<SkillValidation>)
        ensures
            validation_views(r@) == check_all(self@, views(available_tools@)),
    {
        let ghost avail = views(available_tools@);
        let mut results: Vec<SkillValidation> = Vec::new();
        let mut i: usize = 0;
        while i < self.skills.len()
            invariant
                i <= self.skills.len(),
                self@ == skill_views(self.skills@),
                avail == views(available_tools@),
                validation_views(results@) == check_all(self@.take(i as int), avail),
            decreases self.skills.len() - i,
        {
            assert(self@.take(i + 1).drop_last() =~= self@.take(i as int));
            assert(self@.take(i + 1).last() == self@[i as int]);
            let skill = &self.skills[i];
            let mr = missing_from(&skill.required_tools, available_tools);
            let mo = missing_from(&skill.recommended_tools, available_tools);
            if mr.len() > 0 || mo.len() > 0 {
                let has_errors = skill.required_tools.len() > 0 && mr.len()
                    == skill.required_tools.len();
                let v = SkillValidation {
                    skill_name: skill.name.clone(),
                    missing_required: mr,
                    missing_recommended: mo,
                    has_errors,
                };
                let ghost before = validation_views(results@);
                results.push(v);
                assert(validation_views(results@) =~= before.push(v@));
            }
            i = i + 1;
        }
        assert(self@.take(i as int) =~= self@);
        results
    }
}

pub proof fn lemma_map_len(s: Seq<SkillModel>)
    requires
        unique_names(s),
    ensures
        as_map(s).len() == s.len(),
    decreases s.len(),
{
    let names = s.map_values(|m: SkillModel| m.name);
    assert(names.no_duplicates());
    assert(as_map(s).dom() =~= names.to_set()) by {
        assert forall|n: Seq<char>| #[trigger] as_map(s).dom().contains(n) implies names.to_set().contains(n) by {
            let k = choose|k: int| 0 <= k < s.len() && s[k].name == n;
            assert(names[k] == n);
        }
        assert forall|n: Seq<char>| #[trigger] names.to_set().contains(n) implies as_map(s).dom().contains(n) by {
            let k = choose|k: int| 0 <= k < names.len() && names[k] == n;
            assert(s[k].name == n);
        }
    }
    names.unique_seq_to_set();
}

/// Copies a list of strings.
pub fn clone_strings(v: &Vec<String>) -> (r: Vec<String>)
    ensures
        views(r@) == views(v@),
{
    let mut r: Vec<String> = Vec::new();
    let mut i: usize = 0;
    while i < v.len()
        invariant
            i <= v.len(),
            views(r@) == views(v@).take(i as int),
        decreases v.len() - i,
    {
        let ghost before = r@;
        r.push(v[i].clone());
        assert(views(r@) =~= views(before).push(v@[i as int]@));
        i = i + 1;
        assert(views(r@) =~= views(v@).take(i as int));
    }
    assert(views(v@).take(i as int) =~= views(v@));
    r
}

/// The tools of `tools` that `available` does not hold, in order.
pub fn missing_from(tools: &Vec<String>, available: &[String]) -> (r: Vec<String>)
    ensures
        views(r@) == missing(views(tools@), views(available@)),
{
    let ghost t = views(tools@);
    let mut r: Vec<String> = Vec::new();
    let mut i: usize = 0;
    while i < tools.len()
        invariant
            i <= tools.len(),
            t == views(tools@),
            views(r@) == missing(t.take(i as int), views(available@)),
        decreases tools.len() - i,
    {
        assert(t.take(i + 1).drop_last() =~= t.take(i as int));
        assert(t.take(i + 1).last() == tools@[i as int]@);
        if !contains_str(available, tools[i].as_str()) {
            let ghost before = views(r@);
            r.push(tools[i].clone());
            assert(views(r@) =~= before.push(tools@[i as int]@));
        }
        i = i + 1;
    }
    assert(t.take(i as int) =~= t);
    r
}

// ── markdown framing ─────────────────────────────────────────────────

/// A skill file split into its parts.
#[derive(Debug, Clone)]
pub enum MarkdownParts {
    /// `---` frontmatter `---` followed by a body.
    Frontmatter { frontmatter: String, body: String },
    /// No frontmatter: the whole (trimmed) content.
    Plain { content: String },
}

/// What splitting the text `c` yields: `Ok((frontmatter, body))` when the
/// trimmed text starts with `---` and a later line starts with `---`,
/// `Err(content)` otherwise.
pub open spec fn split_result(c: Seq<char>) -> Result<(Seq<char>, Seq<char>), Seq<char>> {
    split_trimmed(trim(c))
}

/// [`split_result`] on text that is already trimmed.
pub open spec fn split_trimmed(t: Seq<char>) -> Result<(Seq<char>, Seq<char>), Seq<char>> {
    if is_prefix("---"@, t) {
        let rest = t.skip(3);
        match find_spec(rest, "\n---"@) {
            Some(k) => Ok((rest.take(k), trim(rest.skip(k + 4)))),
            None => Err(t),
        }
    } else {
        Err(t)
    }
}

/// The view of [`MarkdownParts`].
pub open spec fn parts_view(p: MarkdownParts) -> Result<(Seq<char>, Seq<char>), Seq<char>> {
    match p {
        MarkdownParts::Frontmatter { frontmatter, body } => Ok((frontmatter@, body@)),
        MarkdownParts::Plain { content } => Err(content@),
    }
}

/// Position of the first `\n---` in `rest`.
fn find_closing(rest: &[char]) -> (r: Option<usize>)
    ensures
        match r {
            Some(k) => find_spec(rest@, "\n---"@) == Some(k as int) && k + 4 <= rest@.len(),
            None => find_spec(rest@, "\n---"@) is None,
        },
{
    proof {
        reveal_strlit("\n---");
    }
    let pat = chars_of("\n---");
    assert(pat@.len() == 4);
    find_seq(rest, pat.as_slice())
}

/// Whether the characters start with `---`.
fn starts_with_dashes(t: &[char]) -> (r: bool)
    ensures
        r == is_prefix("---"@, t@),
        r ==> t@.len() >= 3,
{
    proof {
        reveal_strlit("---");
    }
    let r = t.len() >= 3 && t[0] == '-' && t[1] == '-' && t[2] == '-';
    proof {
        if r {
            assert(t@.take(3) =~= "---"@);
        }
        if is_prefix("---"@, t@) {
            assert(t@.take(3)[0] == '-');
            assert(t@.take(3)[1] == '-');
            assert(t@.take(3)[2] == '-');
        }
    }
    r
}

/// Splits skill markdown into frontmatter and body.
pub fn split_frontmatter(content: &str) -> (r: MarkdownParts)
    ensures
        parts_view(r) == split_result(content@),
{
    let cs = chars_of(content);
    let t = trim_chars(cs.as_slice());
    split_trimmed_chars(t)
}

fn split_trimmed_chars(t: Vec<char>) -> (r: MarkdownParts)
    ensures
        parts_view(r) == split_trimmed(t@),
{
    if starts_with_dashes(t.as_slice()) {
        let rest = slice_of(t.as_slice(), 3, t.len());
        assert(rest@ =~= t@.skip(3));
        match find_closing(rest.as_slice()) {
            Some(k) => {
                let fm = slice_of(rest.as_slice(), 0, k);
                assert(fm@ =~= rest@.take(k as int));
                let after = slice_of(rest.as_slice(), k + 4, rest.len());
                assert(after@ =~= rest@.skip(k + 4));
                let body = trim_chars(after.as_slice());
                return MarkdownParts::Frontmatter {
                    frontmatter: string_of(fm.as_slice()),
                    body: string_of(body.as_slice()),
                };
            },
            None => {},
        }
    }
    MarkdownParts::Plain { content: string_of(t.as_slice()) }
}

/// After the opening `---`, the closing delimiter of framed markdown is
/// found right after the frontmatter's last line.
#[verifier::spinoff_prover]
proof fn lemma_closing_found(fm: Seq<char>, tail: Seq<char>)
    requires
        fm.len() > 0,
        fm.last() == '\n',
        find_spec("\n"@ + fm, "\n---"@) is None,
    ensures
        find_spec("\n"@ + fm + "---"@ + tail, "\n---"@) == Some(fm.len() as int),
{
    reveal_strlit("\n");
    reveal_strlit("\n---");
    reveal_strlit("---");
    let pat = "\n---"@;
    let head = "\n"@ + fm;
    let r = head + "---"@ + tail;
    let f = fm.len() as int;
    assert(!exists|i: int| occurs_at(head, pat, i));
    assert(r.len() == f + 4 + tail.len());
    assert(r[f] == '\n') by {
        assert(r[f] == head[f]);
        assert(head[f] == fm[f - 1]);
    }
    assert(r.subrange(f, f + 4) =~= pat);
    assert forall|j: int| 0 <= j < f implies !occurs_at(r, pat, j) by {
        if occurs_at(r, pat, j) {
            if j + 4 <= f + 1 {
                assert forall|m: int| 0 <= m < 4 implies #[trigger] head.subrange(j, j + 4)[m]
                    == pat[m] by {
                    assert(head[j + m] == r[j + m]);
                    assert(r.subrange(j, j + 4)[m] == r[j + m]);
                }
                assert(head.subrange(j, j + 4) =~= pat);
                assert(occurs_at(head, pat, j));
            } else {
                assert(r.subrange(j, j + 4)[f - j] == r[f]);
                assert(pat[f - j] == '-');
            }
        }
    }
    lemma_find_first(r, pat, f);
}

/// Trimming a text that starts with a line break and continues with
/// `content` cut before its trailing whitespace gives `trim(content)`.
proof fn lemma_trim_after_break(content: Seq<char>)
    requires
        trail_ws(content) < content.len(),
    ensures
        trim("\n"@ + content.take(content.len() - trail_ws(content))) == trim(content),
{
    reveal_strlit("\n");
    lemma_lead_ws(content);
    lemma_trail_ws(content);
    let nc = content.len() as int;
    let a = lead_ws(content) as int;
    let b = trail_ws(content) as int;
    if a > nc - b - 1 {
        assert(is_ws(content[nc - b - 1]));
    }
    let cp = content.take(nc - b);
    let s1 = "\n"@ + cp;
    assert forall|k: int| 0 <= k < 1 + a implies is_ws(#[trigger] s1[k]) by {
        if k > 0 {
            assert(s1[k] == content[k - 1]);
        }
    }
    assert(s1[1 + a] == content[a]);
    lemma_lead_ws_is(s1, 1 + a);
    let u = content.subrange(a, nc - b);
    assert(trim_start(s1) =~= u);
    assert(u[u.len() - 1] == content[nc - b - 1]);
    lemma_trail_ws_is(u, 0);
    assert(trim_end(u) =~= u);
    let v = content.skip(a);
    assert forall|k: int| v.len() - b <= k < v.len() implies is_ws(#[trigger] v[k]) by {
        assert(v[k] == content[k + a]);
    }
    assert(v[v.len() - b - 1] == content[nc - b - 1]);
    lemma_trail_ws_is(v, b);
    assert(trim_end(v) =~= u);
}

/// What follows the closing `---` of framed markdown once the whole text
/// is trimmed: the line break and `content` without its trailing
/// whitespace, or nothing when `content` is blank.
spec fn framed_tail(content: Seq<char>) -> Seq<char> {
    if trail_ws(content) < content.len() {
        "\n"@ + content.take(content.len() - trail_ws(content))
    } else {
        Seq::<char>::empty()
    }
}

/// Trimming framed markdown only drops the body's trailing whitespace
/// (with the line break before a blank body).
proof fn lemma_trim_framed(fm: Seq<char>, content: Seq<char>)
    ensures
        trim("---\n"@ + fm + "---\n"@ + content) == "---"@ + ("\n"@ + fm + "---"@ + framed_tail(
            content,
        )),
        trim(framed_tail(content)) == trim(content),
{
    reveal_strlit("---\n");
    reveal_strlit("---");
    reveal_strlit("\n");
    let text = "---\n"@ + fm + "---\n"@ + content;
    let n = text.len() as int;
    let f = fm.len() as int;
    let nc = content.len() as int;
    assert(text[0] == '-');
    lemma_lead_ws_is(text, 0);
    assert(trim_start(text) =~= text);
    lemma_trail_ws(content);
    let b = trail_ws(content) as int;
    if b < nc {
        assert forall|k: int| n - b <= k < n implies is_ws(#[trigger] text[k]) by {
            assert(text[k] == content[k - (8 + f)]);
        }
        assert(text[n - b - 1] == content[nc - b - 1]);
        lemma_trail_ws_is(text, b);
        lemma_trim_after_break(content);
    } else {
        assert forall|k: int| n - (nc + 1) <= k < n implies is_ws(#[trigger] text[k]) by {
            if k > 7 + f {
                assert(text[k] == content[k - (8 + f)]);
            } else {
                assert(text[k] == '\n');
            }
        }
        assert(text[n - (nc + 1) - 1] == '-');
        lemma_trail_ws_is(text, nc + 1);
        assert forall|k: int| 0 <= k < nc implies is_ws(#[trigger] content[k]) by {}
        lemma_lead_ws_is(content, nc);
        lemma_trail_ws_is(Seq::<char>::empty(), 0);
        lemma_lead_ws_is(Seq::<char>::empty(), 0);
        assert(trim_start(content) =~= Seq::<char>::empty());
    }
    assert(trim(text) =~= "---"@ + ("\n"@ + fm + "---"@ + framed_tail(content)));
}

/// Reading back a skill file: splitting the text that
/// [`Skill::frame_markdown`] writes around a frontmatter `fm` and a body
/// `content` gives back the frontmatter's lines (after the line break of
/// the opening `---`, the last line break going to the closing `---`) and
/// the trimmed body, whenever `fm` ends with a line break and none of its
/// lines starts with `---`.
#[verifier::spinoff_prover]
pub proof fn law_framed_markdown_splits(fm: Seq<char>, content: Seq<char>)
    requires
        fm.len() > 0,
        fm.last() == '\n',
        find_spec("\n"@ + fm, "\n---"@) is None,
    ensures
        split_result("---\n"@ + fm + "---\n"@ + content) == Ok::<
            (Seq<char>, Seq<char>),
            Seq<char>,
        >(("\n"@ + fm.drop_last(), trim(content))),
{
    reveal_strlit("---");
    reveal_strlit("\n");
    lemma_trim_framed(fm, content);
    let tail = framed_tail(content);
    let rest = "\n"@ + fm + "---"@ + tail;
    let t = "---"@ + rest;
    let f = fm.len() as int;
    assert(trim("---\n"@ + fm + "---\n"@ + content) == t);
    assert(t.take(3) =~= "---"@);
    assert(is_prefix("---"@, t));
    assert(t.skip(3) =~= rest);
    lemma_closing_found(fm, tail);
    assert(find_spec(t.skip(3), "\n---"@) == Some(f));
    assert(rest.take(f) =~= "\n"@ + fm.drop_last());
    assert(rest.skip(f + 4) =~= tail);
    assert(split_trimmed(t) == Ok::<(Seq<char>, Seq<char>), Seq<char>>(
        ("\n"@ + fm.drop_last(), trim(tail)),
    ));
}

/// The file stem of a path as `std::path::Path::file_stem` computes it.
pub uninterp spec fn path_stem(p: Seq<char>) -> Option<Seq<char>>;

/// `std::path::Path::file_stem` (as UTF-8). The contract claims only that
/// the result is a function of the path; how std splits paths is not
/// restated.
#[verifier::external_body]
fn file_stem(path: &str) -> (r: Option<String>)
    ensures
        opt_view(r) == path_stem(path@),
{
    std::path::Path::new(path).file_stem().and_then(|s| s.to_str()).map(|s| s.to_string())
}

/// Error text for frontmatter without a name.
pub open spec fn missing_name_msg() -> Seq<char> {
    "Skill frontmatter must specify a 'name'"@
}

impl Skill {
    /// Builds a skill from parsed frontmatter and its body; fails when the
    /// frontmatter names no skill.
    pub fn from_frontmatter(fm: SkillFrontmatter, body: String, source_path: Option<String>) -> (r:
        Result<Skill, String>)
        ensures
            fm.name@.len() == 0 <==> r is Err,
            match r {
                Ok(s) => s@ == SkillModel {
                    name: fm.name@,
                    description: fm.description@,
                    content: body@,
                    required_tools: views(fm.required_tools@),
                    recommended_tools: views(fm.recommended_tools@),
                    enabled: fm.enabled,
                    source_path: opt_view(source_path),
                },
                Err(e) => e@ == missing_name_msg(),
            },
    {
        if fm.name.as_str().is_empty() {
            return Err(owned("Skill frontmatter must specify a 'name'"));
        }
        Ok(Skill {
            name: fm.name,
            description: fm.description,
            content: body,
            required_tools: fm.required_tools,
            recommended_tools: fm.recommended_tools,
            enabled: fm.enabled,
            source_path,
        })
    }

    /// Builds a skill from markdown without frontmatter: the name is the
    /// source file's stem, or `unnamed`.
    pub fn from_plain(content: String, source_path: Option<String>) -> (r: Skill)
        ensures
            r@.name == match source_path {
                Some(p) => match path_stem(p@) {
                    Some(stem) => stem,
                    None => "unnamed"@,
                },
                None => "unnamed"@,
            },
            r@.description.len() == 0,
            r@.content == content@,
            r@.required_tools.len() == 0,
            r@.recommended_tools.len() == 0,
            r@.enabled,
            r@.source_path == opt_view(source_path),
    {
        let name = match &source_path {
            Some(p) => match file_stem(p.as_str()) {
                Some(stem) => stem,
                None => owned("unnamed"),
            },
            None => owned("unnamed"),
        };
        let r = Skill {
            name,
            description: String::new(),
            content,
            required_tools: Vec::new(),
            recommended_tools: Vec::new(),
            enabled: true,
            source_path,
        };
        assert(views(r.required_tools@) =~= Seq::<Seq<char>>::empty());
        assert(views(r.recommended_tools@) =~= Seq::<Seq<char>>::empty());
        r
    }

    /// The markdown text of a skill given its rendered frontmatter:
    /// `---\n{frontmatter}---\n{content}`.
    pub fn frame_markdown(&self, frontmatter: &str) -> (r: String)
        ensures
            r@ == "---\n"@ + frontmatter@ + "---\n"@ + self.content@,
    {
        let mut s = owned("---\n");
        push_all(&mut s, frontmatter);
        push_all(&mut s, "---\n");
        push_all(&mut s, self.content.as_str());
        s
    }

    /// The frontmatter of this skill.
    pub fn frontmatter(&self) -> (r: SkillFrontmatter)
        ensures
            r.name@ == self.name@,
            r.description@ == self.description@,
            views(r.required_tools@) == views(self.required_tools@),
            views(r.recommended_tools@) == views(self.recommended_tools@),
            r.enabled == self.enabled,
    {
        SkillFrontmatter {
            name: self.name.clone(),
            description: self.description.clone(),
            required_tools: clone_strings(&self.required_tools),
            recommended_tools: clone_strings(&self.recommended_tools),
            enabled: self.enabled,
        }
    }
}

} // verus!
