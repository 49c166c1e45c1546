//! The tool catalog: registered tools grouped by their primary category,
//! with lookups by name, category, tag and safety.
use vstd::prelude::*;
use crate::fallback::distinct;
use crate::registry::ToolRegistry;
use crate::text::{
    contains_str, lemma_str_lt_asymmetric, lemma_str_lt_irreflexive, lemma_str_lt_total,
    lemma_str_lt_transitive, owned, push_all, str_eq, str_less, str_lt, views,
};
use crate::validator::ToolEntry;

verus! {

/// A tool as the catalog lists it.
#[derive(Debug, Clone)]
pub struct CatalogEntry {
    pub name: String,
    pub description: String,
    /// The tool's first capability tag, or `other`.
    pub category: String,
    pub tags: Vec<String>,
    pub is_safe: bool,
    pub is_dangerous: bool,
    pub requires_approval: bool,
}

/// The tools of one category.
#[derive(Debug, Clone)]
pub struct CategoryGroup {
    pub name: String,
    pub description: String,
    /// Sorted by name.
    pub tools: Vec<CatalogEntry>,
}

/// All registered tools, grouped by category.
#[derive(Debug, Clone)]
pub struct ToolCatalog {
    /// One entry per tool, in registration order.
    pub by_name: Vec<CatalogEntry>,
    /// One group per category.
    pub by_category: Vec<CategoryGroup>,
    /// Every tag of every tool, once each, sorted.
    pub all_tags: Vec<String>,
    /// How many tools the catalog holds.
    pub total: usize,
}

/// Model of a [`CatalogEntry`].
pub struct EntryModel {
    pub name: Seq<char>,
    pub description: Seq<char>,
    pub category: Seq<char>,
    pub tags: Seq<Seq<char>>,
    pub is_safe: bool,
    pub is_dangerous: bool,
    pub requires_approval: bool,
}

impl View for CatalogEntry {
    type V = EntryModel;

    open spec fn view(&self) -> EntryModel {
        EntryModel {
            name: self.name@,
            description: self.description@,
            category: self.category@,
            tags: views(self.tags@),
            is_safe: self.is_safe,
            is_dangerous: self.is_dangerous,
            requires_approval: self.requires_approval,
        }
    }
}

/// A tool's category: its first tag, or `other` when it has none.
pub open spec fn primary_category(tags: Seq<Seq<char>>) -> Seq<char> {
    if tags.len() > 0 {
        tags[0]
    } else {
        "other"@
    }
}

/// The catalog entry of a registered tool.
pub open spec fn entry_of(t: ToolEntry) -> EntryModel {
    let tags = views(t.info.tags@);
    EntryModel {
        name: t.info.name@,
        description: t.info.description@,
        category: primary_category(tags),
        tags,
        is_safe: t.info.is_safe,
        is_dangerous: t.info.is_dangerous,
        requires_approval: t.info.requires_approval,
    }
}

/// The description of a category.
pub open spec fn category_text(c: Seq<char>) -> Seq<char> {
    if c == "filesystem"@ {
        "File system read/write operations"@
    } else if c == "shell"@ {
        "Shell command execution"@
    } else if c == "web"@ {
        "Web and HTTP operations"@
    } else if c == "version-control"@ {
        "Version control (git) operations"@
    } else if c == "github"@ {
        "GitHub API and repository operations"@
    } else if c == "diagnostic"@ {
        "System diagnostic and health checks"@
    } else if c == "data"@ {
        "Data transformation and query tools"@
    } else if c == "mcp"@ {
        "External MCP connector tools"@
    } else if c == "automation"@ {
        "Automated workflows and notifications"@
    } else if c == "security"@ {
        "Security scanning and auditing tools"@
    } else if c == "media"@ {
        "Image, audio, and video tools"@
    } else {
        c + " tools"@
    }
}

/// A human-readable description of a category.
pub fn category_description(category: &str) -> (r: String)
    ensures
        r@ == category_text(category@),
{
    if str_eq(category, "filesystem") {
        owned("File system read/write operations")
    } else if str_eq(category, "shell") {
        owned("Shell command execution")
    } else if str_eq(category, "web") {
        owned("Web and HTTP operations")
    } else if str_eq(category, "version-control") {
        owned("Version control (git) operations")
    } else if str_eq(category, "github") {
        owned("GitHub API and repository operations")
    } else if str_eq(category, "diagnostic") {
        owned("System diagnostic and health checks")
    } else if str_eq(category, "data") {
        owned("Data transformation and query tools")
    } else if str_eq(category, "mcp") {
        owned("External MCP connector tools")
    } else if str_eq(category, "automation") {
        owned("Automated workflows and notifications")
    } else if str_eq(category, "security") {
        owned("Security scanning and auditing tools")
    } else if str_eq(category, "media") {
        owned("Image, audio, and video tools")
    } else {
        let mut m = owned(category);
        push_all(&mut m, " tools");
        m
    }
}

/// Strictly increasing: sorted, no repeats.
pub open spec fn sorted_strict(s: Seq<Seq<char>>) -> bool {
    forall|i: int, j: int| 0 <= i < j < s.len() ==> str_lt(#[trigger] s[i], #[trigger] s[j])
}

/// The names of catalog entries.
pub open spec fn entry_names(es: Seq<CatalogEntry>) -> Seq<Seq<char>> {
    es.map_values(|e: CatalogEntry| e.name@)
}

proof fn lemma_sorted_distinct(s: Seq<Seq<char>>)
    requires
        sorted_strict(s),
    ensures
        distinct(s),
{
    assert forall|a: int, b: int| 0 <= a < s.len() && 0 <= b < s.len() && a != b implies s[a]
        != s[b] by {
        if a < b {
            assert(str_lt(s[a], s[b]));
            lemma_str_lt_irreflexive(s[a]);
        } else {
            assert(str_lt(s[b], s[a]));
            lemma_str_lt_irreflexive(s[b]);
        }
    }
}

/// The first position at which `x` goes in the sorted `s`.
fn insert_position(s: &Vec<String>, x: &str) -> (p: usize)
    requires
        sorted_strict(views(s@)),
    ensures
        p <= s@.len(),
        forall|k: int| 0 <= k < p ==> !str_lt(x@, #[trigger] views(s@)[k]),
        p < s@.len() ==> str_lt(x@, views(s@)[p as int]),
{
    let mut p: usize = 0;
    while p < s.len()
        invariant
            p <= s@.len(),
            forall|k: int| 0 <= k < p ==> !str_lt(x@, #[trigger] views(s@)[k]),
        decreases s@.len() - p,
    {
        if str_less(x, s[p].as_str()) {
            return p;
        }
        p = p + 1;
    }
    p
}

/// Inserts `x` into the sorted `s`, which does not hold it.
fn insert_sorted(s: &mut Vec<String>, x: String)
    requires
        sorted_strict(views(old(s)@)),
        !views(old(s)@).contains(x@),
    ensures
        sorted_strict(views(final(s)@)),
        views(final(s)@).len() == views(old(s)@).len() + 1,
        forall|y: Seq<char>| views(final(s)@).contains(y) <==> (views(old(s)@).contains(y) || y == x@),
{
    let p = insert_position(s, x.as_str());
    let ghost before = views(s@);
    let ghost xv = x@;
    s.insert(p, x);
    proof {
        let now = views(s@);
        assert(now =~= before.insert(p as int, xv));
        assert forall|k: int| 0 <= k < p implies str_lt(#[trigger] before[k], xv) by {
            lemma_str_lt_total(before[k], xv);
            assert(before.contains(before[k]));
        }
        assert forall|i: int, j: int| 0 <= i < j < now.len() implies str_lt(
            #[trigger] now[i],
            #[trigger] now[j],
        ) by {
            if j < p {
                assert(now[i] == before[i] && now[j] == before[j]);
            } else if j == p {
                assert(now[i] == before[i]);
            } else if i == p {
                assert(now[j] == before[j - 1]);
                if j - 1 > p {
                    assert(str_lt(before[p as int], before[j - 1]));
                    lemma_str_lt_transitive(xv, before[p as int], before[j - 1]);
                }
            } else if i < p {
                assert(now[i] == before[i] && now[j] == before[j - 1]);
                assert(str_lt(before[i], xv));
                assert(str_lt(xv, before[p as int]));
                if j - 1 > p {
                    assert(str_lt(before[p as int], before[j - 1]));
                    lemma_str_lt_transitive(xv, before[p as int], before[j - 1]);
                }
                lemma_str_lt_transitive(before[i], xv, before[j - 1]);
            } else {
                assert(now[i] == before[i - 1] && now[j] == before[j - 1]);
            }
        }
        assert forall|y: Seq<char>| now.contains(y) <==> (before.contains(y) || y == xv) by {
            if now.contains(y) {
                let k = choose|k: int| 0 <= k < now.len() && now[k] == y;
                if k < p {
                    assert(before[k] == y);
                } else if k > p {
                    assert(before[k - 1] == y);
                }
            }
            if before.contains(y) {
                let k = choose|k: int| 0 <= k < before.len() && before[k] == y;
                if k < p {
                    assert(now[k] == y);
                } else {
                    assert(now[k + 1] == y);
                }
            }
            if y == xv {
                assert(now[p as int] == y);
            }
        }
    }
}

fn entry_insert_position(s: &Vec<CatalogEntry>, x: &str) -> (p: usize)
    ensures
        p <= s@.len(),
        forall|k: int| 0 <= k < p ==> !str_lt(x@, #[trigger] entry_names(s@)[k]),
        p < s@.len() ==> str_lt(x@, entry_names(s@)[p as int]),
{
    let mut p: usize = 0;
    while p < s.len()
        invariant
            p <= s@.len(),
            forall|k: int| 0 <= k < p ==> !str_lt(x@, #[trigger] entry_names(s@)[k]),
        decreases s@.len() - p,
    {
        if str_less(x, s[p].name.as_str()) {
            return p;
        }
        p = p + 1;
    }
    p
}

/// Inserts `e` into `s`, sorted by name, which holds no entry of its name.
fn insert_entry_sorted(s: &mut Vec<CatalogEntry>, e: CatalogEntry)
    requires
        sorted_strict(entry_names(old(s)@)),
        !entry_names(old(s)@).contains(e.name@),
    ensures
        sorted_strict(entry_names(final(s)@)),
        final(s)@.len() == old(s)@.len() + 1,
        forall|y: CatalogEntry| final(s)@.contains(y) <==> (old(s)@.contains(y) || y == e),
{
    let ghost before = s@;
    let ghost bn = entry_names(s@);
    let p = entry_insert_position(s, e.name.as_str());
    let ghost ev = e;
    s.insert(p, e);
    proof {
        let now = entry_names(s@);
        let xv = ev.name@;
        assert(s@ =~= before.insert(p as int, ev));
        assert(now =~= bn.insert(p as int, xv));
        assert forall|k: int| 0 <= k < p implies str_lt(#[trigger] bn[k], xv) by {
            lemma_str_lt_total(bn[k], xv);
            assert(bn.contains(bn[k]));
        }
        assert forall|i: int, j: int| 0 <= i < j < now.len() implies str_lt(
            #[trigger] now[i],
            #[trigger] now[j],
        ) by {
            if j < p {
                assert(now[i] == bn[i] && now[j] == bn[j]);
            } else if j == p {
                assert(now[i] == bn[i]);
            } else if i == p {
                assert(now[j] == bn[j - 1]);
                if j - 1 > p {
                    assert(str_lt(bn[p as int], bn[j - 1]));
                    lemma_str_lt_transitive(xv, bn[p as int], bn[j - 1]);
                }
            } else if i < p {
                assert(now[i] == bn[i] && now[j] == bn[j - 1]);
                assert(str_lt(bn[i], xv));
                assert(str_lt(xv, bn[p as int]));
                if j - 1 > p {
                    assert(str_lt(bn[p as int], bn[j - 1]));
                    lemma_str_lt_transitive(xv, bn[p as int], bn[j - 1]);
                }
                lemma_str_lt_transitive(bn[i], xv, bn[j - 1]);
            } else {
                assert(now[i] == bn[i - 1] && now[j] == bn[j - 1]);
            }
        }
        assert forall|y: CatalogEntry| s@.contains(y) <==> (before.contains(y) || y == ev) by {
            if s@.contains(y) {
                let k = choose|k: int| 0 <= k < s@.len() && s@[k] == y;
                if k < p {
                    assert(before[k] == y);
                } else if k > p {
                    assert(before[k - 1] == y);
                }
            }
            if before.contains(y) {
                let k = choose|k: int| 0 <= k < before.len() && before[k] == y;
                if k < p {
                    assert(s@[k] == y);
                } else {
                    assert(s@[k + 1] == y);
                }
            }
            if y == ev {
                assert(s@[p as int] == y);
            }
        }
    }
}

fn find_group(groups: &Vec<CategoryGroup>, cat: &str) -> (r: Option<usize>)
    ensures
        match r {
            Some(g) => g < groups@.len() && groups@[g as int].name@ == cat@ && forall|x: int|
                0 <= x < g ==> (#[trigger] groups@[x]).name@ != cat@,
            None => forall|x: int| 0 <= x < groups@.len() ==> (#[trigger] groups@[x]).name@ != cat@,
        },
{
    let mut g: usize = 0;
    while g < groups.len()
        invariant
            g <= groups@.len(),
            forall|x: int| 0 <= x < g ==> (#[trigger] groups@[x]).name@ != cat@,
        decreases groups@.len() - g,
    {
        if str_eq(groups[g].name.as_str(), cat) {
            return Some(g);
        }
        g = g + 1;
    }
    None
}

fn entry_from(t: &ToolEntry) -> (r: CatalogEntry)
    ensures
        r@ == entry_of(*t),
{
    let category = if t.info.tags.len() > 0 {
        t.info.tags[0].clone()
    } else {
        owned("other")
    };
    let mut tags: Vec<String> = Vec::new();
    let mut i: usize = 0;
    while i < t.info.tags.len()
        invariant
            i <= t.info.tags@.len(),
            views(tags@) == views(t.info.tags@).take(i as int),
        decreases t.info.tags@.len() - i,
    {
        let ghost before = views(tags@);
        tags.push(t.info.tags[i].clone());
        assert(views(tags@) =~= before.push(t.info.tags@[i as int]@));
        i = i + 1;
        assert(views(t.info.tags@).take(i as int) =~= views(t.info.tags@).take(i - 1).push(
            t.info.tags@[i - 1]@,
        ));
        assert(views(tags@) =~= views(t.info.tags@).take(i as int));
    }
    assert(views(t.info.tags@).take(i as int) =~= views(t.info.tags@));
    CatalogEntry {
        name: t.info.name.clone(),
        description: t.info.description.clone(),
        category,
        tags,
        is_safe: t.info.is_safe,
        is_dangerous: t.info.is_dangerous,
        requires_approval: t.info.requires_approval,
    }
}

/// The group names of a catalog.
pub open spec fn group_names(gs: Seq<CategoryGroup>) -> Seq<Seq<char>> {
    gs.map_values(|g: CategoryGroup| g.name@)
}

/// The catalog entries of a list of tools.
pub open spec fn entries_of(ts: Seq<ToolEntry>) -> Seq<EntryModel> {
    ts.map_values(|t: ToolEntry| entry_of(t))
}

/// The models of a list of entries.
pub open spec fn entry_views(es: Seq<CatalogEntry>) -> Seq<EntryModel> {
    es.map_values(|e: CatalogEntry| e@)
}

/// Whether some entry carries the tag `x`.
pub open spec fn some_tagged(es: Seq<EntryModel>, x: Seq<char>) -> bool {
    exists|j: int| 0 <= j < es.len() && (#[trigger] es[j]).tags.contains(x)
}

/// Whether some entry is in category `c`.
pub open spec fn some_in(es: Seq<EntryModel>, c: Seq<char>) -> bool {
    exists|j: int| 0 <= j < es.len() && (#[trigger] es[j]).category == c
}

/// One group per category of `es`; each with its description, and the
/// entries of its category sorted by name.
pub open spec fn groups_ok(gs: Seq<CategoryGroup>, es: Seq<EntryModel>) -> bool {
    &&& distinct(group_names(gs))
    &&& forall|x: Seq<char>| group_names(gs).contains(x) <==> some_in(es, x)
    &&& forall|g: int| 0 <= g < gs.len() ==> group_ok(#[trigger] gs[g], es)
}

/// A group holds exactly the entries of its category, sorted by name.
pub open spec fn group_ok(grp: CategoryGroup, es: Seq<EntryModel>) -> bool {
    &&& grp.description@ == category_text(grp.name@)
    &&& sorted_strict(entry_names(grp.tools@))
    &&& forall|k: int|
        0 <= k < grp.tools@.len() ==> es.contains((#[trigger] grp.tools@[k])@)
            && grp.tools@[k]@.category == grp.name@
    &&& forall|j: int|
        0 <= j < es.len() && (#[trigger] es[j]).category == grp.name@ ==> entry_views(grp.tools@).contains(es[j])
}

/// What the catalog built from the tools `ts` holds.
pub open spec fn catalog_of(c: ToolCatalog, ts: Seq<ToolEntry>) -> bool {
    let es = entries_of(ts);
    &&& c.total == ts.len()
    &&& entry_views(c.by_name@) == es
    &&& sorted_strict(views(c.all_tags@))
    &&& forall|x: Seq<char>| views(c.all_tags@).contains(x) <==> some_tagged(es, x)
    &&& groups_ok(c.by_category@, es)
}

/// Adds the tags not yet in the sorted set `all`.
fn add_tags(all: &mut Vec<String>, tags: &Vec<String>)
    requires
        sorted_strict(views(old(all)@)),
    ensures
        sorted_strict(views(final(all)@)),
        forall|x: Seq<char>| views(final(all)@).contains(x) <==> (views(old(all)@).contains(x) || views(tags@).contains(x)),
{
    let ghost tv = views(tags@);
    let mut k: usize = 0;
    while k < tags.len()
        invariant
            k <= tags@.len(),
            tv == views(tags@),
            sorted_strict(views(all@)),
            forall|x: Seq<char>|
                views(all@).contains(x) <==> (views(old(all)@).contains(x) || tv.take(k as int).contains(x)),
        decreases tags@.len() - k,
    {
        if !contains_str(all.as_slice(), tags[k].as_str()) {
            insert_sorted(all, tags[k].clone());
        }
        proof {
            let t1 = tv.take(k + 1);
            let t0 = tv.take(k as int);
            assert forall|x: Seq<char>| t1.contains(x) <==> (t0.contains(x) || x == tv[k as int]) by {
                if t1.contains(x) {
                    let y = choose|y: int| 0 <= y < t1.len() && t1[y] == x;
                    if y < k {
                        assert(t0[y] == x);
                    }
                }
                if t0.contains(x) {
                    let y = choose|y: int| 0 <= y < t0.len() && t0[y] == x;
                    assert(t1[y] == x);
                }
                if x == tv[k as int] {
                    assert(t1[k as int] == x);
                }
            }
        }
        k = k + 1;
    }
    assert(tv.take(k as int) =~= tv);
}

proof fn lemma_push_index(es: Seq<EntryModel>, ev: EntryModel)
    ensures
        es.push(ev)[es.len() as int] == ev,
        forall|j: int| 0 <= j < es.len() ==> #[trigger] es.push(ev)[j] == es[j],
{
}

/// A group that `ev` does not belong to stays as it is.
proof fn lemma_group_untouched(grp: CategoryGroup, es: Seq<EntryModel>, ev: EntryModel)
    requires
        group_ok(grp, es),
        grp.name@ != ev.category,
    ensures
        group_ok(grp, es.push(ev)),
{
    let es2 = es.push(ev);
    lemma_push_index(es, ev);
    assert forall|k: int| 0 <= k < grp.tools@.len() implies es2.contains((#[trigger] grp.tools@[k])@) by {
        let j = choose|j: int| 0 <= j < es.len() && es[j] == grp.tools@[k]@;
        assert(es2[j] == es[j]);
    }
    assert forall|j: int| 0 <= j < es2.len() && (#[trigger] es2[j]).category == grp.name@ implies entry_views(grp.tools@).contains(es2[j]) by {
        if j == es.len() {
            assert(es2[j] == ev);
        }
        assert(es2[j] == es[j]);
        assert(es[j].category == grp.name@);
    }
}

/// A group that gains `e` holds the entries of its category again.
proof fn lemma_group_extended(gv: CategoryGroup, grp: CategoryGroup, es: Seq<EntryModel>, e: CatalogEntry)
    requires
        group_ok(gv, es),
        grp.name == gv.name,
        grp.description == gv.description,
        sorted_strict(entry_names(grp.tools@)),
        forall|y: CatalogEntry| grp.tools@.contains(y) <==> (gv.tools@.contains(y) || y == e),
        e@.category == gv.name@,
    ensures
        group_ok(grp, es.push(e@)),
{
    let es2 = es.push(e@);
    lemma_push_index(es, e@);
    assert forall|k: int| 0 <= k < grp.tools@.len() implies es2.contains((#[trigger] grp.tools@[k])@)
        && grp.tools@[k]@.category == grp.name@ by {
        assert(grp.tools@.contains(grp.tools@[k]));
        if gv.tools@.contains(grp.tools@[k]) {
            let k2 = choose|k2: int| 0 <= k2 < gv.tools@.len() && gv.tools@[k2] == grp.tools@[k];
            assert(es.contains((gv.tools@[k2])@));
            let j = choose|j: int| 0 <= j < es.len() && es[j] == gv.tools@[k2]@;
            assert(es2[j] == es[j]);
        } else {
            assert(es2[es.len() as int] == grp.tools@[k]@);
        }
    }
    assert forall|j: int| 0 <= j < es2.len() && (#[trigger] es2[j]).category == grp.name@ implies entry_views(grp.tools@).contains(es2[j]) by {
        if j < es.len() {
            assert(es2[j] == es[j]);
            assert(entry_views(gv.tools@).contains(es[j]));
            let k2 = choose|k2: int| 0 <= k2 < gv.tools@.len() && entry_views(gv.tools@)[k2] == es[j];
            assert(gv.tools@.contains(gv.tools@[k2]));
            assert(grp.tools@.contains(gv.tools@[k2]));
            let k3 = choose|k3: int| 0 <= k3 < grp.tools@.len() && grp.tools@[k3] == gv.tools@[k2];
            assert(entry_views(grp.tools@)[k3] == es2[j]);
        } else {
            assert(grp.tools@.contains(e));
            let k3 = choose|k3: int| 0 <= k3 < grp.tools@.len() && grp.tools@[k3] == e;
            assert(entry_views(grp.tools@)[k3] == es2[j]);
        }
    }
}

/// A new group of one entry, whose category no earlier entry has.
proof fn lemma_group_new(grp: CategoryGroup, es: Seq<EntryModel>, e: CatalogEntry)
    requires
        grp.tools@ == seq![e],
        grp.name@ == e@.category,
        grp.description@ == category_text(grp.name@),
        !some_in(es, e@.category),
    ensures
        group_ok(grp, es.push(e@)),
{
    let es2 = es.push(e@);
    lemma_push_index(es, e@);
    assert(entry_names(grp.tools@) =~= seq![e@.name]);
    assert forall|j: int| 0 <= j < es2.len() && (#[trigger] es2[j]).category == grp.name@ implies entry_views(grp.tools@).contains(es2[j]) by {
        if j < es.len() {
            assert(es2[j] == es[j]);
        } else {
            assert(entry_views(grp.tools@)[0] == es2[j]);
        }
    }
    assert forall|k: int| 0 <= k < grp.tools@.len() implies es2.contains((#[trigger] grp.tools@[k])@) by {
        assert(es2[es.len() as int] == grp.tools@[k]@);
    }
}

proof fn lemma_some_in_push(es: Seq<EntryModel>, ev: EntryModel, x: Seq<char>)
    ensures
        some_in(es.push(ev), x) <==> (some_in(es, x) || ev.category == x),
{
    let es2 = es.push(ev);
    lemma_push_index(es, ev);
    if some_in(es2, x) {
        let j = choose|j: int| 0 <= j < es2.len() && (#[trigger] es2[j]).category == x;
        if j < es.len() {
            assert(es[j] == es2[j]);
        }
    }
    if some_in(es, x) {
        let j = choose|j: int| 0 <= j < es.len() && (#[trigger] es[j]).category == x;
        assert(es2[j] == es[j]);
    }
    if ev.category == x {
        assert(es2[es.len() as int] == ev);
    }
}

/// Files `e` under its category, creating the group when it is new.
fn add_to_groups(gs: &mut Vec<CategoryGroup>, e: CatalogEntry, Ghost(es): Ghost<Seq<EntryModel>>)
    requires
        groups_ok(old(gs)@, es),
        forall|j: int| 0 <= j < es.len() ==> (#[trigger] es[j]).name != e@.name,
    ensures
        groups_ok(final(gs)@, es.push(e@)),
{
    let ghost ev = e@;
    let ghost es2 = es.push(ev);
    let ghost old_groups = gs@;
    match find_group(gs, e.category.as_str()) {
        Some(g) => {
            let mut grp = gs.remove(g);
            let ghost gv = grp;
            assert(gv == old_groups[g as int]);
            assert(group_ok(gv, es));
            assert(!entry_names(grp.tools@).contains(ev.name)) by {
                if entry_names(grp.tools@).contains(ev.name) {
                    let k = choose|k: int| 0 <= k < grp.tools@.len() && entry_names(grp.tools@)[k] == ev.name;
                    assert(grp.tools@[k]@.name == ev.name);
                    assert(es.contains((grp.tools@[k])@));
                    let j = choose|j: int| 0 <= j < es.len() && es[j] == grp.tools@[k]@;
                }
            }
            let ghost ee = e;
            insert_entry_sorted(&mut grp.tools, e);
            proof {
                lemma_group_extended(gv, grp, es, ee);
            }
            gs.insert(g, grp);
            proof {
                let ng = gs@;
                assert(ng =~= old_groups.update(g as int, grp));
                assert(group_names(ng) =~= group_names(old_groups));
                assert forall|x: Seq<char>| group_names(ng).contains(x) <==> some_in(es2, x) by {
                    lemma_some_in_push(es, ev, x);
                    if ev.category == x {
                        assert(group_names(old_groups)[g as int] == x);
                    }
                }
                assert forall|h: int| 0 <= h < ng.len() implies group_ok(#[trigger] ng[h], es2) by {
                    if h != g {
                        assert(ng[h] == old_groups[h]);
                        assert(group_names(old_groups)[h] != group_names(old_groups)[g as int]);
                        lemma_group_untouched(old_groups[h], es, ev);
                    }
                }
            }
        },
        None => {
            let cat = e.category.clone();
            let ghost ee = e;
            let mut tools_of: Vec<CatalogEntry> = Vec::new();
            tools_of.push(e);
            let grp = CategoryGroup {
                name: cat.clone(),
                description: category_description(cat.as_str()),
                tools: tools_of,
            };
            proof {
                assert(!some_in(es, ev.category)) by {
                    if some_in(es, ev.category) {
                        assert(group_names(old_groups).contains(ev.category));
                        let y = choose|y: int| 0 <= y < group_names(old_groups).len() && group_names(old_groups)[y] == ev.category;
                        assert(old_groups[y].name@ == ev.category);
                    }
                }
                assert(grp.tools@ =~= seq![ee]);
                lemma_group_new(grp, es, ee);
            }
            gs.push(grp);
            proof {
                let ng = gs@;
                let gn = group_names(old_groups);
                assert(group_names(ng) =~= gn.push(cat@));
                assert(!gn.contains(cat@)) by {
                    if gn.contains(cat@) {
                        let y = choose|y: int| 0 <= y < gn.len() && gn[y] == cat@;
                        assert(old_groups[y].name@ == cat@);
                    }
                }
                assert forall|a: int, b: int| 0 <= a < group_names(ng).len() && 0 <= b < group_names(ng).len() && a != b implies group_names(ng)[a] != group_names(ng)[b] by {
                    if a < gn.len() && b < gn.len() {
                        assert(gn[a] != gn[b]);
                    } else if a < gn.len() {
                        assert(gn.contains(gn[a]));
                    } else if b < gn.len() {
                        assert(gn.contains(gn[b]));
                    }
                }
                assert forall|x: Seq<char>| group_names(ng).contains(x) <==> some_in(es2, x) by {
                    lemma_some_in_push(es, ev, x);
                    if gn.contains(x) {
                        let y = choose|y: int| 0 <= y < gn.len() && gn[y] == x;
                        assert(group_names(ng)[y] == x);
                    }
                    if group_names(ng).contains(x) {
                        let y = choose|y: int| 0 <= y < group_names(ng).len() && group_names(ng)[y] == x;
                        if y < gn.len() {
                            assert(gn[y] == x);
                        }
                    }
                    if ev.category == x {
                        assert(group_names(ng)[gn.len() as int] == x);
                    }
                }
                assert forall|h: int| 0 <= h < ng.len() implies group_ok(#[trigger] ng[h], es2) by {
                    if h < old_groups.len() {
                        assert(ng[h] == old_groups[h]);
                        assert(gn.contains(gn[h]));
                        lemma_group_untouched(old_groups[h], es, ev);
                    }
                }
            }
        },
    }
}

/// Entries matching a tag, in catalog order.
pub open spec fn tagged(es: Seq<CatalogEntry>, tag: Seq<char>) -> Seq<CatalogEntry>
    decreases es.len(),
{
    if es.len() == 0 {
        seq![]
    } else if views(es.last().tags@).contains(tag) {
        tagged(es.drop_last(), tag).push(es.last())
    } else {
        tagged(es.drop_last(), tag)
    }
}

/// Entries that are safe (or, with `dangerous`, dangerous), in order.
pub open spec fn flagged(es: Seq<CatalogEntry>, dangerous: bool) -> Seq<CatalogEntry>
    decreases es.len(),
{
    if es.len() == 0 {
        seq![]
    } else if (if dangerous {
        es.last().is_dangerous
    } else {
        es.last().is_safe
    }) {
        flagged(es.drop_last(), dangerous).push(es.last())
    } else {
        flagged(es.drop_last(), dangerous)
    }
}

/// The dereferenced entries of a list of references.
pub open spec fn derefs(rs: Seq<&CatalogEntry>) -> Seq<CatalogEntry> {
    rs.map_values(|r: &CatalogEntry| *r)
}

impl ToolCatalog {
    /// Builds the catalog of the registered tools: one entry per tool; each
    /// tool in the group of its category, groups sorted by tool name; and
    /// the sorted set of all tags.
    pub fn from_registry(registry: &ToolRegistry) -> (r: ToolCatalog)
        requires
            registry.wf(),
        ensures
            catalog_of(r, registry.entries()),
    {
        let tools = registry.all_tools();
        let ghost ts = tools@;
        let ghost es = entries_of(ts);
        let mut by_name: Vec<CatalogEntry> = Vec::new();
        let mut by_category: Vec<CategoryGroup> = Vec::new();
        let mut all_tags: Vec<String> = Vec::new();
        let mut i: usize = 0;
        while i < tools.len()
            invariant
                i <= ts.len(),
                ts == tools@,
                es == entries_of(ts),
                distinct(crate::registry::entry_names(ts)),
                entry_views(by_name@) == es.take(i as int),
                sorted_strict(views(all_tags@)),
                forall|x: Seq<char>| views(all_tags@).contains(x) <==> some_tagged(es.take(i as int), x),
                groups_ok(by_category@, es.take(i as int)),
            decreases ts.len() - i,
        {
            let t = &tools[i];
            let ghost ei = entry_of(ts[i as int]);
            let ghost prev = es.take(i as int);
            assert(es.take(i + 1) =~= prev.push(ei));
            add_tags(&mut all_tags, &t.info.tags);
            proof {
                let nxt = es.take(i + 1);
                assert forall|x: Seq<char>| views(all_tags@).contains(x) <==> some_tagged(nxt, x) by {
                    if some_tagged(nxt, x) {
                        let j = choose|j: int| 0 <= j < nxt.len() && (#[trigger] nxt[j]).tags.contains(x);
                        if j < i {
                            assert(prev[j] == nxt[j]);
                        }
                    }
                    if some_tagged(prev, x) {
                        let j = choose|j: int| 0 <= j < prev.len() && (#[trigger] prev[j]).tags.contains(x);
                        assert(nxt[j] == prev[j]);
                    }
                    if views(t.info.tags@).contains(x) {
                        assert(nxt[i as int] == ei);
                    }
                }
                assert forall|j: int| 0 <= j < prev.len() implies (#[trigger] prev[j]).name != ei.name by {
                    let ns = crate::registry::entry_names(ts);
                    assert(ns[j] != ns[i as int]);
                }
            }
            let ghost bn = entry_views(by_name@);
            by_name.push(entry_from(t));
            assert(entry_views(by_name@) =~= bn.push(ei));
            add_to_groups(&mut by_category, entry_from(t), Ghost(prev));
            i = i + 1;
        }
        proof {
            assert(es.take(i as int) =~= es);
        }
        ToolCatalog { by_name, by_category, all_tags, total: tools.len() }
    }

    /// The first entry named `name`.
    pub fn get(&self, name: &str) -> (r: Option<&CatalogEntry>)
        ensures
            match r {
                Some(e) => exists|i: int|
                    0 <= i < self.by_name@.len() && self.by_name@[i] == *e && e.name@ == name@ && forall|
                        j: int,
                    | 0 <= j < i ==> (#[trigger] self.by_name@[j]).name@ != name@,
                None => forall|i: int| 0 <= i < self.by_name@.len() ==> (#[trigger] self.by_name@[i]).name@ != name@,
            },
    {
        let mut i: usize = 0;
        while i < self.by_name.len()
            invariant
                i <= self.by_name@.len(),
                forall|j: int| 0 <= j < i ==> (#[trigger] self.by_name@[j]).name@ != name@,
            decreases self.by_name@.len() - i,
        {
            if str_eq(self.by_name[i].name.as_str(), name) {
                return Some(&self.by_name[i]);
            }
            i = i + 1;
        }
        None
    }

    /// The group of the category `category`.
    pub fn by_category(&self, category: &str) -> (r: Option<&CategoryGroup>)
        ensures
            match r {
                Some(g) => exists|i: int|
                    0 <= i < self.by_category@.len() && self.by_category@[i] == *g && g.name@ == category@
                        && forall|j: int|
                        0 <= j < i ==> (#[trigger] self.by_category@[j]).name@ != category@,
                None => forall|i: int|
                    0 <= i < self.by_category@.len() ==> (#[trigger] self.by_category@[i]).name@ != category@,
            },
    {
        match find_group(&self.by_category, category) {
            Some(g) => Some(&self.by_category[g]),
            None => None,
        }
    }

    /// The category names, sorted.
    pub fn categories(&self) -> (r: Vec<String>)
        requires
            distinct(group_names(self.by_category@)),
        ensures
            sorted_strict(views(r@)),
            forall|x: Seq<char>| views(r@).contains(x) <==> group_names(self.by_category@).contains(x),
    {
        let ghost gn = group_names(self.by_category@);
        let mut out: Vec<String> = Vec::new();
        let mut g: usize = 0;
        while g < self.by_category.len()
            invariant
                g <= self.by_category@.len(),
                gn == group_names(self.by_category@),
                distinct(gn),
                sorted_strict(views(out@)),
                forall|x: Seq<char>| views(out@).contains(x) <==> gn.take(g as int).contains(x),
            decreases self.by_category@.len() - g,
        {
            let ghost t0 = gn.take(g as int);
            let ghost t1 = gn.take(g + 1);
            proof {
                assert(!t0.contains(gn[g as int])) by {
                    if t0.contains(gn[g as int]) {
                        let y = choose|y: int| 0 <= y < t0.len() && t0[y] == gn[g as int];
                        assert(gn[y] != gn[g as int]);
                    }
                }
            }
            insert_sorted(&mut out, self.by_category[g].name.clone());
            proof {
                assert forall|x: Seq<char>| t1.contains(x) <==> (t0.contains(x) || x == gn[g as int]) by {
                    if t1.contains(x) {
                        let y = choose|y: int| 0 <= y < t1.len() && t1[y] == x;
                        if y < g {
                            assert(t0[y] == x);
                        }
                    }
                    if t0.contains(x) {
                        let y = choose|y: int| 0 <= y < t0.len() && t0[y] == x;
                        assert(t1[y] == x);
                    }
                    if x == gn[g as int] {
                        assert(t1[g as int] == x);
                    }
                }
            }
            g = g + 1;
        }
        assert(gn.take(g as int) =~= gn);
        out
    }

    /// The entries carrying the tag `tag`, in catalog order.
    pub fn by_tag(&self, tag: &str) -> (r: Vec<&CatalogEntry>)
        ensures
            derefs(r@) == tagged(self.by_name@, tag@),
    {
        let mut out: Vec<&CatalogEntry> = Vec::new();
        let mut i: usize = 0;
        while i < self.by_name.len()
            invariant
                i <= self.by_name@.len(),
                derefs(out@) == tagged(self.by_name@.take(i as int), tag@),
            decreases self.by_name@.len() - i,
        {
            let ghost before = derefs(out@);
            assert(self.by_name@.take(i + 1).drop_last() =~= self.by_name@.take(i as int));
            if contains_str(self.by_name[i].tags.as_slice(), tag) {
                out.push(&self.by_name[i]);
                assert(derefs(out@) =~= before.push(self.by_name@[i as int]));
            }
            i = i + 1;
        }
        assert(self.by_name@.take(i as int) =~= self.by_name@);
        out
    }

    fn flagged_entries(&self, dangerous: bool) -> (r: Vec<&CatalogEntry>)
        ensures
            derefs(r@) == flagged(self.by_name@, dangerous),
    {
        let mut out: Vec<&CatalogEntry> = Vec::new();
        let mut i: usize = 0;
        while i < self.by_name.len()
            invariant
                i <= self.by_name@.len(),
                derefs(out@) == flagged(self.by_name@.take(i as int), dangerous),
            decreases self.by_name@.len() - i,
        {
            let ghost before = derefs(out@);
            assert(self.by_name@.take(i + 1).drop_last() =~= self.by_name@.take(i as int));
            let e = &self.by_name[i];
            let hit = if dangerous {
                e.is_dangerous
            } else {
                e.is_safe
            };
            if hit {
                out.push(e);
                assert(derefs(out@) =~= before.push(self.by_name@[i as int]));
            }
            i = i + 1;
        }
        assert(self.by_name@.take(i as int) =~= self.by_name@);
        out
    }

    /// The safe tools, in catalog order.
    pub fn safe_tools(&self) -> (r: Vec<&CatalogEntry>)
        ensures
            derefs(r@) == flagged(self.by_name@, false),
    {
        self.flagged_entries(false)
    }

    /// The dangerous tools, in catalog order.
    pub fn dangerous_tools(&self) -> (r: Vec<&CatalogEntry>)
        ensures
            derefs(r@) == flagged(self.by_name@, true),
    {
        self.flagged_entries(true)
    }
}

} // verus!
