//! The tool registry: registered tools, at most one per name, in the order
//! they were registered.
use vstd::prelude::*;
use crate::fallback::distinct;
use crate::text::{contains_str, owned, push_all, str_eq, views};
use crate::validator::{ToolEntry, ToolSchemaInfo};

verus! {

/// The names of a list of tools.
pub open spec fn entry_names(ts: Seq<ToolEntry>) -> Seq<Seq<char>> {
    ts.map_values(|t: ToolEntry| t.info.name@)
}

/// The position of the tool named `name`, if one is registered.
pub open spec fn entry_position(ts: Seq<ToolEntry>, name: Seq<char>) -> Option<int> {
    if exists|i: int| 0 <= i < ts.len() && ts[i].info.name@ == name {
        Some(choose|i: int| 0 <= i < ts.len() && ts[i].info.name@ == name)
    } else {
        None
    }
}

/// The text of the error for a name that is taken.
pub open spec fn already_registered_msg(name: Seq<char>) -> Seq<char> {
    "Tool '"@ + name + "' is already registered"@
}

/// Registered tools, each name at most once.
pub struct ToolRegistry {
    tools: Vec<ToolEntry>,
}

impl ToolRegistry {
    /// No name is registered twice.
    pub closed spec fn wf(&self) -> bool {
        distinct(entry_names(self.tools@))
    }

    /// The registered tools, in registration order.
    pub closed spec fn entries(&self) -> Seq<ToolEntry> {
        self.tools@
    }

    /// An empty registry.
    pub fn new() -> (r: ToolRegistry)
        ensures
            r.wf(),
            r.entries().len() == 0,
    {
        ToolRegistry { tools: Vec::new() }
    }

    fn index_of(&self, name: &str) -> (r: Option<usize>)
        requires
            self.wf(),
        ensures
            match r {
                Some(i) => entry_position(self.entries(), name@) == Some(i as int),
                None => entry_position(self.entries(), name@) is None,
            },
    {
        let mut i: usize = 0;
        while i < self.tools.len()
            invariant
                i <= self.tools@.len(),
                distinct(entry_names(self.tools@)),
                forall|k: int| 0 <= k < i ==> self.tools@[k].info.name@ != name@,
            decreases self.tools@.len() - i,
        {
            if str_eq(self.tools[i].info.name.as_str(), name) {
                proof {
                    let ts = self.tools@;
                    let c = choose|k: int| 0 <= k < ts.len() && ts[k].info.name@ == name@;
                    if c != i as int {
                        assert(entry_names(ts)[c] != entry_names(ts)[i as int]);
                    }
                }
                return Some(i);
            }
            i = i + 1;
        }
        None
    }

    /// Registers a tool; fails, changing nothing, when its name is taken.
    pub fn register(&mut self, tool: ToolEntry) -> (r: Result<(), String>)
        requires
            old(self).wf(),
        ensures
            final(self).wf(),
            match r {
                Ok(_) => entry_position(old(self).entries(), tool.info.name@) is None
                    && final(self).entries() == old(self).entries().push(tool),
                Err(m) => entry_position(old(self).entries(), tool.info.name@) is Some
                    && m@ == already_registered_msg(tool.info.name@) && final(self).entries() == old(
                    self,
                ).entries(),
            },
    {
        if self.index_of(tool.info.name.as_str()).is_some() {
            let mut m = owned("Tool '");
            push_all(&mut m, tool.info.name.as_str());
            push_all(&mut m, "' is already registered");
            return Err(m);
        }
        let ghost before = entry_names(self.tools@);
        let ghost n = tool.info.name@;
        self.tools.push(tool);
        proof {
            let now = entry_names(self.tools@);
            assert(now =~= before.push(n));
            assert forall|a: int, b: int|
                0 <= a < now.len() && 0 <= b < now.len() && a != b implies now[a] != now[b] by {
                if a == now.len() - 1 {
                    assert(self.tools@[b].info.name@ != n);
                } else if b == now.len() - 1 {
                    assert(self.tools@[a].info.name@ != n);
                } else {
                    assert(before[a] != before[b]);
                }
            }
        }
        Ok(())
    }

    /// The tool named `name`.
    pub fn get(&self, name: &str) -> (r: Option<&ToolEntry>)
        requires
            self.wf(),
        ensures
            r == match entry_position(self.entries(), name@) {
                Some(i) => Some(&self.entries()[i]),
                None => None,
            },
    {
        match self.index_of(name) {
            Some(i) => Some(&self.tools[i]),
            None => None,
        }
    }

    /// Removes and returns the tool named `name`.
    pub fn remove(&mut self, name: &str) -> (r: Option<ToolEntry>)
        requires
            old(self).wf(),
        ensures
            final(self).wf(),
            match entry_position(old(self).entries(), name@) {
                Some(i) => r == Some(old(self).entries()[i]) && final(self).entries() == old(
                    self,
                ).entries().remove(i),
                None => r is None && final(self).entries() == old(self).entries(),
            },
    {
        match self.index_of(name) {
            Some(i) => {
                let ghost before = self.tools@;
                let t = self.tools.remove(i);
                proof {
                    let now = entry_names(self.tools@);
                    let bn = entry_names(before);
                    assert forall|a: int, b: int|
                        0 <= a < now.len() && 0 <= b < now.len() && a != b implies now[a] != now[b] by {
                        let a2 = if a < i { a } else { a + 1 };
                        let b2 = if b < i { b } else { b + 1 };
                        assert(now[a] == bn[a2]);
                        assert(now[b] == bn[b2]);
                    }
                }
                Some(t)
            },
            None => None,
        }
    }

    /// Whether a tool named `name` is registered.
    pub fn is_registered(&self, name: &str) -> (r: bool)
        requires
            self.wf(),
        ensures
            r == entry_position(self.entries(), name@) is Some,
    {
        self.index_of(name).is_some()
    }

    /// How many tools are registered.
    pub fn len(&self) -> (r: usize)
        ensures
            r == self.entries().len(),
    {
        self.tools.len()
    }

    /// Whether no tool is registered.
    pub fn is_empty(&self) -> (r: bool)
        ensures
            r == (self.entries().len() == 0),
    {
        self.tools.len() == 0
    }

    /// All registered tools, in registration order.
    pub fn all_tools(&self) -> (r: &Vec<ToolEntry>)
        requires
            self.wf(),
        ensures
            r@ == self.entries(),
            distinct(entry_names(r@)),
    {
        &self.tools
    }

    /// The schemas of all registered tools, in registration order.
    pub fn list_schemas(&self) -> (r: Vec<&ToolSchemaInfo>)
        ensures
            r@.len() == self.entries().len(),
            forall|i: int| 0 <= i < r@.len() ==> *(#[trigger] r@[i]) == self.entries()[i].schema,
    {
        let mut out: Vec<&ToolSchemaInfo> = Vec::new();
        let mut i: usize = 0;
        while i < self.tools.len()
            invariant
                i <= self.tools@.len(),
                out@.len() == i,
                forall|k: int| 0 <= k < i ==> *(#[trigger] out@[k]) == self.tools@[k].schema,
            decreases self.tools@.len() - i,
        {
            out.push(&self.tools[i].schema);
            i = i + 1;
        }
        out
    }
}

/// Registering a tool and then looking up its name finds that tool.
pub proof fn lemma_register_then_get(before: Seq<ToolEntry>, t: ToolEntry)
    requires
        distinct(entry_names(before)),
        entry_position(before, t.info.name@) is None,
    ensures
        entry_position(before.push(t), t.info.name@) == Some(before.len() as int),
{
    let after = before.push(t);
    assert(after[before.len() as int].info.name@ == t.info.name@);
    let c = choose|i: int| 0 <= i < after.len() && after[i].info.name@ == t.info.name@;
    if c != before.len() {
        assert(before[c].info.name@ == t.info.name@);
    }
}

/// Whether `enabled` lets a tool in: every tool when there is no list,
/// else the tools it names.
pub open spec fn enabled_tool(name: Seq<char>, enabled: Option<Seq<Seq<char>>>) -> bool {
    match enabled {
        None => true,
        Some(ns) => ns.contains(name),
    }
}

/// The registry built from `tools` in order, skipping those `enabled`
/// leaves out; the error of the first name registered twice.
pub open spec fn built_registry(tools: Seq<ToolEntry>, enabled: Option<Seq<Seq<char>>>) -> Result<Seq<ToolEntry>, Seq<char>>
    decreases tools.len(),
{
    if tools.len() == 0 {
        Ok(Seq::<ToolEntry>::empty())
    } else {
        match built_registry(tools.drop_last(), enabled) {
            Err(m) => Err(m),
            Ok(acc) => {
                let t = tools.last();
                if !enabled_tool(t.info.name@, enabled) {
                    Ok(acc)
                } else if entry_position(acc, t.info.name@) is Some {
                    Err(already_registered_msg(t.info.name@))
                } else {
                    Ok(acc.push(t))
                }
            },
        }
    }
}

/// Once a prefix fails, the whole list fails with that error.
proof fn lemma_built_err_sticks(s: Seq<ToolEntry>, k: int, enabled: Option<Seq<Seq<char>>>)
    requires
        0 <= k <= s.len(),
        built_registry(s.take(k), enabled) is Err,
    ensures
        built_registry(s, enabled) == built_registry(s.take(k), enabled),
    decreases s.len() - k,
{
    if k == s.len() {
        assert(s.take(k) =~= s);
    } else {
        assert(s.drop_last().take(k) =~= s.take(k));
        lemma_built_err_sticks(s.drop_last(), k, enabled);
    }
}

/// Builds the registry of the built-in tools: the tools in order, only
/// those `enabled` names when it is given.
pub fn builtin_registry(tools: Vec<ToolEntry>, enabled: Option<&[String]>) -> (r: Result<ToolRegistry, String>)
    ensures
        match r {
            Ok(reg) => reg.wf() && built_registry(
                tools@,
                match enabled {
                    Some(ns) => Some(views(ns@)),
                    None => None,
                },
            ) == Ok::<Seq<ToolEntry>, Seq<char>>(reg.entries()),
            Err(m) => built_registry(
                tools@,
                match enabled {
                    Some(ns) => Some(views(ns@)),
                    None => None,
                },
            ) == Err::<Seq<ToolEntry>, Seq<char>>(m@),
        },
{
    let ghost en = match enabled {
        Some(ns) => Some(views(ns@)),
        None => None,
    };
    let ghost all = tools@;
    let mut registry = ToolRegistry::new();
    let mut src = tools;
    let ghost mut n: int = 0;
    proof {
        assert(all.take(0) =~= Seq::<ToolEntry>::empty());
        assert(src@ =~= all.skip(0));
        assert(registry.entries() =~= Seq::<ToolEntry>::empty());
    }
    while src.len() > 0
        invariant
            0 <= n <= all.len(),
            all == tools@,
            src@ == all.skip(n),
            registry.wf(),
            built_registry(all.take(n), en) == Ok::<Seq<ToolEntry>, Seq<char>>(registry.entries()),
            en == match enabled {
                Some(ns) => Some(views(ns@)),
                None => None,
            },
        decreases src@.len(),
    {
        let tool = src.remove(0);
        proof {
            assert(tool == all[n]);
            assert(src@ =~= all.skip(n + 1));
            assert(all.take(n + 1).drop_last() =~= all.take(n));
            assert(all.take(n + 1).last() == tool);
        }
        let allowed = match enabled {
            None => true,
            Some(ns) => contains_str(ns, tool.info.name.as_str()),
        };
        if allowed {
            match registry.register(tool) {
                Ok(_) => {},
                Err(m) => {
                    proof {
                        assert(enabled_tool(all[n].info.name@, en));
                        assert(built_registry(all.take(n + 1), en) == Err::<Seq<ToolEntry>, Seq<char>>(m@));
                        lemma_built_err_sticks(all, n + 1, en);
                    }
                    return Err(m);
                },
            }
        }
        proof {
            n = n + 1;
        }
    }
    proof {
        assert(all.take(n) =~= all);
    }
    Ok(registry)
}

} // verus!
