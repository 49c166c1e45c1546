//! The runtime's bookkeeping: sessions with their messages and metadata,
//! and the agents and sub-agents registered by id.
//!
//! Messages and agents are held as they are given; ids and times come
//! from the caller.
use vstd::prelude::*;
use crate::store::{id_text, uuid_hyphenated};
use crate::text::{owned, push_all, str_eq};

verus! {

/// One conversation.
#[derive(Debug, Clone)]
pub struct Session<M> {
    pub id: u128,
    pub label: Option<String>,
    pub messages: Vec<M>,
    /// Seconds since the epoch.
    pub created_at: i64,
    pub updated_at: i64,
    /// Key-value pairs, each key once.
    pub metadata: Vec<(String, String)>,
}

/// The value stored under `key`, if any.
pub open spec fn lookup(kv: Seq<(String, String)>, key: Seq<char>) -> Option<Seq<char>>
    decreases kv.len(),
{
    if kv.len() == 0 {
        None
    } else if kv.last().0@ == key {
        Some(kv.last().1@)
    } else {
        lookup(kv.drop_last(), key)
    }
}

impl<M> Session<M> {
    /// An empty session created at `now`.
    pub fn new(id: u128, now: i64) -> (r: Session<M>)
        ensures
            r.id == id,
            r.label is None,
            r.messages@.len() == 0,
            r.created_at == now,
            r.updated_at == now,
            r.metadata@.len() == 0,
    {
        Session { id, label: None, messages: Vec::new(), created_at: now, updated_at: now, metadata: Vec::new() }
    }

    /// An empty session with a label.
    pub fn with_label(id: u128, label: &str, now: i64) -> (r: Session<M>)
        ensures
            r.id == id,
            r.label matches Some(l) && l@ == label@,
            r.messages@.len() == 0,
            r.created_at == now,
            r.updated_at == now,
            r.metadata@.len() == 0,
    {
        let mut s = Session::new(id, now);
        s.label = Some(owned(label));
        s
    }

    /// Appends a message at `now`.
    pub fn add_message(&mut self, message: M, now: i64)
        ensures
            final(self).messages@ == old(self).messages@.push(message),
            final(self).updated_at == now,
            final(self).id == old(self).id,
            final(self).label == old(self).label,
            final(self).created_at == old(self).created_at,
            final(self).metadata == old(self).metadata,
    {
        self.messages.push(message);
        self.updated_at = now;
    }

    /// How many messages the session holds.
    pub fn message_count(&self) -> (r: usize)
        ensures
            r == self.messages@.len(),
    {
        self.messages.len()
    }

    /// Drops every message, at `now`.
    pub fn clear_messages(&mut self, now: i64)
        ensures
            final(self).messages@.len() == 0,
            final(self).updated_at == now,
            final(self).id == old(self).id,
            final(self).label == old(self).label,
            final(self).created_at == old(self).created_at,
            final(self).metadata == old(self).metadata,
    {
        self.messages = Vec::new();
        self.updated_at = now;
    }

    /// The messages from position `index` on; none when `index` is past
    /// the end.
    pub fn messages_since(&self, index: usize) -> (r: &[M])
        ensures
            r@ == if index >= self.messages@.len() {
                Seq::<M>::empty()
            } else {
                self.messages@.skip(index as int)
            },
    {
        if index >= self.messages.len() {
            &[]
        } else {
            let s = self.messages.as_slice();
            let (_, tail) = s.split_at(index);
            assert(tail@ =~= self.messages@.skip(index as int));
            tail
        }
    }

    /// Sets `key` to `value`, replacing an earlier value.
    pub fn set_metadata(&mut self, key: &str, value: &str)
        ensures
            lookup(final(self).metadata@, key@) == Some(value@),
            forall|k: Seq<char>| k != key@ ==> lookup(final(self).metadata@, k) == lookup(old(self).metadata@, k),
            final(self).messages == old(self).messages,
            final(self).id == old(self).id,
    {
        let ghost before = self.metadata@;
        self.metadata.push((owned(key), owned(value)));
        proof {
            assert(self.metadata@.drop_last() =~= before);
        }
    }

    /// The value of `key`.
    pub fn get_metadata(&self, key: &str) -> (r: Option<&str>)
        ensures
            match r {
                Some(v) => lookup(self.metadata@, key@) == Some(v@),
                None => lookup(self.metadata@, key@) is None,
            },
    {
        let mut i: usize = self.metadata.len();
        assert(self.metadata@.take(i as int) =~= self.metadata@);
        while i > 0
            invariant
                i <= self.metadata@.len(),
                lookup(self.metadata@, key@) == lookup(self.metadata@.take(i as int), key@),
            decreases i,
        {
            let ghost pre = self.metadata@.take(i as int);
            assert(pre.drop_last() =~= self.metadata@.take(i - 1));
            if str_eq(self.metadata[i - 1].0.as_str(), key) {
                return Some(self.metadata[i - 1].1.as_str());
            }
            i = i - 1;
        }
        None
    }
}

/// Counts of what the runtime holds.
#[derive(Debug, Clone, Copy, PartialEq, Eq)]
pub struct RuntimeSummary {
    pub sessions: usize,
    pub agents: usize,
    pub sub_agents: usize,
}

/// Items under unique ids.
#[derive(Debug)]
pub struct IdTable<T> {
    items: Vec<(u128, T)>,
}

/// The index of `id` in `items`, if present.
pub open spec fn id_index<T>(items: Seq<(u128, T)>, id: u128) -> Option<int> {
    if exists|i: int| 0 <= i < items.len() && items[i].0 == id {
        Some(choose|i: int| 0 <= i < items.len() && items[i].0 == id)
    } else {
        None
    }
}

/// No id occurs twice.
pub open spec fn unique_ids<T>(items: Seq<(u128, T)>) -> bool {
    forall|a: int, b: int| 0 <= a < items.len() && 0 <= b < items.len() && a != b ==> items[a].0 != items[b].0
}

impl<T> IdTable<T> {
    /// The entries, in insertion order.
    pub closed spec fn entries(&self) -> Seq<(u128, T)> {
        self.items@
    }

    /// The item stored under `id`.
    pub open spec fn item(&self, id: u128) -> Option<T> {
        match id_index(self.entries(), id) {
            Some(i) => Some(self.entries()[i].1),
            None => None,
        }
    }

    /// Ids are unique.
    pub open spec fn wf(&self) -> bool {
        unique_ids(self.entries())
    }

    /// An empty table.
    pub fn new() -> (r: IdTable<T>)
        ensures
            r.wf(),
            r.entries().len() == 0,
    {
        IdTable { items: Vec::new() }
    }

    fn index_of(&self, id: u128) -> (r: Option<usize>)
        requires
            self.wf(),
        ensures
            match r {
                Some(i) => id_index(self.entries(), id) == Some(i as int),
                None => id_index(self.entries(), id) is None,
            },
    {
        let mut i: usize = 0;
        while i < self.items.len()
            invariant
                i <= self.items@.len(),
                unique_ids(self.items@),
                forall|k: int| 0 <= k < i ==> self.items@[k].0 != id,
            decreases self.items@.len() - i,
        {
            if self.items[i].0 == id {
                proof {
                    let c = choose|k: int| 0 <= k < self.items@.len() && self.items@[k].0 == id;
                    if c != i as int {
                        assert(self.items@[c].0 != self.items@[i as int].0);
                    }
                }
                return Some(i);
            }
            i = i + 1;
        }
        None
    }

    /// Stores `item` under `id`, replacing what was there.
    pub fn insert(&mut self, id: u128, item: T)
        requires
            old(self).wf(),
        ensures
            final(self).wf(),
            final(self).item(id) == Some(item),
            forall|k: u128| k != id ==> final(self).item(k) == old(self).item(k),
            final(self).entries().len() == old(self).entries().len() + if old(self).item(id) is Some {
                0int
            } else {
                1int
            },
    {
        let ghost before = self.items@;
        match self.index_of(id) {
            Some(i) => {
                self.items.remove(i);
                self.items.insert(i, (id, item));
                proof {
                    let now = self.items@;
                    assert(now =~= before.update(i as int, (id, item)));
                    assert forall|a: int, b: int| 0 <= a < now.len() && 0 <= b < now.len() && a != b implies now[a].0 != now[b].0 by {
                        assert(now[a].0 == before[a].0 && now[b].0 == before[b].0);
                    }
                    let c = choose|k: int| 0 <= k < now.len() && now[k].0 == id;
                    assert(now[i as int].0 == id);
                    if c != i as int {
                        assert(now[c].0 != now[i as int].0);
                    }
                    assert(id_index(now, id) == Some(i as int));
                    assert(now[i as int].1 == item);
                    assert forall|k: u128| k != id implies #[trigger] id_index(now, k) == id_index(before, k) by {
                        if exists|x: int| 0 <= x < before.len() && before[x].0 == k {
                            let x = choose|x: int| 0 <= x < before.len() && before[x].0 == k;
                            assert(now[x].0 == k);
                            let y = choose|y: int| 0 <= y < now.len() && now[y].0 == k;
                            if y != x {
                                assert(now[y].0 != now[x].0);
                            }
                        } else {
                            assert forall|y: int| 0 <= y < now.len() implies now[y].0 != k by {
                                if y != i {
                                    assert(now[y] == before[y]);
                                }
                            }
                        }
                    }
                    assert forall|k: u128| k != id implies self.item(k) == old(self).item(k) by {
                        assert(id_index(now, k) == id_index(before, k));
                        if let Some(x) = id_index(before, k) {
                            assert(x != i);
                            assert(now[x] == before[x]);
                        }
                    }
                }
            },
            None => {
                self.items.push((id, item));
                proof {
                    let now = self.items@;
                    let n = before.len() as int;
                    assert forall|a: int, b: int| 0 <= a < now.len() && 0 <= b < now.len() && a != b implies now[a].0 != now[b].0 by {
                        if a < n && b < n {
                            assert(now[a] == before[a] && now[b] == before[b]);
                        } else if a < n {
                            assert(now[a] == before[a]);
                        } else {
                            assert(now[b] == before[b]);
                        }
                    }
                    let c = choose|k: int| 0 <= k < now.len() && now[k].0 == id;
                    assert(now[n].0 == id);
                    if c != n {
                        assert(now[c].0 != now[n].0);
                    }
                    assert(id_index(now, id) == Some(n));
                    assert(now[n].1 == item);
                    assert forall|k: u128| k != id implies self.item(k) == old(self).item(k) by {
                        if exists|x: int| 0 <= x < before.len() && before[x].0 == k {
                            let x = choose|x: int| 0 <= x < before.len() && before[x].0 == k;
                            assert(now[x] == before[x]);
                            let y = choose|y: int| 0 <= y < now.len() && now[y].0 == k;
                            if y != x {
                                assert(now[y].0 != now[x].0);
                            }
                        } else {
                            assert forall|y: int| 0 <= y < now.len() implies now[y].0 != k by {
                                if y < n {
                                    assert(now[y] == before[y]);
                                }
                            }
                        }
                    }
                }
            },
        }
    }

    /// The item stored under `id`.
    pub fn get(&self, id: u128) -> (r: Option<&T>)
        requires
            self.wf(),
        ensures
            match r {
                Some(x) => self.item(id) == Some(*x),
                None => self.item(id) is None,
            },
    {
        match self.index_of(id) {
            Some(i) => Some(&self.items[i].1),
            None => None,
        }
    }

    /// Removes and returns the item stored under `id`.
    pub fn remove(&mut self, id: u128) -> (r: Option<T>)
        requires
            old(self).wf(),
        ensures
            final(self).wf(),
            r == old(self).item(id),
            final(self).item(id) is None,
            forall|k: u128| k != id ==> final(self).item(k) == old(self).item(k),
    {
        let ghost before = self.items@;
        match self.index_of(id) {
            Some(i) => {
                let (_, x) = self.items.remove(i);
                proof {
                    let now = self.items@;
                    assert(now =~= before.remove(i as int));
                    assert forall|a: int, b: int| 0 <= a < now.len() && 0 <= b < now.len() && a != b implies now[a].0 != now[b].0 by {
                        let a2 = if a < i { a } else { a + 1 };
                        let b2 = if b < i { b } else { b + 1 };
                        assert(now[a] == before[a2] && now[b] == before[b2]);
                    }
                    assert forall|y: int| 0 <= y < now.len() implies now[y].0 != id by {
                        let y2 = if y < i { y } else { y + 1 };
                        assert(now[y] == before[y2]);
                        assert(before[y2].0 != before[i as int].0);
                    }
                    assert forall|k: u128| k != id implies self.item(k) == old(self).item(k) by {
                        if exists|x: int| 0 <= x < before.len() && before[x].0 == k {
                            let x = choose|x: int| 0 <= x < before.len() && before[x].0 == k;
                            assert(x != i);
                            let xn = if x < i { x } else { x - 1 };
                            assert(now[xn] == before[x]);
                            let y = choose|y: int| 0 <= y < now.len() && now[y].0 == k;
                            let y2 = if y < i { y } else { y + 1 };
                            assert(now[y] == before[y2]);
                            if y2 != x {
                                assert(before[y2].0 != before[x].0);
                            }
                        } else {
                            assert forall|y: int| 0 <= y < now.len() implies now[y].0 != k by {
                                let y2 = if y < i { y } else { y + 1 };
                                assert(now[y] == before[y2]);
                            }
                        }
                    }
                }
                Some(x)
            },
            None => None,
        }
    }

    /// How many items are stored.
    pub fn len(&self) -> (r: usize)
        ensures
            r == self.entries().len(),
    {
        self.items.len()
    }

    /// The items, in insertion order.
    pub fn list(&self) -> (r: Vec<&T>)
        ensures
            r@.len() == self.entries().len(),
            forall|i: int| 0 <= i < r@.len() ==> *(#[trigger] r@[i]) == self.entries()[i].1,
    {
        let mut out: Vec<&T> = Vec::new();
        let mut i: usize = 0;
        while i < self.items.len()
            invariant
                i <= self.items@.len(),
                out@.len() == i,
                forall|k: int| 0 <= k < i ==> *(#[trigger] out@[k]) == self.items@[k].1,
            decreases self.items@.len() - i,
        {
            out.push(&self.items[i].1);
            i = i + 1;
        }
        out
    }
}

/// A registered agent: its name and whatever runs it.
#[derive(Debug)]
pub struct AgentSlot<A> {
    pub name: String,
    pub agent: A,
}

/// The ids of the agents named `name`, in order.
pub open spec fn named_ids<A>(es: Seq<(u128, AgentSlot<A>)>, name: Seq<char>) -> Seq<u128>
    decreases es.len(),
{
    if es.len() == 0 {
        seq![]
    } else if es.last().1.name@ == name {
        named_ids(es.drop_last(), name).push(es.last().0)
    } else {
        named_ids(es.drop_last(), name)
    }
}

/// Sessions, agents and sub-agents by id.
#[derive(Debug)]
pub struct Runtime<S, A> {
    pub sessions: IdTable<S>,
    pub agents: IdTable<AgentSlot<A>>,
    pub sub_agents: IdTable<AgentSlot<A>>,
    pub default_max_iterations: u32,
}

impl<S, A> Runtime<S, A> {
    /// Ids are unique in every table.
    pub open spec fn wf(&self) -> bool {
        self.sessions.wf() && self.agents.wf() && self.sub_agents.wf()
    }

    /// An empty runtime whose tasks default to 100 iterations.
    pub fn new() -> (r: Runtime<S, A>)
        ensures
            r.wf(),
            r.sessions.entries().len() == 0,
            r.agents.entries().len() == 0,
            r.sub_agents.entries().len() == 0,
            r.default_max_iterations == 100,
    {
        Runtime {
            sessions: IdTable::new(),
            agents: IdTable::new(),
            sub_agents: IdTable::new(),
            default_max_iterations: 100,
        }
    }

    /// The same runtime with another default iteration limit.
    pub fn with_default_max_iterations(self, max: u32) -> (r: Runtime<S, A>)
        ensures
            r.sessions == self.sessions,
            r.agents == self.agents,
            r.sub_agents == self.sub_agents,
            r.default_max_iterations == max,
    {
        Runtime { default_max_iterations: max, ..self }
    }

    /// The ids of the agents named `name`, in registration order.
    pub fn find_agents_by_name(&self, name: &str) -> (r: Vec<u128>)
        ensures
            r@ == named_ids(self.agents.entries(), name@),
    {
        let list = self.agents.list();
        let ids = self.agents.ids();
        let ghost es = self.agents.entries();
        let mut out: Vec<u128> = Vec::new();
        let mut i: usize = 0;
        while i < list.len()
            invariant
                i <= list@.len(),
                es == self.agents.entries(),
                list@.len() == es.len(),
                ids@.len() == es.len(),
                forall|k: int| 0 <= k < es.len() ==> *(#[trigger] list@[k]) == es[k].1,
                forall|k: int| 0 <= k < es.len() ==> #[trigger] ids@[k] == es[k].0,
                out@ == named_ids(es.take(i as int), name@),
            decreases list@.len() - i,
        {
            assert(es.take(i + 1).drop_last() =~= es.take(i as int));
            let slot = list[i];
            if str_eq(slot.name.as_str(), name) {
                out.push(ids[i]);
            }
            i = i + 1;
        }
        assert(es.take(i as int) =~= es);
        out
    }

    /// How many sessions, agents and sub-agents the runtime holds.
    pub fn summary(&self) -> (r: RuntimeSummary)
        ensures
            r.sessions == self.sessions.entries().len(),
            r.agents == self.agents.entries().len(),
            r.sub_agents == self.sub_agents.entries().len(),
    {
        RuntimeSummary {
            sessions: self.sessions.len(),
            agents: self.agents.len(),
            sub_agents: self.sub_agents.len(),
        }
    }
}

impl<S, A> Runtime<S, A> {
    /// The session with id `id`, if any.
    pub fn get_session(&self, id: u128) -> (r: Option<&S>)
        requires
            self.wf(),
        ensures
            match r {
                Some(x) => self.sessions.item(id) == Some(*x),
                None => self.sessions.item(id) is None,
            },
    {
        self.sessions.get(id)
    }

    /// Removes the session with id `id` and returns it.
    pub fn delete_session(&mut self, id: u128) -> (r: Option<S>)
        requires
            old(self).wf(),
        ensures
            final(self).wf(),
            r == old(self).sessions.item(id),
            final(self).sessions.item(id) is None,
            forall|k: u128| k != id ==> final(self).sessions.item(k) == old(self).sessions.item(k),
            final(self).agents == old(self).agents,
            final(self).sub_agents == old(self).sub_agents,
    {
        self.sessions.remove(id)
    }

    /// The sessions.
    pub fn list_sessions(&self) -> (r: Vec<&S>)
        ensures
            r@.len() == self.sessions.entries().len(),
            forall|i: int| 0 <= i < r@.len() ==> *(#[trigger] r@[i]) == self.sessions.entries()[i].1,
    {
        self.sessions.list()
    }

    /// How many sessions there are.
    pub fn session_count(&self) -> (r: usize)
        ensures
            r == self.sessions.entries().len(),
    {
        self.sessions.len()
    }

    /// Registers an agent under its id and name; an agent with the same id
    /// is replaced.
    pub fn register_agent(&mut self, id: u128, name: &str, agent: A)
        requires
            old(self).wf(),
        ensures
            final(self).wf(),
            final(self).agents.item(id) matches Some(slot) && slot.name@ == name@ && slot.agent == agent,
            forall|k: u128| k != id ==> final(self).agents.item(k) == old(self).agents.item(k),
            final(self).sessions == old(self).sessions,
            final(self).sub_agents == old(self).sub_agents,
    {
        self.agents.insert(id, AgentSlot { name: owned(name), agent });
    }

    /// The agent with id `id`, if any.
    pub fn get_agent(&self, id: u128) -> (r: Option<&AgentSlot<A>>)
        requires
            self.wf(),
        ensures
            match r {
                Some(x) => self.agents.item(id) == Some(*x),
                None => self.agents.item(id) is None,
            },
    {
        self.agents.get(id)
    }

    /// Removes the agent with id `id` and returns it.
    pub fn remove_agent(&mut self, id: u128) -> (r: Option<AgentSlot<A>>)
        requires
            old(self).wf(),
        ensures
            final(self).wf(),
            r == old(self).agents.item(id),
            final(self).agents.item(id) is None,
            forall|k: u128| k != id ==> final(self).agents.item(k) == old(self).agents.item(k),
            final(self).sessions == old(self).sessions,
            final(self).sub_agents == old(self).sub_agents,
    {
        self.agents.remove(id)
    }

    /// The registered agents.
    pub fn list_agents(&self) -> (r: Vec<&AgentSlot<A>>)
        ensures
            r@.len() == self.agents.entries().len(),
            forall|i: int| 0 <= i < r@.len() ==> *(#[trigger] r@[i]) == self.agents.entries()[i].1,
    {
        self.agents.list()
    }

    /// How many agents are registered.
    pub fn agent_count(&self) -> (r: usize)
        ensures
            r == self.agents.entries().len(),
    {
        self.agents.len()
    }

    /// The agent a task submitted to `agent_id` runs on, or the error that
    /// no such agent is registered.
    pub fn submit_task(&self, agent_id: u128) -> (r: Result<&AgentSlot<A>, String>)
        requires
            self.wf(),
        ensures
            match r {
                Ok(x) => self.agents.item(agent_id) == Some(*x),
                Err(e) => self.agents.item(agent_id) is None && e@ == "Agent "@ + uuid_hyphenated(
                    agent_id,
                ) + " not found"@,
            },
    {
        match self.agents.get(agent_id) {
            Some(slot) => Ok(slot),
            None => {
                let mut e = owned("Agent ");
                push_all(&mut e, id_text(agent_id).as_str());
                push_all(&mut e, " not found");
                Err(e)
            },
        }
    }

    /// Keeps a sub-agent under its id and name and returns the id.
    pub fn spawn_sub_agent(&mut self, id: u128, name: &str, agent: A) -> (r: u128)
        requires
            old(self).wf(),
        ensures
            r == id,
            final(self).wf(),
            final(self).sub_agents.item(id) matches Some(slot) && slot.name@ == name@ && slot.agent
                == agent,
            forall|k: u128| k != id ==> final(self).sub_agents.item(k) == old(self).sub_agents.item(k),
            final(self).sessions == old(self).sessions,
            final(self).agents == old(self).agents,
    {
        self.sub_agents.insert(id, AgentSlot { name: owned(name), agent });
        id
    }

    /// The sub-agent with id `id`, if any.
    pub fn get_sub_agent(&self, id: u128) -> (r: Option<&AgentSlot<A>>)
        requires
            self.wf(),
        ensures
            match r {
                Some(x) => self.sub_agents.item(id) == Some(*x),
                None => self.sub_agents.item(id) is None,
            },
    {
        self.sub_agents.get(id)
    }

    /// Removes the sub-agent with id `id` and returns it.
    pub fn remove_sub_agent(&mut self, id: u128) -> (r: Option<AgentSlot<A>>)
        requires
            old(self).wf(),
        ensures
            final(self).wf(),
            r == old(self).sub_agents.item(id),
            final(self).sub_agents.item(id) is None,
            forall|k: u128| k != id ==> final(self).sub_agents.item(k) == old(self).sub_agents.item(k),
            final(self).sessions == old(self).sessions,
            final(self).agents == old(self).agents,
    {
        self.sub_agents.remove(id)
    }

    /// How many sub-agents are kept.
    pub fn sub_agent_count(&self) -> (r: usize)
        ensures
            r == self.sub_agents.entries().len(),
    {
        self.sub_agents.len()
    }

    /// The sub-agents.
    pub fn list_sub_agents(&self) -> (r: Vec<&AgentSlot<A>>)
        ensures
            r@.len() == self.sub_agents.entries().len(),
            forall|i: int| 0 <= i < r@.len() ==> *(#[trigger] r@[i]) == self.sub_agents.entries()[i].1,
    {
        self.sub_agents.list()
    }
}

/// The note a session gets of a task's result.
pub fn task_result_note(summary: &str) -> (r: String)
    ensures
        r@ == "Task result: "@ + summary@,
{
    let mut r = owned("Task result: ");
    push_all(&mut r, summary);
    r
}

impl<M, A> Runtime<Session<M>, A> {
    /// Opens an empty session with id `id` at `now` and returns its id.
    pub fn create_session(&mut self, id: u128, now: i64) -> (r: u128)
        requires
            old(self).wf(),
        ensures
            r == id,
            final(self).wf(),
            final(self).sessions.item(id) matches Some(s) && s.id == id && s.label is None
                && s.messages@.len() == 0 && s.created_at == now && s.updated_at == now
                && s.metadata@.len() == 0,
            forall|k: u128| k != id ==> final(self).sessions.item(k) == old(self).sessions.item(k),
            final(self).agents == old(self).agents,
            final(self).sub_agents == old(self).sub_agents,
    {
        self.sessions.insert(id, Session::new(id, now));
        id
    }

    /// Opens an empty session labelled `label` and returns its id.
    pub fn create_session_with_label(&mut self, id: u128, label: &str, now: i64) -> (r: u128)
        requires
            old(self).wf(),
        ensures
            r == id,
            final(self).wf(),
            final(self).sessions.item(id) matches Some(s) && s.id == id && (s.label matches Some(
                l,
            ) && l@ == label@) && s.messages@.len() == 0 && s.created_at == now && s.updated_at
                == now && s.metadata@.len() == 0,
            forall|k: u128| k != id ==> final(self).sessions.item(k) == old(self).sessions.item(k),
            final(self).agents == old(self).agents,
            final(self).sub_agents == old(self).sub_agents,
    {
        self.sessions.insert(id, Session::with_label(id, label, now));
        id
    }

    /// Appends a task's result note to the session `session_id`, when one
    /// is given and exists; other sessions are untouched.
    pub fn record_task_result(&mut self, session_id: Option<u128>, note: M, now: i64)
        requires
            old(self).wf(),
        ensures
            final(self).wf(),
            final(self).agents == old(self).agents,
            final(self).sub_agents == old(self).sub_agents,
            match session_id {
                Some(id) => match old(self).sessions.item(id) {
                    Some(s) => {
                        &&& final(self).sessions.item(id) matches Some(t)
                        &&& t.messages@ == s.messages@.push(note)
                        &&& t.updated_at == now
                        &&& t.id == s.id && t.label == s.label && t.created_at == s.created_at
                        &&& t.metadata == s.metadata
                        &&& forall|k: u128| k != id ==> final(self).sessions.item(k) == old(self).sessions.item(k)
                    },
                    None => forall|k: u128| final(self).sessions.item(k) == old(self).sessions.item(k),
                },
                None => final(self).sessions == old(self).sessions,
            },
    {
        if let Some(id) = session_id {
            if let Some(mut s) = self.sessions.remove(id) {
                s.add_message(note, now);
                self.sessions.insert(id, s);
            }
        }
    }
}

impl<T> IdTable<T> {
    /// The ids, in insertion order.
    pub fn ids(&self) -> (r: Vec<u128>)
        ensures
            r@.len() == self.entries().len(),
            forall|i: int| 0 <= i < r@.len() ==> #[trigger] r@[i] == self.entries()[i].0,
    {
        let mut out: Vec<u128> = Vec::new();
        let mut i: usize = 0;
        while i < self.items.len()
            invariant
                i <= self.items@.len(),
                out@.len() == i,
                forall|k: int| 0 <= k < i ==> #[trigger] out@[k] == self.items@[k].0,
            decreases self.items@.len() - i,
        {
            out.push(self.items[i].0);
            i = i + 1;
        }
        out
    }
}

/// The names of a list of named tools.
pub open spec fn tool_names<T>(tools: Seq<(String, T)>) -> Seq<Seq<char>> {
    tools.map_values(|t: (String, T)| t.0@)
}

/// The tools of `tools` not named `name`, in order.
pub open spec fn without_named<T>(tools: Seq<(String, T)>, name: Seq<char>) -> Seq<(String, T)> {
    tools.filter(|t: (String, T)| t.0@ != name)
}

/// An agent: its identity, the engine that drives it, the provider it
/// talks to, and its tools, each under the name the tool reports.
#[derive(Debug, Clone)]
pub struct Agent<E, P, T> {
    pub id: u128,
    pub name: String,
    pub engine: E,
    pub provider: P,
    pub tools: Vec<(String, T)>,
}

impl<E, P, T> Agent<E, P, T> {
    /// The agent's tools.
    pub open spec fn tool_list(&self) -> Seq<(String, T)> {
        self.tools@
    }

    /// The agent's engine.
    pub open spec fn engine_of(&self) -> E {
        self.engine
    }

    /// The agent's provider.
    pub open spec fn provider_of(&self) -> P {
        self.provider
    }

    /// An agent with id `id`.
    pub fn new(id: u128, name: &str, engine: E, provider: P, tools: Vec<(String, T)>) -> (r: Agent<E, P, T>)
        ensures
            r.id == id,
            r.name@ == name@,
            r.engine_of() == engine,
            r.provider_of() == provider,
            r.tool_list() == tools@,
    {
        Agent { id, name: owned(name), engine, provider, tools }
    }

    /// The provider.
    pub fn provider(&self) -> (r: &P)
        ensures
            *r == self.provider_of(),
    {
        &self.provider
    }

    /// The engine.
    pub fn engine(&self) -> (r: &E)
        ensures
            *r == self.engine_of(),
    {
        &self.engine
    }

    /// The tools, in the order they were added.
    pub fn tools(&self) -> (r: &[(String, T)])
        ensures
            r@ == self.tool_list(),
    {
        self.tools.as_slice()
    }

    /// Adds a tool under its name.
    pub fn add_tool(&mut self, name: String, tool: T)
        ensures
            final(self).tool_list() == old(self).tool_list().push((name, tool)),
            final(self).id == old(self).id,
            final(self).name == old(self).name,
    {
        self.tools.push((name, tool));
    }

    /// Removes every tool named `name`.
    pub fn remove_tool(&mut self, name: &str)
        ensures
            final(self).tool_list() == without_named(old(self).tool_list(), name@),
            final(self).id == old(self).id,
            final(self).name == old(self).name,
    {
        let ghost before = self.tools@;
        let ghost pred = |x: (String, T)| x.0@ != name@;
        let mut i: usize = 0;
        let ghost mut j: int = 0;
        while i < self.tools.len()
            invariant
                0 <= j <= before.len(),
                i <= self.tools@.len(),
                self.tools@.take(i as int) == before.take(j).filter(pred),
                self.tools@.skip(i as int) == before.skip(j),
                pred == (|x: (String, T)| x.0@ != name@),
                self.id == old(self).id,
                self.name == old(self).name,
            decreases self.tools@.len() - i,
        {
            let ghost cur = self.tools@;
            proof {
                assert(cur.skip(i as int).len() == cur.len() - i);
                assert(before.skip(j).len() == before.len() - j);
                assert(j < before.len());
                assert(cur[i as int] == cur.skip(i as int)[0]);
                assert(before.skip(j)[0] == before[j]);
                assert(before.take(j + 1) =~= before.take(j).push(before[j]));
                before.take(j).lemma_filter_push(before[j], pred);
            }
            if str_eq(self.tools[i].0.as_str(), name) {
                self.tools.remove(i);
                proof {
                    assert(self.tools@.take(i as int) =~= cur.take(i as int));
                    assert(self.tools@.skip(i as int) =~= cur.skip(i as int).skip(1));
                    assert(before.skip(j).skip(1) =~= before.skip(j + 1));
                    j = j + 1;
                }
            } else {
                i = i + 1;
                proof {
                    assert(self.tools@.take(i as int) =~= cur.take(i - 1).push(cur[i - 1]));
                    assert(self.tools@.skip(i as int) =~= cur.skip(i - 1).skip(1));
                    assert(before.skip(j).skip(1) =~= before.skip(j + 1));
                    j = j + 1;
                }
            }
        }
        proof {
            assert(before.skip(j).len() == 0);
            assert(j == before.len());
            assert(before.take(j) =~= before);
            assert(self.tools@.take(i as int) =~= self.tools@);
        }
    }

    /// Whether a tool named `name` is present.
    pub fn has_tool(&self, name: &str) -> (r: bool)
        ensures
            r == tool_names(self.tool_list()).contains(name@),
    {
        let mut i: usize = 0;
        while i < self.tools.len()
            invariant
                i <= self.tools@.len(),
                forall|k: int| 0 <= k < i ==> self.tools@[k].0@ != name@,
            decreases self.tools@.len() - i,
        {
            if str_eq(self.tools[i].0.as_str(), name) {
                assert(tool_names(self.tools@)[i as int] == name@);
                return true;
            }
            i = i + 1;
        }
        proof {
            if tool_names(self.tools@).contains(name@) {
                let k = choose|k: int| 0 <= k < tool_names(self.tools@).len() && tool_names(self.tools@)[k] == name@;
                assert(self.tools@[k].0@ == name@);
            }
        }
        false
    }
}

/// After removing the tools named `name`, no tool of that name is left,
/// and every tool of another name is still there.
pub proof fn law_removed_tool_is_gone<T>(tools: Seq<(String, T)>, name: Seq<char>)
    ensures
        !tool_names(without_named(tools, name)).contains(name),
        forall|i: int| 0 <= i < tools.len() && tools[i].0@ != name ==> without_named(tools, name).contains(
            #[trigger] tools[i],
        ),
{
    let pred = |t: (String, T)| t.0@ != name;
    let f = tools.filter(pred);
    broadcast use vstd::seq_lib::group_filter_ensures;
    if tool_names(f).contains(name) {
        let k = choose|k: int| 0 <= k < tool_names(f).len() && tool_names(f)[k] == name;
        assert(pred(f[k]));
    }
    assert forall|i: int| 0 <= i < tools.len() && tools[i].0@ != name implies without_named(tools, name).contains(
        #[trigger] tools[i],
    ) by {
        tools.lemma_filter_contains(pred, i);
    }
}

} // verus!
