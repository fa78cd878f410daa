//! Agent checkpoints: persist state at an interrupt and resume with decisions.
use crate::text::str_eq;
use vstd::prelude::*;

verus! {

/// A tool call the agent planned.
#[derive(Debug)]
pub struct AgentAction {
    pub tool: String,
    pub tool_input: String,
    pub log: String,
}

impl Clone for AgentAction {
    fn clone(&self) -> (r: Self)
        ensures
            r == *self,
    {
        AgentAction { tool: self.tool.clone(), tool_input: self.tool_input.clone(), log: self.log.clone() }
    }
}

/// Prompt variables (name, JSON text of the value).
pub type PromptArgs = Vec<(String, String)>;

/// Agent state saved at an interrupt.
#[derive(Debug)]
pub struct AgentCheckpointState {
    /// Steps (action, observation) so far.
    pub steps: Vec<(AgentAction, String)>,
    /// Last plan input (chat history, input, ...).
    pub input_variables: PromptArgs,
    /// Tool calls pending when the agent was interrupted, in interrupt order.
    pub pending_actions: Vec<AgentAction>,
}

fn clone_steps(v: &Vec<(AgentAction, String)>) -> (r: Vec<(AgentAction, String)>)
    ensures
        r@ == v@,
{
    let mut out: Vec<(AgentAction, String)> = Vec::new();
    let mut i: usize = 0;
    while i < v.len()
        invariant
            i <= v@.len(),
            out@ == v@.subrange(0, i as int),
        decreases v@.len() - i,
    {
        let item = (v[i].0.clone(), v[i].1.clone());
        out.push(item);
        proof {
            assert(out@ =~= v@.subrange(0, i + 1));
        }
        i = i + 1;
    }
    proof {
        assert(v@.subrange(0, v@.len() as int) =~= v@);
    }
    out
}

fn clone_pairs(v: &Vec<(String, String)>) -> (r: Vec<(String, String)>)
    ensures
        r@ == v@,
{
    let mut out: Vec<(String, String)> = Vec::new();
    let mut i: usize = 0;
    while i < v.len()
        invariant
            i <= v@.len(),
            out@ == v@.subrange(0, i as int),
        decreases v@.len() - i,
    {
        let item = (v[i].0.clone(), v[i].1.clone());
        out.push(item);
        proof {
            assert(out@ =~= v@.subrange(0, i + 1));
        }
        i = i + 1;
    }
    proof {
        assert(v@.subrange(0, v@.len() as int) =~= v@);
    }
    out
}

fn clone_actions(v: &Vec<AgentAction>) -> (r: Vec<AgentAction>)
    ensures
        r@ == v@,
{
    let mut out: Vec<AgentAction> = Vec::new();
    let mut i: usize = 0;
    while i < v.len()
        invariant
            i <= v@.len(),
            out@ == v@.subrange(0, i as int),
        decreases v@.len() - i,
    {
        out.push(v[i].clone());
        proof {
            assert(out@ =~= v@.subrange(0, i + 1));
        }
        i = i + 1;
    }
    proof {
        assert(v@.subrange(0, v@.len() as int) =~= v@);
    }
    out
}

impl AgentCheckpointState {
    /// The checkpoint's contents as plain values.
    pub open spec fn contents(&self) -> (Seq<(AgentAction, String)>, Seq<(String, String)>, Seq<AgentAction>) {
        (self.steps@, self.input_variables@, self.pending_actions@)
    }
}

impl Clone for AgentCheckpointState {
    fn clone(&self) -> (r: Self)
        ensures
            r.contents() == self.contents(),
    {
        AgentCheckpointState {
            steps: clone_steps(&self.steps),
            input_variables: clone_pairs(&self.input_variables),
            pending_actions: clone_actions(&self.pending_actions),
        }
    }
}

/// Persists and loads agent checkpoints per thread.
pub trait AgentCheckpointer {
    /// Saves the state of a thread, replacing any earlier one.
    fn put(&mut self, thread_id: &str, state: &AgentCheckpointState);

    /// Loads the state of a thread, if any.
    fn get(&self, thread_id: &str) -> Option<AgentCheckpointState>;
}

/// Contents of a checkpoint as plain values.
pub type CheckpointContents = (Seq<(AgentAction, String)>, Seq<(String, String)>, Seq<AgentAction>);

/// The checkpoint stored for `thread_id`: the first entry with that id.
pub open spec fn lookup(entries: Seq<(String, AgentCheckpointState)>, thread_id: Seq<char>) -> Option<CheckpointContents>
    decreases entries.len(),
{
    if entries.len() == 0 {
        None
    } else if entries[0].0@ == thread_id {
        Some(entries[0].1.contents())
    } else {
        lookup(entries.drop_first(), thread_id)
    }
}

proof fn lemma_lookup_suffix(entries: Seq<(String, AgentCheckpointState)>, thread_id: Seq<char>, i: int)
    requires
        0 <= i < entries.len(),
        entries[i].0@ != thread_id,
    ensures
        lookup(entries.subrange(i, entries.len() as int), thread_id) == lookup(entries.subrange(i + 1, entries.len() as int), thread_id),
{
    assert(entries.subrange(i, entries.len() as int).drop_first() =~= entries.subrange(i + 1, entries.len() as int));
}

proof fn lemma_lookup_update(entries: Seq<(String, AgentCheckpointState)>, i: int, e: (String, AgentCheckpointState), t: Seq<char>)
    requires
        0 <= i < entries.len(),
        entries[i].0@ == e.0@,
        forall|k: int| 0 <= k < i ==> #[trigger] entries[k].0@ != e.0@,
    ensures
        lookup(entries.update(i, e), t) == if t == e.0@ { Some(e.1.contents()) } else { lookup(entries, t) },
    decreases entries.len(),
{
    if i == 0 {
        assert(entries.update(i, e).drop_first() =~= entries.drop_first());
    } else {
        assert(entries.update(i, e).drop_first() =~= entries.drop_first().update(i - 1, e));
        lemma_lookup_update(entries.drop_first(), i - 1, e, t);
    }
}

proof fn lemma_lookup_push(entries: Seq<(String, AgentCheckpointState)>, e: (String, AgentCheckpointState), t: Seq<char>)
    requires
        forall|k: int| 0 <= k < entries.len() ==> #[trigger] entries[k].0@ != e.0@,
    ensures
        lookup(entries.push(e), t) == if t == e.0@ { Some(e.1.contents()) } else { lookup(entries, t) },
    decreases entries.len(),
{
    if entries.len() == 0 {
        assert(entries.push(e).drop_first() =~= Seq::<(String, AgentCheckpointState)>::empty());
        assert(entries.push(e)[0] == e);
        assert(lookup(Seq::<(String, AgentCheckpointState)>::empty(), t) is None);
        assert(lookup(entries, t) is None);
    } else {
        assert(entries.push(e).drop_first() =~= entries.drop_first().push(e));
        assert(entries.push(e)[0] == entries[0]);
        assert(entries[0].0@ != e.0@);
        lemma_lookup_push(entries.drop_first(), e, t);
    }
}

/// Checkpointer kept in memory: one state per thread.
pub struct InMemoryAgentSaver {
    entries: Vec<(String, AgentCheckpointState)>,
}

impl InMemoryAgentSaver {
    /// The checkpoint saved for a thread, if any.
    pub closed spec fn saved(&self, thread_id: Seq<char>) -> Option<CheckpointContents> {
        lookup(self.entries@, thread_id)
    }

    /// An empty saver.
    pub fn new() -> (r: Self)
        ensures
            forall|t: Seq<char>| #[trigger] r.saved(t) is None,
    {
        InMemoryAgentSaver { entries: Vec::new() }
    }

    fn find(&self, thread_id: &str) -> (r: Option<usize>)
        ensures
            r matches Some(i) ==> i < self.entries@.len() && self.entries@[i as int].0@ == thread_id@
                && forall|k: int| 0 <= k < i ==> #[trigger] self.entries@[k].0@ != thread_id@,
            r is None ==> forall|k: int| 0 <= k < self.entries@.len() ==> #[trigger] self.entries@[k].0@ != thread_id@,
            r matches Some(i) ==> lookup(self.entries@, thread_id@) == Some(self.entries@[i as int].1.contents()),
            r is None ==> lookup(self.entries@, thread_id@) is None,
    {
        let mut i: usize = 0;
        proof {
            assert(self.entries@.subrange(0, self.entries@.len() as int) =~= self.entries@);
        }
        while i < self.entries.len()
            invariant
                i <= self.entries@.len(),
                forall|k: int| 0 <= k < i ==> #[trigger] self.entries@[k].0@ != thread_id@,
                lookup(self.entries@, thread_id@) == lookup(self.entries@.subrange(i as int, self.entries@.len() as int), thread_id@),
            decreases self.entries@.len() - i,
        {
            if str_eq(self.entries[i].0.as_str(), thread_id) {
                return Some(i);
            }
            proof {
                lemma_lookup_suffix(self.entries@, thread_id@, i as int);
            }
            i = i + 1;
        }
        proof {
            assert(self.entries@.subrange(i as int, self.entries@.len() as int) =~= Seq::<(String, AgentCheckpointState)>::empty());
        }
        None
    }

    /// Saves a copy of `state` for the thread, replacing any earlier one; other threads are untouched.
    pub fn save(&mut self, thread_id: &str, state: &AgentCheckpointState)
        ensures
            final(self).saved(thread_id@) == Some(state.contents()),
            forall|t: Seq<char>| t != thread_id@ ==> #[trigger] final(self).saved(t) == old(self).saved(t),
    {
        let copy = state.clone();
        let entry = (thread_id.to_owned(), copy);
        match self.find(thread_id) {
            Some(i) => {
                proof {
                    assert forall|t: Seq<char>| #![auto] lookup(self.entries@.update(i as int, entry), t) == if t == thread_id@ { Some(state.contents()) } else { lookup(self.entries@, t) } by {
                        lemma_lookup_update(self.entries@, i as int, entry, t);
                    }
                }
                self.entries.set(i, entry);
            },
            None => {
                proof {
                    assert forall|t: Seq<char>| #![auto] lookup(self.entries@.push(entry), t) == if t == thread_id@ { Some(state.contents()) } else { lookup(self.entries@, t) } by {
                        lemma_lookup_push(self.entries@, entry, t);
                    }
                }
                self.entries.push(entry);
            },
        }
    }

    /// A copy of the thread's saved state, if any.
    pub fn load(&self, thread_id: &str) -> (r: Option<AgentCheckpointState>)
        ensures
            r is Some <==> self.saved(thread_id@) is Some,
            r matches Some(s) ==> self.saved(thread_id@) == Some(s.contents()),
    {
        match self.find(thread_id) {
            Some(i) => Some(self.entries[i].1.clone()),
            None => None,
        }
    }
}

impl AgentCheckpointer for InMemoryAgentSaver {
    /// Saves a copy of `state` for the thread (see [InMemoryAgentSaver::save]).
    fn put(&mut self, thread_id: &str, state: &AgentCheckpointState)
        ensures
            final(self).saved(thread_id@) == Some(state.contents()),
            forall|t: Seq<char>| t != thread_id@ ==> #[trigger] final(self).saved(t) == old(self).saved(t),
    {
        self.save(thread_id, state);
    }

    /// A copy of the thread's saved state, if any (see [InMemoryAgentSaver::load]).
    fn get(&self, thread_id: &str) -> (r: Option<AgentCheckpointState>)
        ensures
            r is Some <==> self.saved(thread_id@) is Some,
            r matches Some(s) ==> self.saved(thread_id@) == Some(s.contents()),
    {
        self.load(thread_id)
    }
}

} // verus!
