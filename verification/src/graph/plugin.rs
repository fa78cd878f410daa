//! Node plugins: an application registers node kinds up front, then builds graph nodes by
//! plugin type and configuration at run time.
use crate::text::{concat, lemma_seq_lt_total, lemma_seq_lt_transitive, seq_lt, str_eq, str_lt};
use std::sync::Arc;
use vstd::prelude::*;

verus! {

/// A JSON value, carried through to the plugin that reads it.
#[verifier::external_type_specification]
#[verifier::external_body]
pub struct ExJsonValue(serde_json::Value);

/// Error of building graph nodes from plugins.
#[derive(Clone, Debug)]
pub enum GraphError {
    /// The graph cannot be built as asked.
    CompilationError(String),
}

/// Builds graph nodes for one plugin type from configuration.
pub trait NodePlugin {
    /// The nodes this plugin builds.
    type Node;

    /// Stable plugin type identifier used for registration and lookup.
    fn plugin_type(&self) -> &str;

    /// A node named `name` built from `config`.
    fn create_node(&self, name: &str, config: &serde_json::Value) -> Result<Self::Node, GraphError>;
}

/// The message of registering a plugin type twice.
pub open spec fn duplicate_message(plugin_type: Seq<char>) -> Seq<char> {
    "Plugin type '"@ + plugin_type + "' is already registered"@
}

/// The message of asking for a plugin type that was never registered.
pub open spec fn unregistered_message(plugin_type: Seq<char>) -> Seq<char> {
    "Plugin type '"@ + plugin_type + "' is not registered"@
}

/// `r` failed to build the graph with `message`.
pub open spec fn compile_fails<T>(r: Result<T, GraphError>, message: Seq<char>) -> bool {
    r matches Err(GraphError::CompilationError(m)) && m@ == message
}

/// No two entries of `s` are equal.
pub open spec fn distinct(s: Seq<Seq<char>>) -> bool {
    forall|i: int, j: int| 0 <= i < s.len() && 0 <= j < s.len() && i != j ==> #[trigger] s[i] != #[trigger] s[j]
}

/// `s` is in strictly increasing order.
pub open spec fn ascending(s: Seq<Seq<char>>) -> bool {
    forall|i: int, j: int| 0 <= i < j < s.len() ==> seq_lt(#[trigger] s[i], #[trigger] s[j])
}

/// Registered plugins by plugin type; each type at most once.
pub struct NodePluginRegistry<P> {
    types: Vec<String>,
    plugins: Vec<Arc<P>>,
}

impl<P> NodePluginRegistry<P> {
    /// The registered plugin types, in registration order.
    pub closed spec fn types(&self) -> Seq<Seq<char>> {
        self.types@.map_values(|s: String| s@)
    }

    /// The registered plugins, in registration order.
    pub closed spec fn plugin_seq(&self) -> Seq<P> {
        self.plugins@.map_values(|a: Arc<P>| *a)
    }

    /// The plugin registered `k`-th.
    pub open spec fn plugin_at(&self, k: int) -> P {
        self.plugin_seq()[k]
    }

    /// Each type is registered once, with one plugin.
    pub closed spec fn wf(&self) -> bool {
        &&& self.plugins@.len() == self.types@.len()
        &&& distinct(self.types())
    }

    /// An empty registry.
    pub fn new() -> (r: Self)
        ensures
            r.wf(),
            r.types().len() == 0,
    {
        let r = NodePluginRegistry { types: Vec::new(), plugins: Vec::new() };
        proof {
            assert(r.types() =~= Seq::<Seq<char>>::empty());
        }
        r
    }

    fn position(&self, plugin_type: &str) -> (r: Option<usize>)
        requires
            self.wf(),
        ensures
            match r {
                Some(k) => k < self.types().len() && self.types()[k as int] == plugin_type@,
                None => !self.types().contains(plugin_type@),
            },
    {
        let mut k: usize = 0;
        while k < self.types.len()
            invariant
                k <= self.types@.len(),
                forall|j: int| 0 <= j < k ==> #[trigger] self.types()[j] != plugin_type@,
            decreases self.types@.len() - k,
        {
            if str_eq(self.types[k].as_str(), plugin_type) {
                return Some(k);
            }
            k = k + 1;
        }
        None
    }

    /// Registers `plugin` under `plugin_type`, unless that type is already registered.
    pub fn register_as(&mut self, plugin_type: &str, plugin: Arc<P>) -> (r: Result<(), GraphError>)
        requires
            old(self).wf(),
        ensures
            final(self).wf(),
            old(self).types().contains(plugin_type@) ==> compile_fails(r, duplicate_message(plugin_type@))
                && final(self).types() == old(self).types() && final(self).plugin_seq() == old(self).plugin_seq(),
            !old(self).types().contains(plugin_type@) ==> r is Ok && final(self).types() == old(self).types().push(plugin_type@)
                && final(self).plugin_seq() == old(self).plugin_seq().push(*plugin),
    {
        match self.position(plugin_type) {
            Some(_) => {
                let a = concat("Plugin type '", plugin_type);
                let m = concat(a.as_str(), "' is already registered");
                proof {
                    assert(m@ =~= duplicate_message(plugin_type@));
                }
                Err(GraphError::CompilationError(m))
            },
            None => {
                let ghost before = self.types();
                let ghost before_plugins = self.plugin_seq();
                self.types.push(plugin_type.to_owned());
                self.plugins.push(plugin);
                proof {
                    assert(self.types() =~= before.push(plugin_type@));
                    assert(self.plugin_seq() =~= before_plugins.push(*self.plugins@.last()));
                }
                Ok(())
            },
        }
    }

    /// Registers a shared plugin under the type it reports; a type registered already is
    /// refused (see [NodePluginRegistry::register_as]).
    pub fn register_plugin_arc(&mut self, plugin: Arc<P>) -> (r: Result<(), GraphError>) where P: NodePlugin
        requires
            old(self).wf(),
        ensures
            final(self).wf(),
            r is Err ==> final(self).types() == old(self).types() && final(self).plugin_seq() == old(self).plugin_seq(),
            r is Err ==> exists|t: Seq<char>| #[trigger] old(self).types().contains(t) && compile_fails(r, duplicate_message(t)),
            r is Ok ==> final(self).types().len() == old(self).types().len() + 1 && final(self).types().drop_last()
                == old(self).types() && !old(self).types().contains(final(self).types().last())
                && final(self).plugin_seq() == old(self).plugin_seq().push(*plugin),
    {
        let plugin_type = plugin.plugin_type().to_owned();
        let r = self.register_as(plugin_type.as_str(), plugin);
        proof {
            if r is Err {
                assert(old(self).types().contains(plugin_type@));
            }
            if r is Ok {
                assert(self.types().drop_last() =~= old(self).types());
            }
        }
        r
    }

    /// Registers a plugin by value (see [NodePluginRegistry::register_plugin_arc]).
    pub fn register_plugin(&mut self, plugin: P) -> (r: Result<(), GraphError>) where P: NodePlugin
        requires
            old(self).wf(),
        ensures
            final(self).wf(),
            r is Err ==> final(self).types() == old(self).types() && final(self).plugin_seq() == old(self).plugin_seq(),
            r is Err ==> exists|t: Seq<char>| #[trigger] old(self).types().contains(t) && compile_fails(r, duplicate_message(t)),
            r is Ok ==> final(self).types().len() == old(self).types().len() + 1 && final(self).types().drop_last()
                == old(self).types() && !old(self).types().contains(final(self).types().last())
                && final(self).plugin_seq() == old(self).plugin_seq().push(plugin),
    {
        self.register_plugin_arc(Arc::new(plugin))
    }

    /// Whether a plugin type is registered.
    pub fn contains(&self, plugin_type: &str) -> (r: bool)
        requires
            self.wf(),
        ensures
            r == self.types().contains(plugin_type@),
    {
        self.position(plugin_type).is_some()
    }

    /// The registered plugin types in ascending order.
    pub fn plugin_types(&self) -> (r: Vec<String>)
        requires
            self.wf(),
        ensures
            r@.len() == self.types().len(),
            ascending(r@.map_values(|s: String| s@)),
            forall|t: Seq<char>| #[trigger] self.types().contains(t) <==> r@.map_values(|s: String| s@).contains(t),
    {
        let mut out: Vec<String> = Vec::new();
        let n = self.types.len();
        let mut i: usize = 0;
        while i < n
            invariant
                n == self.types@.len(),
                i <= n,
                self.wf(),
                out@.len() == i,
                ascending(out@.map_values(|s: String| s@)),
                forall|t: Seq<char>| #[trigger] self.types().take(i as int).contains(t) <==> out@.map_values(|s: String| s@).contains(t),
            decreases n - i,
        {
            let t = &self.types[i];
            let ghost tv = t@;
            let ghost before = out@.map_values(|s: String| s@);
            proof {
                assert(self.types()[i as int] == tv);
                if before.contains(tv) {
                    assert(self.types().take(i as int).contains(tv));
                    let q = choose|q: int| 0 <= q < i && #[trigger] self.types().take(i as int)[q] == tv;
                    assert(self.types().take(i as int)[q] == self.types()[q]);
                    assert(self.types()[q] == self.types()[i as int]);
                    assert(false);
                }
            }
            let mut p: usize = 0;
            while p < out.len() && !str_lt(t.as_str(), out[p].as_str())
                invariant
                    p <= out@.len(),
                    tv == t@,
                    before == out@.map_values(|s: String| s@),
                    ascending(before),
                    !before.contains(tv),
                    forall|q: int| 0 <= q < p ==> seq_lt(#[trigger] before[q], tv),
                decreases out@.len() - p,
            {
                proof {
                    assert(before[p as int] == out@[p as int]@);
                    if before[p as int] == tv {
                        assert(before.contains(tv));
                    }
                    lemma_seq_lt_total(tv, before[p as int]);
                    assert(seq_lt(before[p as int], tv));
                }
                p = p + 1;
            }
            out.insert(p, t.clone());
            proof {
                let after = out@.map_values(|s: String| s@);
                assert(after =~= before.insert(p as int, tv));
                assert forall|a: int, b: int| 0 <= a < b < after.len() implies seq_lt(#[trigger] after[a], #[trigger] after[b]) by {
                    if b < p {
                    } else if a < p && b == p {
                    } else if a < p && b > p {
                        assert(seq_lt(before[a], tv));
                        assert(seq_lt(tv, before[p as int]));
                        if b - 1 > p {
                            lemma_seq_lt_transitive(tv, before[p as int], before[b - 1]);
                        }
                        lemma_seq_lt_transitive(before[a], tv, before[b - 1]);
                    } else if a == p {
                        assert(seq_lt(tv, before[p as int]));
                        if b - 1 > p {
                            lemma_seq_lt_transitive(tv, before[p as int], before[b - 1]);
                        }
                    } else {
                    }
                }
                assert forall|x: Seq<char>| #[trigger] self.types().take(i + 1).contains(x) <==> after.contains(x) by {
                    if self.types().take(i + 1).contains(x) {
                        let q = choose|q: int| 0 <= q < i + 1 && #[trigger] self.types().take(i + 1)[q] == x;
                        if q < i {
                            assert(self.types().take(i as int)[q] == x);
                            assert(self.types().take(i as int).contains(x));
                            assert(before.contains(x));
                            let w = choose|w: int| 0 <= w < before.len() && #[trigger] before[w] == x;
                            if w < p {
                                assert(after[w] == x);
                            } else {
                                assert(after[w + 1] == x);
                            }
                        } else {
                            assert(after[p as int] == x);
                        }
                    }
                    if after.contains(x) {
                        let w = choose|w: int| 0 <= w < after.len() && #[trigger] after[w] == x;
                        if w == p {
                            assert(self.types().take(i + 1)[i as int] == x);
                        } else {
                            let v = if w < p { w } else { w - 1 };
                            assert(before[v] == x);
                            assert(before.contains(x));
                            assert(self.types().take(i as int).contains(x));
                            let q = choose|q: int| 0 <= q < i && #[trigger] self.types().take(i as int)[q] == x;
                            assert(self.types().take(i + 1)[q] == x);
                        }
                    }
                }
            }
            i = i + 1;
        }
        proof {
            assert(self.types().take(n as int) =~= self.types());
        }
        out
    }

    /// The plugin registered for `plugin_type`.
    pub fn plugin_for(&self, plugin_type: &str) -> (r: Result<&P, GraphError>)
        requires
            self.wf(),
        ensures
            !self.types().contains(plugin_type@) ==> compile_fails(r, unregistered_message(plugin_type@)),
            self.types().contains(plugin_type@) ==> (r matches Ok(p) && exists|k: int|
                0 <= k < self.types().len() && self.types()[k] == plugin_type@ && *p == self.plugin_at(k)),
    {
        match self.position(plugin_type) {
            Some(k) => {
                proof {
                    assert(self.plugin_seq()[k as int] == *self.plugins@[k as int]);
                    assert(self.plugin_at(k as int) == *self.plugins@[k as int]);
                    assert(self.types()[k as int] == plugin_type@);
                }
                Ok(&*self.plugins[k])
            },
            None => {
                let a = concat("Plugin type '", plugin_type);
                let m = concat(a.as_str(), "' is not registered");
                proof {
                    assert(m@ =~= unregistered_message(plugin_type@));
                }
                Err(GraphError::CompilationError(m))
            },
        }
    }

    /// Builds a node named `name` with the plugin registered for `plugin_type`; an
    /// unregistered type is refused. What the plugin answers is its own.
    pub fn create_node(&self, name: &str, plugin_type: &str, config: &serde_json::Value) -> (r: Result<P::Node, GraphError>) where
        P: NodePlugin,

        requires
            self.wf(),
        ensures
            !self.types().contains(plugin_type@) ==> compile_fails(r, unregistered_message(plugin_type@)),
    {
        let plugin = self.plugin_for(plugin_type)?;
        plugin.create_node(name, config)
    }
}

impl<P> Default for NodePluginRegistry<P> {
    /// An empty registry.
    fn default() -> (r: Self)
        ensures
            r.wf(),
            r.types().len() == 0,
    {
        NodePluginRegistry::new()
    }
}

} // verus!
