//! The incremental engine: it owns the dependency graph and a queue of
//! evaluation events, re-evaluates a document on demand, and, when one
//! file's content is replaced, re-runs evaluation for that file and for
//! every loaded document that transitively imports it.

use vstd::prelude::*;
use crate::base::{ErrV, RuntimeError};
use crate::evaluator;
use crate::evaluator::{eval_document, not_document_err, not_loaded_err};
use crate::graph::{dep_index, dependents_spec, entry_matches, find_dep, DependencyContent,
    DependencyGraph};
use crate::js_virt::{JsObject, JsValue, JsValueV};
use crate::virt;
use crate::virt::{opt_node_view, NodeV};

verus! {

/// One evaluation result: the uri and the virtual tree it produced.
pub struct Evaluated {
    pub file_path: String,
    pub node: Option<virt::Node>,
}

/// An engine event. A single variant today; a diff event would take its
/// place beside it.
pub enum EngineEvent {
    Evaluated(Evaluated),
}

/// Mathematical image of an event.
pub struct EventV {
    pub file_path: Seq<char>,
    pub node: Option<NodeV>,
}

impl View for EngineEvent {
    type V = EventV;

    open spec fn view(&self) -> EventV {
        match self {
            EngineEvent::Evaluated(ev) => EventV {
                file_path: ev.file_path@,
                node: opt_node_view(ev.node),
            },
        }
    }
}

pub open spec fn events_view(es: Seq<EngineEvent>) -> Seq<EventV> {
    Seq::new(es.len(), |i: int| es[i]@)
}

/// What evaluating one loaded uri yields: the evaluated tree of its
/// document, or an error when the uri is not loaded or holds a bare
/// stylesheet.
pub open spec fn load_result(g: DependencyGraph, uri: Seq<char>) -> Result<Option<NodeV>, ErrV> {
    match find_dep(g, uri) {
        None => Err(not_loaded_err(uri)),
        Some(dep) => match dep.content {
            DependencyContent::Node(node) => eval_document(
                g,
                node,
                uri,
                JsValueV::Object(Seq::empty()),
            ),
            DependencyContent::StyleSheet(_) => Err(not_document_err(uri)),
        },
    }
}

/// The events an update pass appends while walking the dependents in
/// order, and the error that stopped it, if one did.
pub open spec fn update_events(g: DependencyGraph, deps: Seq<Seq<char>>, i: int) -> (
    Seq<EventV>,
    Option<ErrV>,
)
    decreases deps.len() - i,
{
    if i < 0 || i >= deps.len() {
        (Seq::empty(), None)
    } else {
        match load_result(g, deps[i]) {
            Ok(n) => {
                let (rest, e) = update_events(g, deps, i + 1);
                (seq![EventV { file_path: deps[i], node: n }] + rest, e)
            },
            Err(e) => (Seq::empty(), Some(e)),
        }
    }
}

/// The engine: the event queue and the dependency graph it owns.
pub struct Engine {
    pub events: Vec<EngineEvent>,
    pub dependency_graph: DependencyGraph,
}

impl Engine {
    /// The queued events, as values.
    pub open spec fn events_spec(&self) -> Seq<EventV> {
        events_view(self.events@)
    }

    /// A fresh engine with an empty graph and no events.
    pub fn new() -> (r: Engine)
        ensures
            r.events_spec() == Seq::<EventV>::empty(),
            r.dependency_graph.dependencies@ == Seq::<crate::graph::Dependency>::empty(),
    {
        let r = Engine { events: Vec::new(), dependency_graph: DependencyGraph::new() };
        proof {
            assert(r.events_spec() =~= Seq::<EventV>::empty());
        }
        r
    }

    /// Evaluate one loaded uri and queue the result.
    fn evaluate(&mut self, file_path: &String) -> (r: Result<(), RuntimeError>)
        ensures
            final(self).dependency_graph == old(self).dependency_graph,
            ({
                match load_result(old(self).dependency_graph, file_path@) {
                    Ok(n) => r is Ok && final(self).events_spec() == old(self).events_spec().push(
                        EventV { file_path: file_path@, node: n },
                    ),
                    Err(e) => r is Err && r->Err_0@ == e && final(self).events_spec() == old(
                        self,
                    ).events_spec(),
                }
            }),
    {
        let ghost pre = self.events_spec();
        let dependency = match self.dependency_graph.get_dependency(file_path) {
            Some(d) => d,
            None => {
                return Err(
                    RuntimeError::new(
                        crate::base::ErrorKind::Resolution,
                        file_path.clone(),
                        "Dependency not found!".to_owned(),
                        None,
                    ),
                );
            },
        };
        let node = match &dependency.content {
            DependencyContent::Node(node_expr) => {
                let data = JsValue::JsObject(JsObject::new());
                match evaluator::evaluate(node_expr, file_path, &self.dependency_graph, &data, None)
                {
                    Ok(n) => n,
                    Err(e) => {
                        return Err(e);
                    },
                }
            },
            DependencyContent::StyleSheet(_) => {
                return Err(
                    RuntimeError::new(
                        crate::base::ErrorKind::Resolution,
                        file_path.clone(),
                        "Dependency is not a document!".to_owned(),
                        None,
                    ),
                );
            },
        };
        self.events.push(
            EngineEvent::Evaluated(Evaluated { file_path: file_path.clone(), node }),
        );
        proof {
            assert(self.events_spec() =~= pre.push(self.events@.last()@));
        }
        Ok(())
    }

    /// Re-evaluate one loaded uri, queueing its result.
    pub fn load(&mut self, file_path: String) -> (r: Result<(), RuntimeError>)
        ensures
            final(self).dependency_graph == old(self).dependency_graph,
            ({
                match load_result(old(self).dependency_graph, file_path@) {
                    Ok(n) => r is Ok && final(self).events_spec() == old(self).events_spec().push(
                        EventV { file_path: file_path@, node: n },
                    ),
                    Err(e) => r is Err && r->Err_0@ == e && final(self).events_spec() == old(
                        self,
                    ).events_spec(),
                }
            }),
    {
        self.evaluate(&file_path)
    }

    /// Replace the parsed content of one uri, then re-evaluate it and
    /// every loaded document that transitively imports it, in dependent
    /// order, queueing one event per completed evaluation; an error stops
    /// the walk and is returned, the events queued so far staying put.
    #[verifier::loop_isolation(false)]
    pub fn update_virtual_file_content(&mut self, file_path: String, content: DependencyContent) -> (r:
        Result<(), RuntimeError>)
        ensures
            ({
                let g1 = final(self).dependency_graph;
                let deps = dependents_spec(g1, file_path@);
                let (evs, err) = update_events(g1, deps, 0);
                match err {
                    None => r is Ok && final(self).events_spec() == old(self).events_spec() + evs,
                    Some(e) => r is Err && r->Err_0@ == e && final(self).events_spec() == old(
                        self,
                    ).events_spec() + evs,
                }
            }),
            ({
                let pre = old(self).dependency_graph.dependencies@;
                let post = final(self).dependency_graph.dependencies@;
                match dep_index(pre, file_path@, 0) {
                    Some(i) => {
                        &&& post.len() == pre.len()
                        &&& forall|j: int| 0 <= j < pre.len() && j != i ==> post[j] == pre[j]
                        &&& entry_matches(post[i], file_path@, content)
                    },
                    None => {
                        &&& post.len() == pre.len() + 1
                        &&& forall|j: int| 0 <= j < pre.len() ==> post[j] == pre[j]
                        &&& entry_matches(post.last(), file_path@, content)
                    },
                }
            }),
    {
        self.dependency_graph.load_dependency(file_path.clone(), content);
        let dep_file_paths = self.dependency_graph.flatten_dependents(&file_path);
        let ghost g1 = self.dependency_graph;
        let ghost deps = dependents_spec(g1, file_path@);
        let ghost pre_events = self.events_spec();
        proof {
            assert(crate::ast::str_views(dep_file_paths@) == deps);
        }
        let mut i: usize = 0;
        while i < dep_file_paths.len()
            invariant
                0 <= i <= dep_file_paths@.len(),
                self.dependency_graph == g1,
                deps.len() == dep_file_paths@.len(),
                forall|j: int| 0 <= j < deps.len() ==> dep_file_paths@[j]@ == deps[j],
                ({
                    let (full_evs, full_err) = update_events(g1, deps, 0);
                    let (rest_evs, rest_err) = update_events(g1, deps, i as int);
                    &&& full_err == rest_err
                    &&& self.events_spec() == pre_events + full_evs.take(
                        full_evs.len() - rest_evs.len(),
                    )
                    &&& full_evs == full_evs.take(full_evs.len() - rest_evs.len()) + rest_evs
                }),
            decreases dep_file_paths@.len() - i,
        {
            let ghost acc = self.events_spec();
            let ghost (full_evs, full_err) = update_events(g1, deps, 0);
            let ghost (rest_evs, rest_err) = update_events(g1, deps, i as int);
            let dep_file_path = dep_file_paths[i].clone();
            match self.evaluate(&dep_file_path) {
                Ok(()) => {},
                Err(e) => {
                    proof {
                        assert(rest_err == Some(e@));
                        assert(rest_evs =~= Seq::<EventV>::empty());
                        assert(full_evs.take(full_evs.len() - rest_evs.len()) =~= full_evs);
                        assert(self.events_spec() =~= pre_events + full_evs);
                    }
                    return Err(e);
                },
            }
            proof {
                let (next_evs, next_err) = update_events(g1, deps, i as int + 1);
                let ev = EventV {
                    file_path: deps[i as int],
                    node: load_result(g1, deps[i as int])->Ok_0,
                };
                assert(rest_evs == seq![ev] + next_evs);
                assert(self.events_spec() =~= acc.push(ev));
                assert(full_evs.take(full_evs.len() - next_evs.len()) =~= full_evs.take(
                    full_evs.len() - rest_evs.len(),
                ).push(ev));
                assert(self.events_spec() =~= pre_events + full_evs.take(
                    full_evs.len() - next_evs.len(),
                ));
                assert(full_evs =~= full_evs.take(full_evs.len() - next_evs.len()) + next_evs);
            }
            i += 1;
        }
        proof {
            let (full_evs, full_err) = update_events(g1, deps, 0);
            let (rest_evs, rest_err) = update_events(g1, deps, deps.len() as int);
            assert(rest_evs =~= Seq::<EventV>::empty());
            assert(full_evs.take(full_evs.len() - rest_evs.len()) =~= full_evs);
            assert(self.events_spec() =~= pre_events + full_evs);
        }
        Ok(())
    }

    /// Hand every queued event out, leaving the queue empty.
    pub fn drain_events(&mut self) -> (r: Vec<EngineEvent>)
        ensures
            events_view(r@) == old(self).events_spec(),
            final(self).events_spec() == Seq::<EventV>::empty(),
            final(self).dependency_graph == old(self).dependency_graph,
    {
        let mut out: Vec<EngineEvent> = Vec::new();
        core::mem::swap(&mut out, &mut self.events);
        proof {
            assert(self.events_spec() =~= Seq::<EventV>::empty());
        }
        out
    }

    /// Reserved for cache eviction; holds nothing today.
    pub fn unload(&mut self, _file_path: String)
        ensures
            *final(self) == *old(self),
    {
    }
}

} // verus!
