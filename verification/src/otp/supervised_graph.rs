//! A whole graph as one supervised child.

use vstd::prelude::*;

use crate::actor::graph::Graph;
use crate::actor::ingress::IngressHandle;
use crate::directory::Directory;
use crate::otp::runtime::ChildWork;
use crate::supervisor::child::ChildSpec;

verus! {

/// Convenience wrapper for supervising a whole actor graph as a single child.
#[derive(Debug)]
pub struct SupervisedGraph<F> {
    id: String,
    graph: Graph<F>,
}

impl<F> SupervisedGraph<F> {
    /// The id of the child.
    pub closed spec fn name(&self) -> Seq<char> {
        self.id@
    }

    /// The graph.
    pub closed spec fn wrapped(&self) -> Graph<F> {
        self.graph
    }

    /// Creates a new whole-graph child wrapper.
    pub fn new(id: String, graph: Graph<F>) -> (r: Self)
        ensures
            r.name() == id@,
            r.wrapped() == graph,
    {
        SupervisedGraph { id, graph }
    }

    /// Returns a stable handle to a named ingress, if it exists.
    pub fn ingress(&self, name: &str) -> (r: Option<IngressHandle>)
        ensures
            match r {
                Some(handle) => self.wrapped().entrances().contains_key(name@)
                    && self.wrapped().leads_into(name@, handle),
                None => !self.wrapped().entrances().contains_key(name@),
            },
    {
        self.graph.ingress(name)
    }

    /// Returns stable handles for every named ingress.
    pub fn ingresses(&self) -> (r: Directory<String, IngressHandle>)
        ensures
            r.names() == self.wrapped().entrance_names(),
            r@.dom() == self.wrapped().entrances().dom(),
            forall|name: Seq<char>| #[trigger]
                r@.contains_key(name) ==> self.wrapped().leads_into(name, r@[name]),
    {
        self.graph.ingresses()
    }

    /// Adapts the wrapped graph into a [`ChildSpec`] with default policies.
    pub fn into_child_spec<C>(self) -> (r: ChildSpec<ChildWork<F, C>>)
        ensures
            r.policies().id@ == self.name(),
            r.policies().restart is Transient,
            r.policies().restart_intensity is None,
            r.policies().shutdown_policy.mode is CooperativeThenAbort,
            r.policies().shutdown_policy.grace@ == 5_000_000_000,
            r.maker() == ChildWork::<F, C>::Graph(self.wrapped()),
    {
        ChildSpec::new(self.id, ChildWork::Graph(self.graph))
    }
}

} // verus!
