//! A directed graph laid over a generational area: nodes are payloads of the area and
//! name their neighbours by handle, so that an edge to a removed node dangles harmlessly.

use crate::genarea::{Area, IdxGen, OptEntry};
use std::collections::HashSet;
use vstd::prelude::*;

verus! {

/// A node: its payload and the handles of the nodes on either end of its edges.
#[derive(Debug)]
pub struct Node<T> {
    ingoing: HashSet<IdxGen>,
    outgoing: HashSet<IdxGen>,
    data: T,
}

/// The graph. Its view is the slot table of its nodes.
#[derive(Debug)]
pub struct DirectedGraph<T> {
    nodes: Area<Node<T>>,
}

impl<T> View for DirectedGraph<T> {
    type V = Seq<OptEntry<Node<T>>>;

    closed spec fn view(&self) -> Seq<OptEntry<Node<T>>> {
        self.nodes@
    }
}

impl<T> Default for DirectedGraph<T> {
    fn default() -> (graph: Self)
        ensures
            graph@ == Seq::<OptEntry<Node<T>>>::empty(),
    {
        DirectedGraph { nodes: Area::default() }
    }
}

impl<T> DirectedGraph<T> {
    /// Takes no graph and no payload, and changes nothing.
    pub fn add_node() {
    }

    /// Takes no graph and no handles, and changes nothing.
    pub fn add_edge() {
    }
}

} // verus!
