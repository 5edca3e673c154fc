//! A graph abstraction whose node type is chosen by the implementor,
//! once through an associated type and once through generic
//! parameters, with a distance measure over node values.

use vstd::prelude::*;

verus! {

/// A node with an identifier, a label, and a value.
pub struct Node {
    pub id: i32,
    pub name: String,
    pub value: i32,
}

/// An edge between two nodes.
pub struct Edge {
    pub start: Node,
    pub ene: Node,
}

/// A graph: the node type is an associated type, and each node has an
/// integer value.
pub trait Graph {
    type N;

    /// The meaning of a node's value.
    spec fn spec_value(&self, n: &Self::N) -> i32;

    /// Reads a node's value.
    fn get_value(&self, n: &Self::N) -> (r: i32)
        ensures
            r == self.spec_value(n),
    ;
}

/// The one concrete graph here: its nodes carry their value directly.
pub struct MyGraph {}

impl Graph for MyGraph {
    type N = Node;

    open spec fn spec_value(&self, n: &Node) -> i32 {
        n.value
    }

    fn get_value(&self, n: &Node) -> (r: i32) {
        return n.value;
    }
}

/// The distance from `s` to `e` in `g`: the difference of their
/// values.
pub fn distance<G: Graph>(g: &G, s: &G::N, e: &G::N) -> (r: i32)
    requires
        i32::MIN <= g.spec_value(e) - g.spec_value(s) <= i32::MAX,
    ensures
        r == g.spec_value(e) - g.spec_value(s),
{
    g.get_value(e) - g.get_value(s)
}

/// The same graph abstraction with the node and edge types as generic
/// parameters instead of associated types.
pub trait GraphGeneric<N, E> {
    /// The meaning of a node's value.
    spec fn spec_value(&self, n: &N) -> i32;

    /// Reads a node's value.
    fn get_value(&self, n: &N) -> (r: i32)
        ensures
            r == self.spec_value(n),
    ;
}

impl GraphGeneric<Node, Edge> for MyGraph {
    open spec fn spec_value(&self, n: &Node) -> i32 {
        n.value
    }

    fn get_value(&self, n: &Node) -> (r: i32) {
        return n.value;
    }
}

/// The distance from `s` to `e` in `g`, over the generic form of the
/// graph trait.
pub fn distance_generic<N, E, G: GraphGeneric<N, E>>(g: &G, s: &N, e: &N) -> (r: i32)
    requires
        i32::MIN <= GraphGeneric::<N, E>::spec_value(g, e) - GraphGeneric::<N, E>::spec_value(
            g,
            s,
        ) <= i32::MAX,
    ensures
        r == GraphGeneric::<N, E>::spec_value(g, e) - GraphGeneric::<N, E>::spec_value(g, s),
{
    g.get_value(e) - g.get_value(s)
}

} // verus!
