use vstd::prelude::*;

use crate::blob::Blob;
use crate::relation::Conn;

verus! {

/// A point on the canvas. The coordinates are IEEE-754 single-precision bit
/// patterns: the board stores and returns them and computes nothing on them.
#[derive(Clone, Copy, Debug, PartialEq, Eq, Structural)]
pub struct Position {
    pub x_bits: u32,
    pub y_bits: u32,
}

/// A node of the board: an optional document, a label, and where it was
/// pinned on the canvas if it was pinned.
#[derive(Clone, Debug)]
pub struct NodeEntry {
    pub payload: Option<Blob>,
    pub label: String,
    pub location: Option<Position>,
}

/// An undirected edge between nodes `a` and `b`.
#[derive(Clone, Debug)]
pub struct EdgeEntry {
    pub a: usize,
    pub b: usize,
    pub payload: Conn,
    pub label: String,
}

/// The nodes and edges of a board, each known by its index. An index stays
/// with its node or edge for as long as that lives; a removed one leaves an
/// empty slot, so no other index moves. The selection lists the indices the
/// user selected, in the order of selection.
#[derive(Clone, Debug)]
pub struct BoardGraph {
    pub nodes: Vec<Option<NodeEntry>>,
    pub edges: Vec<Option<EdgeEntry>>,
    pub selected_nodes: Vec<usize>,
    pub selected_edges: Vec<usize>,
}

/// `e` connects `a` and `b`, in either direction.
pub open spec fn joins(e: EdgeEntry, a: int, b: int) -> bool {
    (e.a == a && e.b == b) || (e.a == b && e.b == a)
}

/// `e` has `n` as one of its ends.
pub open spec fn touches(e: EdgeEntry, n: int) -> bool {
    e.a == n || e.b == n
}

/// Whether `x` is among the entries of `v`.
fn contains_index(v: &Vec<usize>, x: usize) -> (r: bool)
    ensures
        r == v@.contains(x),
{
    let mut i: usize = 0;
    while i < v.len()
        invariant
            0 <= i <= v@.len(),
            forall|k: int| 0 <= k < i ==> v@[k] != x,
        decreases v@.len() - i,
    {
        if v[i] == x {
            return true;
        }
        i = i + 1;
    }
    false
}

/// The entries of `v` other than `x`, in their order.
fn without(v: &Vec<usize>, x: usize) -> (r: Vec<usize>)
    ensures
        r@ == v@.filter(|k: usize| k != x),
        forall|k: int| 0 <= k < r@.len() ==> #[trigger] r@[k] != x && v@.contains(r@[k]),
{
    let mut r: Vec<usize> = Vec::new();
    let mut i: usize = 0;
    while i < v.len()
        invariant
            0 <= i <= v@.len(),
            r@ == v@.subrange(0, i as int).filter(|k: usize| k != x),
            forall|k: int| 0 <= k < r@.len() ==> #[trigger] r@[k] != x && v@.contains(r@[k]),
        decreases v@.len() - i,
    {
        proof {
            reveal(Seq::filter);
            assert(v@.subrange(0, i + 1).drop_last() =~= v@.subrange(0, i as int));
        }
        if v[i] != x {
            r.push(v[i]);
        }
        proof {
            if r@.len() > 0 {
                assert(v@.contains(v@[i as int]));
            }
        }
        i = i + 1;
    }
    assert(v@.subrange(0, v@.len() as int) =~= v@);
    r
}

/// Slot `i` of `edges` holds an edge.
pub open spec fn edge_live(edges: Seq<Option<EdgeEntry>>, i: int) -> bool {
    0 <= i < edges.len() && edges[i] is Some
}

impl BoardGraph {
    pub open spec fn has_node(&self, i: int) -> bool {
        0 <= i < self.nodes@.len() && self.nodes@[i] is Some
    }

    pub open spec fn has_edge(&self, i: int) -> bool {
        edge_live(self.edges@, i)
    }

    /// Every edge joins two live nodes, and only live nodes and edges are selected.
    pub open spec fn wf(&self) -> bool {
        &&& forall|e: int|
            #![trigger self.edges@[e]]
            self.has_edge(e) ==> self.has_node(self.edges@[e]->0.a as int) && self.has_node(
                self.edges@[e]->0.b as int,
            )
        &&& forall|k: int|
            0 <= k < self.selected_nodes@.len() ==> self.has_node(
                #[trigger] self.selected_nodes@[k] as int,
            )
        &&& forall|k: int|
            0 <= k < self.selected_edges@.len() ==> self.has_edge(
                #[trigger] self.selected_edges@[k] as int,
            )
    }

    /// An empty board.
    pub fn new() -> (r: BoardGraph)
        ensures
            r.wf(),
            r.nodes@.len() == 0,
            r.edges@.len() == 0,
            r.selected_nodes@.len() == 0,
            r.selected_edges@.len() == 0,
    {
        BoardGraph {
            nodes: Vec::new(),
            edges: Vec::new(),
            selected_nodes: Vec::new(),
            selected_edges: Vec::new(),
        }
    }

    /// Adds a node and returns its index.
    pub fn add_node(&mut self, payload: Option<Blob>, label: String, location: Option<Position>) -> (r: usize)
        requires
            old(self).wf(),
        ensures
            final(self).wf(),
            r == old(self).nodes@.len(),
            final(self).nodes@ == old(self).nodes@.push(
                Some(NodeEntry { payload, label, location }),
            ),
            final(self).edges@ == old(self).edges@,
            final(self).selected_nodes@ == old(self).selected_nodes@,
            final(self).selected_edges@ == old(self).selected_edges@,
    {
        let r = self.nodes.len();
        self.nodes.push(Some(NodeEntry { payload, label, location }));
        assert forall|e: int| #![trigger self.edges@[e]] self.has_edge(e) implies self.has_node(
            self.edges@[e]->0.a as int,
        ) && self.has_node(self.edges@[e]->0.b as int) by {
            assert(old(self).has_edge(e));
        }
        assert forall|k: int| 0 <= k < self.selected_nodes@.len() implies self.has_node(
            #[trigger] self.selected_nodes@[k] as int,
        ) by {
            assert(old(self).has_node(self.selected_nodes@[k] as int));
        }
        r
    }

    /// Adds an edge between the live nodes `a` and `b` and returns its index.
    pub fn add_edge(&mut self, a: usize, b: usize, payload: Conn, label: String) -> (r: usize)
        requires
            old(self).wf(),
            old(self).has_node(a as int),
            old(self).has_node(b as int),
        ensures
            final(self).wf(),
            r == old(self).edges@.len(),
            final(self).edges@ == old(self).edges@.push(Some(EdgeEntry { a, b, payload, label })),
            final(self).nodes@ == old(self).nodes@,
            final(self).selected_nodes@ == old(self).selected_nodes@,
            final(self).selected_edges@ == old(self).selected_edges@,
    {
        let r = self.edges.len();
        self.edges.push(Some(EdgeEntry { a, b, payload, label }));
        assert forall|e: int| #![trigger self.edges@[e]] self.has_edge(e) implies self.has_node(
            self.edges@[e]->0.a as int,
        ) && self.has_node(self.edges@[e]->0.b as int) by {
            if e < r {
                assert(old(self).has_edge(e));
            }
        }
        assert forall|k: int| 0 <= k < self.selected_edges@.len() implies self.has_edge(
            #[trigger] self.selected_edges@[k] as int,
        ) by {
            assert(old(self).has_edge(self.selected_edges@[k] as int));
        }
        r
    }

    /// The node at `i`, if it lives.
    pub fn node(&self, i: usize) -> (r: Option<&NodeEntry>)
        ensures
            r matches Some(n) ==> self.has_node(i as int) && *n == self.nodes@[i as int]->0,
            r is None ==> !self.has_node(i as int),
    {
        if i < self.nodes.len() {
            match &self.nodes[i] {
                Some(n) => Some(n),
                None => None,
            }
        } else {
            None
        }
    }

    /// The edge at `i`, if it lives.
    pub fn edge(&self, i: usize) -> (r: Option<&EdgeEntry>)
        ensures
            r matches Some(e) ==> self.has_edge(i as int) && *e == self.edges@[i as int]->0,
            r is None ==> !self.has_edge(i as int),
    {
        if i < self.edges.len() {
            match &self.edges[i] {
                Some(e) => Some(e),
                None => None,
            }
        } else {
            None
        }
    }

    /// Whether the graph is well formed, as one read from a file may not be.
    pub fn is_well_formed(&self) -> (r: bool)
        ensures
            r == self.wf(),
    {
        let mut e: usize = 0;
        while e < self.edges.len()
            invariant
                0 <= e <= self.edges@.len(),
                forall|j: int|
                    #![trigger self.edges@[j]]
                    0 <= j < e && self.has_edge(j) ==> self.has_node(self.edges@[j]->0.a as int)
                        && self.has_node(self.edges@[j]->0.b as int),
            decreases self.edges@.len() - e,
        {
            if let Some(x) = &self.edges[e] {
                if self.node(x.a).is_none() || self.node(x.b).is_none() {
                    return false;
                }
            }
            e = e + 1;
        }
        let mut k: usize = 0;
        while k < self.selected_nodes.len()
            invariant
                0 <= k <= self.selected_nodes@.len(),
                forall|j: int|
                    0 <= j < k ==> self.has_node(#[trigger] self.selected_nodes@[j] as int),
            decreases self.selected_nodes@.len() - k,
        {
            if self.node(self.selected_nodes[k]).is_none() {
                return false;
            }
            k = k + 1;
        }
        let mut k: usize = 0;
        while k < self.selected_edges.len()
            invariant
                0 <= k <= self.selected_edges@.len(),
                forall|j: int|
                    0 <= j < k ==> self.has_edge(#[trigger] self.selected_edges@[j] as int),
            decreases self.selected_edges@.len() - k,
        {
            if self.edge(self.selected_edges[k]).is_none() {
                return false;
            }
            k = k + 1;
        }
        true
    }

    /// The entries of `v` that are live edges of `edges`, in their order.
    fn live_edges_only(edges: &Vec<Option<EdgeEntry>>, v: &Vec<usize>) -> (r: Vec<usize>)
        ensures
            r@ == v@.filter(|k: usize| edge_live(edges@, k as int)),
            forall|k: int| 0 <= k < r@.len() ==> edge_live(edges@, #[trigger] r@[k] as int),
    {
        let mut r: Vec<usize> = Vec::new();
        let mut i: usize = 0;
        while i < v.len()
            invariant
                0 <= i <= v@.len(),
                r@ == v@.subrange(0, i as int).filter(|k: usize| edge_live(edges@, k as int)),
                forall|k: int| 0 <= k < r@.len() ==> edge_live(edges@, #[trigger] r@[k] as int),
            decreases v@.len() - i,
        {
            proof {
                reveal(Seq::filter);
                assert(v@.subrange(0, i + 1).drop_last() =~= v@.subrange(0, i as int));
            }
            let k = v[i];
            if k < edges.len() && edges[k].is_some() {
                r.push(k);
            }
            i = i + 1;
        }
        assert(v@.subrange(0, v@.len() as int) =~= v@);
        r
    }

    /// Removes the edge at `i`, if it lives, and returns it; the selection
    /// loses it too.
    pub fn remove_edge(&mut self, i: usize) -> (r: Option<EdgeEntry>)
        requires
            old(self).wf(),
        ensures
            final(self).wf(),
            old(self).has_edge(i as int) ==> r == old(self).edges@[i as int]
                && final(self).edges@ == old(self).edges@.update(i as int, None)
                && final(self).selected_edges@ == old(self).selected_edges@.filter(
                |k: usize| k != i,
            ),
            !old(self).has_edge(i as int) ==> r is None && *final(self) == *old(self),
            final(self).nodes@ == old(self).nodes@,
            final(self).selected_nodes@ == old(self).selected_nodes@,
    {
        if i >= self.edges.len() || self.edges[i].is_none() {
            return None;
        }
        let mut taken: Option<EdgeEntry> = None;
        self.edges.set_and_swap(i, &mut taken);
        self.selected_edges = without(&self.selected_edges, i);
        assert forall|e: int| #![trigger self.edges@[e]] self.has_edge(e) implies self.has_node(
            self.edges@[e]->0.a as int,
        ) && self.has_node(self.edges@[e]->0.b as int) by {
            assert(old(self).has_edge(e));
        }
        assert forall|k: int| 0 <= k < self.selected_edges@.len() implies self.has_edge(
            #[trigger] self.selected_edges@[k] as int,
        ) by {
            let v = self.selected_edges@[k];
            let j = choose|j: int| 0 <= j < old(self).selected_edges@.len() && old(self).selected_edges@[j] == v;
            assert(old(self).has_edge(old(self).selected_edges@[j] as int));
        }
        taken
    }

    /// Removes the node at `n`, if it lives, together with every edge that
    /// touches it, and returns it; the selection loses them too.
    pub fn remove_node(&mut self, n: usize) -> (r: Option<NodeEntry>)
        requires
            old(self).wf(),
        ensures
            final(self).wf(),
            old(self).has_node(n as int) ==> r == old(self).nodes@[n as int]
                && final(self).nodes@ == old(self).nodes@.update(n as int, None)
                && final(self).edges@.len() == old(self).edges@.len()
                && (forall|e: int|
                #![trigger final(self).edges@[e]]
                0 <= e < old(self).edges@.len() ==> final(self).edges@[e] == if old(self).has_edge(e)
                    && touches(old(self).edges@[e]->0, n as int) {
                    None
                } else {
                    old(self).edges@[e]
                })
                && final(self).selected_nodes@ == old(self).selected_nodes@.filter(
                |k: usize| k != n,
            ) && final(self).selected_edges@ == old(self).selected_edges@.filter(
                |k: usize| edge_live(final(self).edges@, k as int),
            ),
            !old(self).has_node(n as int) ==> r is None && *final(self) == *old(self),
    {
        if n >= self.nodes.len() || self.nodes[n].is_none() {
            return None;
        }
        let mut taken: Option<NodeEntry> = None;
        self.nodes.set_and_swap(n, &mut taken);
        let mut j: usize = 0;
        while j < self.edges.len()
            invariant
                0 <= j <= self.edges@.len(),
                self.edges@.len() == old(self).edges@.len(),
                self.nodes@ == old(self).nodes@.update(n as int, None),
                self.selected_nodes@ == old(self).selected_nodes@,
                self.selected_edges@ == old(self).selected_edges@,
                old(self).wf(),
                forall|e: int|
                    #![trigger self.edges@[e]]
                    0 <= e < j ==> self.edges@[e] == if old(self).has_edge(e) && touches(
                        old(self).edges@[e]->0,
                        n as int,
                    ) {
                        None
                    } else {
                        old(self).edges@[e]
                    },
                forall|e: int| #![trigger self.edges@[e]] j <= e < self.edges@.len() ==> self.edges@[e] == old(self).edges@[e],
            decreases self.edges@.len() - j,
        {
            let hit = match &self.edges[j] {
                Some(e) => e.a == n || e.b == n,
                None => false,
            };
            if hit {
                self.edges.set(j, None);
            }
            j = j + 1;
        }
        self.selected_nodes = without(&self.selected_nodes, n);
        self.selected_edges = Self::live_edges_only(&self.edges, &self.selected_edges);
        assert forall|e: int| #![trigger self.edges@[e]] self.has_edge(e) implies self.has_node(
            self.edges@[e]->0.a as int,
        ) && self.has_node(self.edges@[e]->0.b as int) by {
            assert(old(self).has_edge(e));
        }
        assert forall|k: int| 0 <= k < self.selected_nodes@.len() implies self.has_node(
            #[trigger] self.selected_nodes@[k] as int,
        ) by {
            let v = self.selected_nodes@[k];
            let i = choose|i: int| 0 <= i < old(self).selected_nodes@.len() && old(self).selected_nodes@[i] == v;
            assert(old(self).has_node(old(self).selected_nodes@[i] as int));
        }
        taken
    }

    /// Adds the live node `i` to the selection, unless it is selected already.
    pub fn select_node(&mut self, i: usize)
        requires
            old(self).wf(),
            old(self).has_node(i as int),
        ensures
            final(self).wf(),
            final(self).selected_nodes@ == if old(self).selected_nodes@.contains(i) {
                old(self).selected_nodes@
            } else {
                old(self).selected_nodes@.push(i)
            },
            final(self).nodes@ == old(self).nodes@,
            final(self).edges@ == old(self).edges@,
            final(self).selected_edges@ == old(self).selected_edges@,
    {
        if !contains_index(&self.selected_nodes, i) {
            self.selected_nodes.push(i);
        }
    }

    /// Adds the live edge `i` to the selection, unless it is selected already.
    pub fn select_edge(&mut self, i: usize)
        requires
            old(self).wf(),
            old(self).has_edge(i as int),
        ensures
            final(self).wf(),
            final(self).selected_edges@ == if old(self).selected_edges@.contains(i) {
                old(self).selected_edges@
            } else {
                old(self).selected_edges@.push(i)
            },
            final(self).nodes@ == old(self).nodes@,
            final(self).edges@ == old(self).edges@,
            final(self).selected_nodes@ == old(self).selected_nodes@,
    {
        if !contains_index(&self.selected_edges, i) {
            self.selected_edges.push(i);
        }
    }

    /// Empties the selection.
    pub fn clear_selection(&mut self)
        requires
            old(self).wf(),
        ensures
            final(self).wf(),
            final(self).selected_nodes@.len() == 0,
            final(self).selected_edges@.len() == 0,
            final(self).nodes@ == old(self).nodes@,
            final(self).edges@ == old(self).edges@,
    {
        self.selected_nodes = Vec::new();
        self.selected_edges = Vec::new();
    }

    /// Puts `payload` and `label` on the live node `i`; its location stays.
    pub fn set_node_content(&mut self, i: usize, payload: Option<Blob>, label: String)
        requires
            old(self).wf(),
            old(self).has_node(i as int),
        ensures
            final(self).wf(),
            final(self).nodes@ == old(self).nodes@.update(
                i as int,
                Some(NodeEntry { payload, label, location: old(self).nodes@[i as int]->0.location }),
            ),
            final(self).edges@ == old(self).edges@,
            final(self).selected_nodes@ == old(self).selected_nodes@,
            final(self).selected_edges@ == old(self).selected_edges@,
    {
        let mut slot: Option<NodeEntry> = None;
        self.nodes.set_and_swap(i, &mut slot);
        let location = match slot {
            Some(n) => n.location,
            None => None,
        };
        self.nodes.set(i, Some(NodeEntry { payload, label, location }));
        assert forall|e: int| #![trigger self.edges@[e]] self.has_edge(e) implies self.has_node(
            self.edges@[e]->0.a as int,
        ) && self.has_node(self.edges@[e]->0.b as int) by {
            assert(old(self).has_edge(e));
        }
        assert forall|k: int| 0 <= k < self.selected_nodes@.len() implies self.has_node(
            #[trigger] self.selected_nodes@[k] as int,
        ) by {
            assert(old(self).has_node(self.selected_nodes@[k] as int));
        }
    }

    /// Puts `payload` and `label` on the live edge `i`; its ends stay.
    pub fn set_edge_content(&mut self, i: usize, payload: Conn, label: String)
        requires
            old(self).wf(),
            old(self).has_edge(i as int),
        ensures
            final(self).wf(),
            final(self).edges@ == old(self).edges@.update(
                i as int,
                Some(
                    EdgeEntry {
                        a: old(self).edges@[i as int]->0.a,
                        b: old(self).edges@[i as int]->0.b,
                        payload,
                        label,
                    },
                ),
            ),
            final(self).nodes@ == old(self).nodes@,
            final(self).selected_nodes@ == old(self).selected_nodes@,
            final(self).selected_edges@ == old(self).selected_edges@,
    {
        let mut slot: Option<EdgeEntry> = None;
        self.edges.set_and_swap(i, &mut slot);
        let (a, b) = match slot {
            Some(e) => (e.a, e.b),
            None => (0, 0),
        };
        self.edges.set(i, Some(EdgeEntry { a, b, payload, label }));
        assert(old(self).has_edge(i as int));
        assert forall|e: int| #![trigger self.edges@[e]] self.has_edge(e) implies self.has_node(
            self.edges@[e]->0.a as int,
        ) && self.has_node(self.edges@[e]->0.b as int) by {
            assert(old(self).has_edge(e));
        }
        assert forall|k: int| 0 <= k < self.selected_edges@.len() implies self.has_edge(
            #[trigger] self.selected_edges@[k] as int,
        ) by {
            assert(old(self).has_edge(self.selected_edges@[k] as int));
        }
    }

    /// The selected nodes, in the order of selection.
    pub fn selected_nodes(&self) -> (r: &Vec<usize>)
        ensures
            r@ == self.selected_nodes@,
    {
        &self.selected_nodes
    }

    /// The selected edges, in the order of selection.
    pub fn selected_edges(&self) -> (r: &Vec<usize>)
        ensures
            r@ == self.selected_edges@,
    {
        &self.selected_edges
    }

    /// The index of a live edge between `a` and `b`, in either direction, if there is one.
    pub fn find_edge(&self, a: usize, b: usize) -> (r: Option<usize>)
        ensures
            r matches Some(i) ==> self.has_edge(i as int) && joins(
                self.edges@[i as int]->0,
                a as int,
                b as int,
            ),
            r is None ==> forall|i: int|
                #![trigger self.edges@[i]]
                self.has_edge(i) ==> !joins(self.edges@[i]->0, a as int, b as int),
    {
        let mut i: usize = 0;
        while i < self.edges.len()
            invariant
                0 <= i <= self.edges@.len(),
                forall|j: int|
                    #![trigger self.edges@[j]]
                    0 <= j < i && self.has_edge(j) ==> !joins(self.edges@[j]->0, a as int, b as int),
            decreases self.edges@.len() - i,
        {
            match &self.edges[i] {
                Some(e) => {
                    if (e.a == a && e.b == b) || (e.a == b && e.b == a) {
                        return Some(i);
                    }
                },
                None => {},
            }
            i = i + 1;
        }
        None
    }
}

} // verus!
