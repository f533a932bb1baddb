use vstd::prelude::*;

use poll_promise::Promise;

use crate::blob::Blob;
use crate::board::{edge_live, joins, touches, BoardGraph, EdgeEntry, NodeEntry, Position};
use crate::paths::{file_name, file_name_of};
use crate::relation::{relation_label, Conn, Relation};

verus! {

/// Relies on uuid::Uuid::new_v4 (and Uuid::as_u128): a random identifier.
/// Nothing is promised of its value.
#[verifier::external_body]
pub(crate) fn fresh_uuid() -> (r: u128) {
    uuid::Uuid::new_v4().as_u128()
}

/// One pinboard: a title and a graph, known by an identifier that it keeps
/// for its whole life, across saves and loads.
#[derive(Clone, Debug)]
pub struct Pinboard {
    pub uuid: u128,
    pub title: String,
    pub graph: BoardGraph,
}

impl Pinboard {
    pub fn get_uuid(&self) -> (r: u128)
        ensures
            r == self.uuid,
    {
        self.uuid
    }

    /// A new pinboard under a fresh random identifier.
    pub fn new(title: String, graph: BoardGraph) -> (r: Pinboard)
        ensures
            r.title == title,
            r.graph == graph,
    {
        Pinboard { uuid: fresh_uuid(), title, graph }
    }

    /// A pinboard under an identifier it was given before, as when it is loaded.
    pub fn with_uuid(uuid: u128, title: String, graph: BoardGraph) -> (r: Pinboard)
        ensures
            r.uuid == uuid,
            r.title == title,
            r.graph == graph,
    {
        Pinboard { uuid, title, graph }
    }
}

impl Default for Pinboard {
    /// The nil identifier, an empty title and an empty graph.
    fn default() -> (r: Pinboard)
        ensures
            r.uuid == 0,
            r.title@.len() == 0,
            r.graph.wf(),
            r.graph.nodes@.len() == 0,
            r.graph.edges@.len() == 0,
    {
        Pinboard { uuid: 0, title: String::new(), graph: BoardGraph::new() }
    }
}

/// The node or edge a task's result goes to.
#[derive(Clone, Copy, Debug, PartialEq, Eq, Structural)]
pub enum Target {
    Edge(usize),
    Node(usize),
}

/// What the canvas reports of the user's interaction.
#[derive(Clone, Copy, Debug, PartialEq, Eq, Structural)]
pub enum BoardEvent {
    EdgeDoubleClick(usize),
    NodeDoubleClick(usize),
    NodeMove(usize),
    Other,
}

/// The result of updating or picking a blob, for a node or an edge.
pub type BlobTask = (Target, Result<Blob, String>);

/// An open pinboard: where it is saved, whether it has unsaved changes, and
/// the tasks in flight for it.
pub struct PinboardBuffer {
    pub pinboard: Pinboard,
    pub path: Option<String>,
    pub unsaved: bool,
    pub show_rename_modal: bool,
    pub save_file_promise: Option<Promise<Result<String, String>>>,
    pub update_blob_promise: Option<Promise<BlobTask>>,
    pub update_blob_and_open_promise: Option<Promise<BlobTask>>,
}

/// The blob held at `t`, if `t` lives and holds one.
pub open spec fn blob_at(g: BoardGraph, t: Target) -> Option<Blob> {
    match t {
        Target::Edge(i) => if g.has_edge(i as int) {
            g.edges@[i as int]->0.payload.comment
        } else {
            None
        },
        Target::Node(i) => if g.has_node(i as int) {
            g.nodes@[i as int]->0.payload
        } else {
            None
        },
    }
}

/// `g2` is `g` with `blob` put on the target `t` under a label reading
/// `name`; a target that does not live leaves the graph as it was.
pub open spec fn holds_blob(g: BoardGraph, g2: BoardGraph, t: Target, blob: Blob, name: Seq<char>) -> bool {
    &&& g2.selected_nodes@ == g.selected_nodes@
    &&& g2.selected_edges@ == g.selected_edges@
    &&& match t {
        Target::Edge(i) => {
            &&& g2.nodes@ == g.nodes@
            &&& if g.has_edge(i as int) {
                let o = g.edges@[i as int]->0;
                &&& g2.edges@ == g.edges@.update(
                    i as int,
                    Some(
                        EdgeEntry {
                            a: o.a,
                            b: o.b,
                            payload: Conn { comment: Some(blob), relation: o.payload.relation },
                            label: g2.edges@[i as int]->0.label,
                        },
                    ),
                )
                &&& g2.edges@[i as int]->0.label@ == name
            } else {
                g2.edges@ == g.edges@
            }
        },
        Target::Node(i) => {
            &&& g2.edges@ == g.edges@
            &&& if g.has_node(i as int) {
                let o = g.nodes@[i as int]->0;
                &&& g2.nodes@ == g.nodes@.update(
                    i as int,
                    Some(
                        NodeEntry {
                            payload: Some(blob),
                            label: g2.nodes@[i as int]->0.label,
                            location: o.location,
                        },
                    ),
                )
                &&& g2.nodes@[i as int]->0.label@ == name
            } else {
                g2.nodes@ == g.nodes@
            }
        },
    }
}

/// `b1` is `b0` after `apply_blob(target, blob)`: where the blob's path
/// has a file name, the blob is on the target under that name and the
/// board is unsaved, nothing else changing; else nothing changes.
pub open spec fn applied(b0: PinboardBuffer, t: Target, blob: Blob, b1: PinboardBuffer) -> bool {
    match file_name_of(blob.path@) {
        None => b1 == b0,
        Some(name) => holds_blob(b0.pinboard.graph, b1.pinboard.graph, t, blob, name) && b1 == (
        PinboardBuffer {
            pinboard: Pinboard { graph: b1.pinboard.graph, ..b0.pinboard },
            unsaved: true,
            ..b0
        }),
    }
}

/// The message for a blob whose path has no file name to label it with.
pub open spec fn no_name_message(path: Seq<char>) -> Seq<char> {
    "blob path has no file name: "@ + path
}

/// The message, if any, as a list.
pub open spec fn message_list(m: Option<String>) -> Seq<Seq<char>> {
    match m {
        Some(e) => seq![e@],
        None => Seq::empty(),
    }
}

/// `b1` is `b0` after a save that finished with `saved`, and `errs` the messages.
pub open spec fn save_step(
    b0: PinboardBuffer,
    saved: Option<Result<String, String>>,
    b1: PinboardBuffer,
    errs: Seq<Seq<char>>,
) -> bool {
    match saved {
        None => b1 == b0 && errs.len() == 0,
        Some(Ok(p)) => b1 == (PinboardBuffer { path: Some(p), unsaved: false, ..b0 }) && errs.len()
            == 0,
        Some(Err(e)) => b1 == b0 && errs == seq![e@],
    }
}

/// `b1` is `b0` after a blob task that finished with `task`, and `errs` the messages.
pub open spec fn blob_step(
    b0: PinboardBuffer,
    task: Option<BlobTask>,
    b1: PinboardBuffer,
    errs: Seq<Seq<char>>,
) -> bool {
    match task {
        None => b1 == b0 && errs.len() == 0,
        Some((_, Err(e))) => b1 == b0 && errs == seq![e@],
        Some((t, Ok(blob))) => applied(b0, t, blob, b1) && errs == if file_name_of(
            blob.path@,
        ) is Some {
            Seq::<Seq<char>>::empty()
        } else {
            seq![no_name_message(blob.path@)]
        },
    }
}

/// Appends the message, if there is one.
fn push_message(errors: &mut Vec<String>, m: Option<String>)
    ensures
        final(errors)@.map_values(|s: String| s@) == old(errors)@.map_values(|s: String| s@)
            + message_list(m),
{
    let ghost before = errors@;
    if let Some(e) = m {
        errors.push(e);
    }
    assert(errors@.map_values(|s: String| s@) =~= before.map_values(|s: String| s@) + message_list(m));
}

/// Edge `x` touches one of the nodes in `nodes`.
pub open spec fn cut_by(x: EdgeEntry, nodes: Seq<usize>) -> bool {
    nodes.contains(x.a) || nodes.contains(x.b)
}

/// `b1` differs from `b0` at most in its graph and in whether it is unsaved:
/// the board's identifier, title and path, and the tasks, stay.
pub open spec fn only_graph_changed(b0: PinboardBuffer, b1: PinboardBuffer) -> bool {
    b1 == (PinboardBuffer {
        pinboard: Pinboard { graph: b1.pinboard.graph, ..b0.pinboard },
        unsaved: b1.unsaved,
        ..b0
    })
}

/// What one frame's pass over the finished tasks of a buffer brought.
pub struct FrameOutcome {
    /// A message for each task that failed.
    pub errors: Vec<String>,
    /// The blob to open, where the task that updates and opens one finished well.
    pub to_open: Option<Blob>,
}

impl PinboardBuffer {
    pub open spec fn wf(&self) -> bool {
        self.pinboard.graph.wf()
    }

    /// A buffer for `pinboard`, saved at `path` if it has been saved, with no task in flight.
    pub fn new(pinboard: Pinboard, path: Option<String>, unsaved: bool) -> (r: PinboardBuffer)
        ensures
            r.pinboard == pinboard,
            r.path == path,
            r.unsaved == unsaved,
            !r.show_rename_modal,
            r.save_file_promise is None,
            r.update_blob_promise is None,
            r.update_blob_and_open_promise is None,
    {
        PinboardBuffer {
            pinboard,
            path,
            unsaved,
            show_rename_modal: false,
            save_file_promise: None,
            update_blob_promise: None,
            update_blob_and_open_promise: None,
        }
    }

    /// Reacts to one event of the canvas. A double click on a node or edge
    /// that holds a blob returns that blob, to be updated and opened; a
    /// moved node marks the board unsaved; anything else changes nothing.
    pub fn handle_event(&mut self, event: BoardEvent) -> (r: Option<(Target, Blob)>)
        ensures
            match event {
                BoardEvent::EdgeDoubleClick(i) => {
                    &&& *final(self) == *old(self)
                    &&& r == match blob_at(old(self).pinboard.graph, Target::Edge(i)) {
                        Some(b) => Some((Target::Edge(i), b)),
                        None => None,
                    }
                },
                BoardEvent::NodeDoubleClick(i) => {
                    &&& *final(self) == *old(self)
                    &&& r == match blob_at(old(self).pinboard.graph, Target::Node(i)) {
                        Some(b) => Some((Target::Node(i), b)),
                        None => None,
                    }
                },
                BoardEvent::NodeMove(_) => r is None && *final(self) == (PinboardBuffer {
                    unsaved: true,
                    ..*old(self)
                }),
                BoardEvent::Other => r is None && *final(self) == *old(self),
            },
    {
        match event {
            BoardEvent::EdgeDoubleClick(i) => match self.pinboard.graph.edge(i) {
                Some(e) => match &e.payload.comment {
                    Some(b) => Some((Target::Edge(i), b.duplicate())),
                    None => None,
                },
                None => None,
            },
            BoardEvent::NodeDoubleClick(i) => match self.pinboard.graph.node(i) {
                Some(n) => match &n.payload {
                    Some(b) => Some((Target::Node(i), b.duplicate())),
                    None => None,
                },
                None => None,
            },
            BoardEvent::NodeMove(_) => {
                self.unsaved = true;
                None
            },
            BoardEvent::Other => None,
        }
    }

    /// Puts a blob that a task brought on its node or edge, labelled with the
    /// blob's file name, and marks the board unsaved. A path without a file
    /// name changes nothing and gives `false`.
    pub fn apply_blob(&mut self, target: Target, blob: Blob) -> (r: bool)
        requires
            old(self).wf(),
        ensures
            final(self).wf(),
            r == file_name_of(blob.path@) is Some,
            applied(*old(self), target, blob, *final(self)),
    {
        let label = match file_name(blob.path.as_str()) {
            Some(l) => l,
            None => {
                return false;
            },
        };
        match target {
            Target::Edge(i) => {
                let relation = match self.pinboard.graph.edge(i) {
                    Some(e) => Some(e.payload.relation),
                    None => None,
                };
                if let Some(relation) = relation {
                    self.pinboard.graph.set_edge_content(
                        i,
                        Conn { comment: Some(blob), relation },
                        label,
                    );
                }
            },
            Target::Node(i) => {
                if self.pinboard.graph.node(i).is_some() {
                    self.pinboard.graph.set_node_content(i, Some(blob), label);
                }
            },
        }
        self.unsaved = true;
        true
    }

    /// Takes in how a save ended: on success the buffer is saved at the
    /// returned path and has no unsaved changes; on failure nothing changes
    /// and the message is handed back.
    pub fn finish_save(&mut self, result: Result<String, String>) -> (r: Option<String>)
        ensures
            match result {
                Ok(p) => r is None && *final(self) == (PinboardBuffer {
                    path: Some(p),
                    unsaved: false,
                    ..*old(self)
                }),
                Err(e) => r == Some(e) && *final(self) == *old(self),
            },
    {
        match result {
            Ok(p) => {
                self.path = Some(p);
                self.unsaved = false;
                None
            },
            Err(e) => Some(e),
        }
    }

    /// Adds an empty node, pinned at `location` where one is given, and
    /// returns its index; a blob is put on it when the user has picked one.
    pub fn add_node(&mut self, location: Option<Position>) -> (r: usize)
        requires
            old(self).wf(),
        ensures
            final(self).wf(),
            r == old(self).pinboard.graph.nodes@.len(),
            final(self).pinboard.graph.nodes@.len() == r + 1,
            final(self).pinboard.graph.nodes@.subrange(0, r as int)
                == old(self).pinboard.graph.nodes@,
            final(self).pinboard.graph.nodes@[r as int] matches Some(n) && n.payload is None
                && n.location == location && n.label@.len() == 0,
            final(self).pinboard.graph.edges@ == old(self).pinboard.graph.edges@,
            final(self).unsaved == old(self).unsaved,
            only_graph_changed(*old(self), *final(self)),
            final(self).pinboard.graph.selected_nodes@ == old(self).pinboard.graph.selected_nodes@,
            final(self).pinboard.graph.selected_edges@ == old(self).pinboard.graph.selected_edges@,
    {
        let r = self.pinboard.graph.add_node(None, String::new(), location);
        assert(self.pinboard.graph.nodes@.subrange(0, r as int) =~= old(
            self,
        ).pinboard.graph.nodes@);
        r
    }

    /// Removes every selected node, with the edges that touch them, and
    /// marks the board unsaved.
    pub fn delete_selected_nodes(&mut self)
        requires
            old(self).wf(),
        ensures
            final(self).wf(),
            final(self).unsaved,
            forall|i: usize|
                final(self).pinboard.graph.has_node(i as int) == (old(
                    self,
                ).pinboard.graph.has_node(i as int)
                    && !old(self).pinboard.graph.selected_nodes@.contains(i)),
            final(self).pinboard.graph.selected_nodes@.len() == 0,
            final(self).pinboard.graph.nodes@.len() == old(self).pinboard.graph.nodes@.len(),
            only_graph_changed(*old(self), *final(self)),
            final(self).pinboard.graph.selected_edges@ == old(self).pinboard.graph.selected_edges@.filter(
                |k: usize| edge_live(final(self).pinboard.graph.edges@, k as int),
            ),
            final(self).pinboard.graph.edges@.len() == old(self).pinboard.graph.edges@.len(),
            forall|e: usize|
                #![trigger final(self).pinboard.graph.edges@[e as int]]
                e < old(self).pinboard.graph.edges@.len() ==> final(self).pinboard.graph.edges@[e as int]
                    == if old(self).pinboard.graph.has_edge(e as int) && cut_by(
                    old(self).pinboard.graph.edges@[e as int]->0,
                    old(self).pinboard.graph.selected_nodes@,
                ) {
                    None
                } else {
                    old(self).pinboard.graph.edges@[e as int]
                },
    {
        let sel = copy_indices(&self.pinboard.graph.selected_nodes);
        proof {
            let g = old(self).pinboard.graph;
            let live = |k: usize| edge_live(g.edges@, k as int);
            assert forall|i: int| 0 <= i < g.selected_edges@.len() implies live(
                #[trigger] g.selected_edges@[i],
            ) by {
                assert(g.has_edge(g.selected_edges@[i] as int));
            }
            lemma_filter_all(g.selected_edges@, live);
        }
        let mut k: usize = 0;
        while k < sel.len()
            invariant
                0 <= k <= sel@.len(),
                sel@ == old(self).pinboard.graph.selected_nodes@,
                self.wf(),
                only_graph_changed(*old(self), *self),
                self.unsaved == old(self).unsaved,
                self.pinboard.graph.selected_edges@ == old(self).pinboard.graph.selected_edges@.filter(
                    |k: usize| edge_live(self.pinboard.graph.edges@, k as int),
                ),
                self.pinboard.graph.nodes@.len() == old(self).pinboard.graph.nodes@.len(),
                self.pinboard.graph.edges@.len() == old(self).pinboard.graph.edges@.len(),
                forall|e: usize|
                    #![trigger self.pinboard.graph.edges@[e as int]]
                    e < old(self).pinboard.graph.edges@.len() ==> self.pinboard.graph.edges@[e as int]
                        == if old(self).pinboard.graph.has_edge(e as int) && cut_by(
                        old(self).pinboard.graph.edges@[e as int]->0,
                        sel@.subrange(0, k as int),
                    ) {
                        None
                    } else {
                        old(self).pinboard.graph.edges@[e as int]
                    },
                forall|i: usize|
                    self.pinboard.graph.has_node(i as int) == (old(
                        self,
                    ).pinboard.graph.has_node(i as int) && !sel@.subrange(0, k as int).contains(i)),
                forall|j: int|
                    0 <= j < self.pinboard.graph.selected_nodes@.len() ==> !sel@.subrange(
                        0,
                        k as int,
                    ).contains(#[trigger] self.pinboard.graph.selected_nodes@[j])
                        && sel@.contains(self.pinboard.graph.selected_nodes@[j]),
            decreases sel@.len() - k,
        {
            let ghost before = self.pinboard.graph;
            let n = sel[k];
            self.pinboard.graph.remove_node(n);
            proof {
                let p = sel@.subrange(0, k as int);
                let q = sel@.subrange(0, k + 1);
                assert(q =~= p.push(n));
                if before.has_node(n as int) {
                    lemma_filter_narrow(
                        old(self).pinboard.graph.selected_edges@,
                        |k: usize| edge_live(before.edges@, k as int),
                        |k: usize| edge_live(self.pinboard.graph.edges@, k as int),
                    );
                } else {
                    assert(self.pinboard.graph == before);
                }
                assert forall|e: usize|
                    #![trigger self.pinboard.graph.edges@[e as int]]
                    e < old(self).pinboard.graph.edges@.len() implies self.pinboard.graph.edges@[e as int]
                        == if old(self).pinboard.graph.has_edge(e as int) && cut_by(
                        old(self).pinboard.graph.edges@[e as int]->0,
                        q,
                    ) {
                        None
                    } else {
                        old(self).pinboard.graph.edges@[e as int]
                    } by {
                    let o = old(self).pinboard.graph.edges@[e as int];
                    assert(before.edges@[e as int] == if old(self).pinboard.graph.has_edge(e as int)
                        && cut_by(o->0, p) {
                        None
                    } else {
                        o
                    });
                    if old(self).pinboard.graph.has_edge(e as int) {
                        let x = o->0;
                        assert(p.contains(x.a) ==> q.contains(x.a)) by {
                            if p.contains(x.a) {
                                let w = choose|w: int| 0 <= w < p.len() && p[w] == x.a;
                                assert(q[w] == x.a);
                            }
                        }
                        assert(p.contains(x.b) ==> q.contains(x.b)) by {
                            if p.contains(x.b) {
                                let w = choose|w: int| 0 <= w < p.len() && p[w] == x.b;
                                assert(q[w] == x.b);
                            }
                        }
                        assert(q.contains(x.a) ==> p.contains(x.a) || x.a == n) by {
                            if q.contains(x.a) {
                                let w = choose|w: int| 0 <= w < q.len() && q[w] == x.a;
                                if w < k {
                                    assert(p[w] == x.a);
                                }
                            }
                        }
                        assert(q.contains(x.b) ==> p.contains(x.b) || x.b == n) by {
                            if q.contains(x.b) {
                                let w = choose|w: int| 0 <= w < q.len() && q[w] == x.b;
                                if w < k {
                                    assert(p[w] == x.b);
                                }
                            }
                        }
                        assert(q[k as int] == n);
                        if !cut_by(x, p) {
                            assert(before.has_edge(e as int));
                            assert(before.edges@[e as int] == o);
                            if touches(x, n as int) {
                                assert(before.has_node(n as int));
                            }
                        }
                    }
                    if before.has_node(n as int) {
                        assert(self.pinboard.graph.nodes@ == before.nodes@.update(n as int, None));
                    } else {
                        assert(self.pinboard.graph == before);
                    }
                }
                assert forall|i: usize|
                    self.pinboard.graph.has_node(i as int) == (old(
                        self,
                    ).pinboard.graph.has_node(i as int) && !q.contains(i)) by {
                    assert(before.has_node(i as int) == (old(self).pinboard.graph.has_node(i as int)
                        && !p.contains(i)));
                    if before.has_node(n as int) {
                        assert(self.pinboard.graph.nodes@ == before.nodes@.update(n as int, None));
                    } else {
                        assert(self.pinboard.graph == before);
                    }
                    if i == n {
                        assert(q[k as int] == n);
                    } else {
                        if q.contains(i) {
                            let w = choose|w: int| 0 <= w < q.len() && q[w] == i;
                            assert(w < k);
                            assert(p[w] == i);
                        }
                        if p.contains(i) {
                            let w = choose|w: int| 0 <= w < p.len() && p[w] == i;
                            assert(q[w] == i);
                        }
                    }
                }
                assert forall|j: int|
                    0 <= j < self.pinboard.graph.selected_nodes@.len() implies !q.contains(
                        #[trigger] self.pinboard.graph.selected_nodes@[j],
                    ) && sel@.contains(self.pinboard.graph.selected_nodes@[j]) by {
                    let v = self.pinboard.graph.selected_nodes@[j];
                    if before.has_node(n as int) {
                        lemma_filter_member(before.selected_nodes@, |k: usize| k != n, j);
                        before.selected_nodes@.filter_lemma(|k: usize| k != n);
                        assert(v != n);
                        let w = choose|w: int| 0 <= w < before.selected_nodes@.len() && before.selected_nodes@[w] == v;
                        assert(!p.contains(before.selected_nodes@[w]));
                    } else {
                        assert(before.has_node(before.selected_nodes@[j] as int));
                        assert(!p.contains(before.selected_nodes@[j]));
                    }
                }
            }
            k = k + 1;
        }
        assert(sel@.subrange(0, sel@.len() as int) =~= sel@);
        if self.pinboard.graph.selected_nodes.len() > 0 {
            assert(sel@.contains(self.pinboard.graph.selected_nodes@[0]));
        }
        self.unsaved = true;
    }

    /// Two nodes are selected and no edge joins them yet: the user may connect them.
    pub fn can_connect(&self) -> (r: bool)
        ensures
            r == (self.pinboard.graph.selected_nodes@.len() == 2 && forall|e: int|
                #![trigger self.pinboard.graph.edges@[e]]
                self.pinboard.graph.has_edge(e) ==> !joins(
                    self.pinboard.graph.edges@[e]->0,
                    self.pinboard.graph.selected_nodes@[0] as int,
                    self.pinboard.graph.selected_nodes@[1] as int,
                )),
    {
        let sel = &self.pinboard.graph.selected_nodes;
        if sel.len() != 2 {
            return false;
        }
        self.pinboard.graph.find_edge(sel[0], sel[1]).is_none()
    }

    /// Where the user may connect the two selected nodes, joins them by an
    /// edge of `relation` with no comment, labelled with the relation's
    /// name, marks the board unsaved and returns the edge's index; else
    /// changes nothing.
    pub fn connect_selected(&mut self, relation: Relation) -> (r: Option<usize>)
        requires
            old(self).wf(),
        ensures
            final(self).wf(),
            r is Some == old(self).can_connect_spec(),
            r is None ==> *final(self) == *old(self),
            r matches Some(i) ==> {
                let g = old(self).pinboard.graph;
                let e = final(self).pinboard.graph.edges@[i as int]->0;
                &&& i == g.edges@.len()
                &&& final(self).pinboard.graph.edges@ == g.edges@.push(Some(e))
                &&& e.a == g.selected_nodes@[0] && e.b == g.selected_nodes@[1]
                &&& e.payload.comment is None && e.payload.relation == relation
                &&& e.label@ == relation_label(relation)
                &&& final(self).pinboard.graph.nodes@ == g.nodes@
                &&& final(self).unsaved
                &&& only_graph_changed(*old(self), *final(self))
                &&& final(self).pinboard.graph.selected_nodes@ == g.selected_nodes@
                &&& final(self).pinboard.graph.selected_edges@ == g.selected_edges@
            },
    {
        if !self.can_connect() {
            return None;
        }
        let a = self.pinboard.graph.selected_nodes[0];
        let b = self.pinboard.graph.selected_nodes[1];
        let label = relation.label();
        let i = self.pinboard.graph.add_edge(a, b, Conn { comment: None, relation }, label);
        self.unsaved = true;
        Some(i)
    }

    pub open spec fn can_connect_spec(&self) -> bool {
        self.pinboard.graph.selected_nodes@.len() == 2 && forall|e: int|
            #![trigger self.pinboard.graph.edges@[e]]
            self.pinboard.graph.has_edge(e) ==> !joins(
                self.pinboard.graph.edges@[e]->0,
                self.pinboard.graph.selected_nodes@[0] as int,
                self.pinboard.graph.selected_nodes@[1] as int,
            )
    }

    /// Where exactly one edge is selected, gives it `relation` and the
    /// relation's name as its label, keeps its comment, marks the board
    /// unsaved and returns `true`; else changes nothing.
    pub fn change_selected_relation(&mut self, relation: Relation) -> (r: bool)
        requires
            old(self).wf(),
        ensures
            final(self).wf(),
            r == (old(self).pinboard.graph.selected_edges@.len() == 1),
            !r ==> *final(self) == *old(self),
            r ==> {
                let g = old(self).pinboard.graph;
                let i = g.selected_edges@[0] as int;
                let o = g.edges@[i]->0;
                let e = final(self).pinboard.graph.edges@[i]->0;
                &&& final(self).pinboard.graph.edges@ == g.edges@.update(
                    i,
                    Some(
                        EdgeEntry {
                            a: o.a,
                            b: o.b,
                            payload: Conn { comment: o.payload.comment, relation },
                            label: e.label,
                        },
                    ),
                )
                &&& e.label@ == relation_label(relation)
                &&& final(self).pinboard.graph.nodes@ == g.nodes@
                &&& final(self).unsaved
                &&& only_graph_changed(*old(self), *final(self))
                &&& final(self).pinboard.graph.selected_nodes@ == g.selected_nodes@
                &&& final(self).pinboard.graph.selected_edges@ == g.selected_edges@
            },
    {
        if self.pinboard.graph.selected_edges.len() != 1 {
            return false;
        }
        let i = self.pinboard.graph.selected_edges[0];
        let comment = match self.pinboard.graph.edge(i) {
            Some(e) => match &e.payload.comment {
                Some(b) => Some(b.duplicate()),
                None => None,
            },
            None => None,
        };
        let label = relation.label();
        self.pinboard.graph.set_edge_content(i, Conn { comment, relation }, label);
        self.unsaved = true;
        true
    }

    /// Removes every selected edge and marks the board unsaved; the
    /// selection of edges is emptied.
    pub fn delete_selected_edges(&mut self)
        requires
            old(self).wf(),
        ensures
            final(self).wf(),
            final(self).unsaved,
            only_graph_changed(*old(self), *final(self)),
            final(self).pinboard.graph.nodes@ == old(self).pinboard.graph.nodes@,
            final(self).pinboard.graph.edges@.len() == old(self).pinboard.graph.edges@.len(),
            forall|e: usize|
                #![trigger final(self).pinboard.graph.edges@[e as int]]
                e < old(self).pinboard.graph.edges@.len() ==> final(self).pinboard.graph.edges@[e as int]
                    == if old(self).pinboard.graph.selected_edges@.contains(e) {
                    None
                } else {
                    old(self).pinboard.graph.edges@[e as int]
                },
            final(self).pinboard.graph.selected_edges@.len() == 0,
            final(self).pinboard.graph.selected_nodes@ == old(self).pinboard.graph.selected_nodes@,
    {
        let sel = copy_indices(&self.pinboard.graph.selected_edges);
        let mut k: usize = 0;
        while k < sel.len()
            invariant
                0 <= k <= sel@.len(),
                sel@ == old(self).pinboard.graph.selected_edges@,
                self.wf(),
                only_graph_changed(*old(self), *self),
                self.unsaved == old(self).unsaved,
                self.pinboard.graph.nodes@ == old(self).pinboard.graph.nodes@,
                self.pinboard.graph.selected_nodes@ == old(self).pinboard.graph.selected_nodes@,
                self.pinboard.graph.edges@.len() == old(self).pinboard.graph.edges@.len(),
                forall|e: usize|
                    #![trigger self.pinboard.graph.edges@[e as int]]
                    e < old(self).pinboard.graph.edges@.len() ==> self.pinboard.graph.edges@[e as int]
                        == if sel@.subrange(0, k as int).contains(e) {
                        None
                    } else {
                        old(self).pinboard.graph.edges@[e as int]
                    },
                forall|j: int|
                    0 <= j < self.pinboard.graph.selected_edges@.len() ==> !sel@.subrange(
                        0,
                        k as int,
                    ).contains(#[trigger] self.pinboard.graph.selected_edges@[j])
                        && sel@.contains(self.pinboard.graph.selected_edges@[j]),
            decreases sel@.len() - k,
        {
            let ghost before = self.pinboard.graph;
            let n = sel[k];
            self.pinboard.graph.remove_edge(n);
            proof {
                let p = sel@.subrange(0, k as int);
                let q = sel@.subrange(0, k + 1);
                assert forall|e: usize|
                    #![trigger self.pinboard.graph.edges@[e as int]]
                    e < old(self).pinboard.graph.edges@.len() implies self.pinboard.graph.edges@[e as int]
                        == if q.contains(e) {
                        None
                    } else {
                        old(self).pinboard.graph.edges@[e as int]
                    } by {
                    assert(before.edges@[e as int] == if p.contains(e) {
                        None
                    } else {
                        old(self).pinboard.graph.edges@[e as int]
                    });
                    if before.has_edge(n as int) {
                        assert(self.pinboard.graph.edges@ == before.edges@.update(n as int, None));
                    } else {
                        assert(self.pinboard.graph == before);
                    }
                    if e == n {
                        assert(q[k as int] == n);
                    } else {
                        if q.contains(e) {
                            let w = choose|w: int| 0 <= w < q.len() && q[w] == e;
                            assert(w < k);
                            assert(p[w] == e);
                        }
                        if p.contains(e) {
                            let w = choose|w: int| 0 <= w < p.len() && p[w] == e;
                            assert(q[w] == e);
                        }
                    }
                }
                assert forall|j: int|
                    0 <= j < self.pinboard.graph.selected_edges@.len() implies !q.contains(
                        #[trigger] self.pinboard.graph.selected_edges@[j],
                    ) && sel@.contains(self.pinboard.graph.selected_edges@[j]) by {
                    let v = self.pinboard.graph.selected_edges@[j];
                    if before.has_edge(n as int) {
                        lemma_filter_member(before.selected_edges@, |k: usize| k != n, j);
                        before.selected_edges@.filter_lemma(|k: usize| k != n);
                        assert(v != n);
                        let w = choose|w: int|
                            0 <= w < before.selected_edges@.len() && before.selected_edges@[w] == v;
                        assert(!p.contains(before.selected_edges@[w]));
                        if q.contains(v) {
                            let x = choose|x: int| 0 <= x < q.len() && q[x] == v;
                            assert(p[x] == v);
                        }
                    } else {
                        assert(before.has_edge(before.selected_edges@[j] as int));
                        assert(!p.contains(before.selected_edges@[j]));
                        if q.contains(v) {
                            let x = choose|x: int| 0 <= x < q.len() && q[x] == v;
                            assert(p[x] == v);
                        }
                    }
                }
            }
            k = k + 1;
        }
        assert(sel@.subrange(0, sel@.len() as int) =~= sel@);
        if self.pinboard.graph.selected_edges.len() > 0 {
            assert(sel@.contains(self.pinboard.graph.selected_edges@[0]));
        }
        self.unsaved = true;
    }

    /// The rename dialog was closed with a new title: hide it and mark the board unsaved.
    pub fn finish_rename(&mut self)
        ensures
            *final(self) == (PinboardBuffer { show_rename_modal: false, unsaved: true, ..*old(self) }),
    {
        self.show_rename_modal = false;
        self.unsaved = true;
    }

    /// The window's title: the board's title, with a star while it has unsaved changes.
    pub fn window_title(&self) -> (r: String)
        ensures
            r@ == if self.unsaved {
                self.pinboard.title@ + "*"@
            } else {
                self.pinboard.title@
            },
    {
        let mut t = self.pinboard.title.clone();
        if self.unsaved {
            t.append("*");
        }
        t
    }

    /// Takes in a finished blob task: a blob goes on its node or edge (see
    /// `apply_blob`) and is handed back; a failure, or a blob whose path
    /// has no file name, gives a message.
    pub fn finish_blob(&mut self, task: Option<BlobTask>) -> (r: (Option<Blob>, Option<String>))
        requires
            old(self).wf(),
        ensures
            final(self).wf(),
            blob_step(*old(self), task, *final(self), message_list(r.1)),
            r.0 == match task {
                Some((_, Ok(b))) => Some(b),
                _ => None,
            },
    {
        match task {
            None => (None, None),
            Some((target, result)) => match result {
                Err(e) => (None, Some(e)),
                Ok(blob) => {
                    let copy = blob.duplicate();
                    let path = blob.path.clone();
                    if self.apply_blob(target, blob) {
                        (Some(copy), None)
                    } else {
                        (Some(copy), Some("blob path has no file name: ".to_owned().concat(path.as_str())))
                    }
                },
            },
        }
    }

    /// The pass over the buffer's finished tasks after each frame, given
    /// what each task slot's poll finished with (`None` where it finished
    /// nothing): first the save (see `finish_save`), then the blob that was
    /// picked, then the blob to update and open, which is returned to be
    /// opened (see `finish_blob`). The messages come in that order.
    pub fn finish_tasks(
        &mut self,
        saved: Option<Result<String, String>>,
        picked: Option<BlobTask>,
        opened: Option<BlobTask>,
    ) -> (r: FrameOutcome)
        requires
            old(self).wf(),
        ensures
            final(self).wf(),
            exists|m1: PinboardBuffer, m2: PinboardBuffer, e1: Seq<Seq<char>>, e2: Seq<Seq<char>>, e3: Seq<Seq<char>>|
                #![trigger save_step(*old(self), saved, m1, e1), blob_step(m1, picked, m2, e2), blob_step(m2, opened, *final(self), e3)]
                save_step(*old(self), saved, m1, e1) && blob_step(m1, picked, m2, e2) && blob_step(
                    m2,
                    opened,
                    *final(self),
                    e3,
                ) && r.errors@.map_values(|s: String| s@) == e1 + e2 + e3,
            r.to_open == match opened {
                Some((_, Ok(b))) => Some(b),
                _ => None,
            },
            saved is None && picked is None && opened is None ==> *final(self) == *old(self)
                && r.errors@.len() == 0 && r.to_open is None,
    {
        let mut errors: Vec<String> = Vec::new();
        let save_error = match saved {
            Some(result) => self.finish_save(result),
            None => None,
        };
        let ghost m1 = *self;
        let ghost e1 = message_list(save_error);
        push_message(&mut errors, save_error);
        let (_, pick_error) = self.finish_blob(picked);
        let ghost m2 = *self;
        let ghost e2 = message_list(pick_error);
        push_message(&mut errors, pick_error);
        let (to_open, open_error) = self.finish_blob(opened);
        let ghost e3 = message_list(open_error);
        push_message(&mut errors, open_error);
        assert(errors@.map_values(|s: String| s@) =~= e1 + e2 + e3);
        assert(save_step(*old(self), saved, m1, e1));
        FrameOutcome { errors, to_open }
    }
}

/// A copy of a list of indices.
fn copy_indices(v: &Vec<usize>) -> (r: Vec<usize>)
    ensures
        r@ == v@,
{
    let mut r: Vec<usize> = Vec::new();
    let mut i: usize = 0;
    while i < v.len()
        invariant
            0 <= i <= v@.len(),
            r@ == v@.subrange(0, i as int),
        decreases v@.len() - i,
    {
        r.push(v[i]);
        assert(r@ =~= v@.subrange(0, i + 1));
        i = i + 1;
    }
    assert(r@ =~= v@);
    r
}

/// Filtering keeps a sequence whose members all pass.
proof fn lemma_filter_all(s: Seq<usize>, p: spec_fn(usize) -> bool)
    requires
        forall|i: int| 0 <= i < s.len() ==> #[trigger] p(s[i]),
    ensures
        s.filter(p) == s,
    decreases s.len(),
{
    reveal(Seq::filter);
    if s.len() > 0 {
        lemma_filter_all(s.drop_last(), p);
        assert(s.drop_last().push(s.last()) =~= s);
    }
}

/// Filtering by a narrower predicate after a wider one is filtering by the narrower alone.
proof fn lemma_filter_narrow(s: Seq<usize>, wide: spec_fn(usize) -> bool, narrow: spec_fn(usize) -> bool)
    requires
        forall|x: usize| #[trigger] narrow(x) ==> wide(x),
    ensures
        s.filter(wide).filter(narrow) == s.filter(narrow),
    decreases s.len(),
{
    reveal(Seq::filter);
    if s.len() > 0 {
        lemma_filter_narrow(s.drop_last(), wide, narrow);
        let t = s.drop_last().filter(wide);
        if wide(s.last()) {
            assert(t.push(s.last()).drop_last() =~= t);
        }
    }
}

/// Each member of a filtered sequence is a member of the sequence.
proof fn lemma_filter_member(s: Seq<usize>, p: spec_fn(usize) -> bool, j: int)
    requires
        0 <= j < s.filter(p).len(),
    ensures
        s.contains(s.filter(p)[j]),
    decreases s.len(),
{
    reveal(Seq::filter);
    if s.len() > 0 {
        let t = s.drop_last().filter(p);
        if j < t.len() {
            lemma_filter_member(s.drop_last(), p, j);
            let w = choose|w: int| 0 <= w < s.drop_last().len() && s.drop_last()[w] == t[j];
            assert(s[w] == t[j]);
        } else {
            assert(s[s.len() - 1] == s.filter(p)[j]);
        }
    }
}

} // verus!
