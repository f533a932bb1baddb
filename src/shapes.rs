use vstd::prelude::*;

use crate::blob::{blob_type_color, Blob};
use crate::palette::NamedColor;
use crate::relation::{relation_color, Conn};

verus! {

/// The board's style of a node: the toolkit's default shape, coloured by
/// the kind of blob the node holds. The shape's geometry and drawing belong
/// to the toolkit.
#[derive(Clone, Copy, Debug, PartialEq, Eq, Structural)]
pub struct MyNodeShape {
    pub color: Option<NamedColor>,
}

/// The board's style of an edge: the toolkit's default shape, coloured by
/// the edge's relation.
#[derive(Clone, Copy, Debug, PartialEq, Eq, Structural)]
pub struct MyEdgeShape {
    pub color: Option<NamedColor>,
}

pub open spec fn node_color(payload: Option<Blob>) -> Option<NamedColor> {
    match payload {
        Some(b) => blob_type_color(b.ty),
        None => None,
    }
}

impl From<Option<Blob>> for MyNodeShape {
    fn from(payload: Option<Blob>) -> (r: MyNodeShape)
        ensures
            r.color == node_color(payload),
    {
        let color = match &payload {
            Some(b) => b.color(),
            None => None,
        };
        MyNodeShape { color }
    }
}

impl vstd::std_specs::convert::FromSpecImpl<Option<Blob>> for MyNodeShape {
    open spec fn obeys_from_spec() -> bool {
        true
    }

    open spec fn from_spec(payload: Option<Blob>) -> MyNodeShape {
        MyNodeShape { color: node_color(payload) }
    }
}

impl From<Conn> for MyEdgeShape {
    fn from(conn: Conn) -> (r: MyEdgeShape)
        ensures
            r.color == relation_color(conn.relation),
    {
        MyEdgeShape { color: conn.relation.color() }
    }
}

impl vstd::std_specs::convert::FromSpecImpl<Conn> for MyEdgeShape {
    open spec fn obeys_from_spec() -> bool {
        true
    }

    open spec fn from_spec(conn: Conn) -> MyEdgeShape {
        MyEdgeShape { color: relation_color(conn.relation) }
    }
}

} // verus!
