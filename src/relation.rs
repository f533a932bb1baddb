use vstd::prelude::*;

use crate::blob::Blob;
use crate::palette::NamedColor;

verus! {

/// How two connected nodes relate.
#[derive(Clone, Copy, Debug, PartialEq, Eq, Structural)]
pub enum Relation {
    /// Contradicting or confusing
    Conflict,
    /// Partial progress towards understanding
    Progress,
    /// Non-trivial and interesting relation
    Insight,
    /// Easy to identify or probably trivial relation
    Related,
}

pub open spec fn relation_color(r: Relation) -> Option<NamedColor> {
    match r {
        Relation::Conflict => Some(NamedColor::LightRed),
        Relation::Progress => Some(NamedColor::Yellow),
        Relation::Insight => Some(NamedColor::LightGreen),
        Relation::Related => None,
    }
}

pub open spec fn relation_label(r: Relation) -> Seq<char> {
    match r {
        Relation::Conflict => "Conflict"@,
        Relation::Progress => "Progress"@,
        Relation::Insight => "Insight"@,
        Relation::Related => "Related"@,
    }
}

impl Relation {
    /// The colour of an edge of this relation; `None` leaves the foreground default.
    pub fn color(&self) -> (r: Option<NamedColor>)
        ensures
            r == relation_color(*self),
    {
        match self {
            Relation::Conflict => Some(NamedColor::LightRed),
            Relation::Progress => Some(NamedColor::Yellow),
            Relation::Insight => Some(NamedColor::LightGreen),
            Relation::Related => None,
        }
    }

    /// The label shown on an edge of this relation: the relation's name.
    pub fn label(&self) -> (r: String)
        ensures
            r@ == relation_label(*self),
    {
        match self {
            Relation::Conflict => "Conflict".to_owned(),
            Relation::Progress => "Progress".to_owned(),
            Relation::Insight => "Insight".to_owned(),
            Relation::Related => "Related".to_owned(),
        }
    }
}

/// What an edge carries: an optional comment document and the relation.
#[derive(Clone, Debug)]
pub struct Conn {
    pub comment: Option<Blob>,
    pub relation: Relation,
}

} // verus!
