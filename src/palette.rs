use vstd::prelude::*;

verus! {

/// The named colours of the host toolkit's palette that the board uses.
#[derive(Clone, Copy, Debug, PartialEq, Eq, Structural)]
pub enum NamedColor {
    LightBlue,
    LightRed,
    Yellow,
    LightGreen,
}

} // verus!
