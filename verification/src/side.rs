//! Which half of the keyboard this is, and which half leads.

use vstd::prelude::*;

verus! {

/// One of the two halves of the keyboard.
#[derive(Clone, Copy, Debug, PartialEq, Eq, Hash, Structural)]
pub enum KeyboardSide {
    Left,
    Right,
}

impl KeyboardSide {
    /// The opposite half, as a mathematical function.
    pub open spec fn opposite(self) -> KeyboardSide {
        match self {
            KeyboardSide::Left => KeyboardSide::Right,
            KeyboardSide::Right => KeyboardSide::Left,
        }
    }

    pub fn is_left(self) -> (r: bool)
        ensures
            r == (self == KeyboardSide::Left),
    {
        matches!(self, KeyboardSide::Left)
    }

    pub fn is_right(self) -> (r: bool)
        ensures
            r == (self == KeyboardSide::Right),
    {
        matches!(self, KeyboardSide::Right)
    }

    pub fn other(self) -> (r: KeyboardSide)
        ensures
            r == self.opposite(),
    {
        match self {
            KeyboardSide::Left => KeyboardSide::Right,
            KeyboardSide::Right => KeyboardSide::Left,
        }
    }
}

/// The half that a pair of build switches selects: exactly one of them has
/// to be set.
pub open spec fn selected_side(side_left: bool, side_right: bool) -> Option<KeyboardSide> {
    if side_left && !side_right {
        Some(KeyboardSide::Left)
    } else if side_right && !side_left {
        Some(KeyboardSide::Right)
    } else {
        None
    }
}

/// The half that leads: it talks to the host and runs the layout.
pub open spec fn leads(this: KeyboardSide) -> bool {
    this == KeyboardSide::Right
}

/// Resolves the two build switches to the half this firmware is built for.
/// Neither or both set is a misconfiguration and gives `None`.
pub fn get_side(side_left: bool, side_right: bool) -> (r: Option<KeyboardSide>)
    ensures
        r == selected_side(side_left, side_right),
{
    if side_left && !side_right {
        Some(KeyboardSide::Left)
    } else if side_right && !side_left {
        Some(KeyboardSide::Right)
    } else {
        None
    }
}

/// Whether `side` is the half that the firmware runs on.
pub fn is_this_side(this: KeyboardSide, side: KeyboardSide) -> (r: bool)
    ensures
        r == (this == side),
{
    match this {
        KeyboardSide::Left => matches!(side, KeyboardSide::Left),
        KeyboardSide::Right => matches!(side, KeyboardSide::Right),
    }
}

/// The half on the far end of the link.
pub fn get_other_side(this: KeyboardSide) -> (r: KeyboardSide)
    ensures
        r == this.opposite(),
{
    this.other()
}

/// Whether this half leads.
pub fn is_master(this: KeyboardSide) -> (r: bool)
    ensures
        r == leads(this),
{
    is_this_side(this, KeyboardSide::Right)
}

/// Swapping sides twice gives the starting side, and never the same side.
pub proof fn lemma_other_is_involution(side: KeyboardSide)
    ensures
        side.opposite().opposite() == side,
        side.opposite() != side,
{
}

/// Of the two halves exactly one leads.
pub proof fn lemma_exactly_one_leader(side: KeyboardSide)
    ensures
        leads(side) != leads(side.opposite()),
{
}

} // verus!
