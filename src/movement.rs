use vstd::prelude::*;

verus! {

/// The sign of one component of a movement direction.
#[derive(Clone, Copy, Debug, PartialEq, Eq, Structural)]
pub enum Sign {
    Negative,
    Zero,
    Positive,
}

/// The signs of the horizontal and vertical components of a direction.
#[derive(Clone, Copy, Debug, PartialEq, Eq, Structural)]
pub struct Heading {
    pub x: Sign,
    pub y: Sign,
}

/// The logical directional actions held down this frame.
#[derive(Clone, Copy, Debug, PartialEq, Eq, Structural)]
pub struct Controls {
    pub left: bool,
    pub right: bool,
    pub up: bool,
    pub down: bool,
}

/// The heading that the held actions ask for. Right wins over left and down
/// over up when both are held.
pub open spec fn steer(c: Controls) -> Heading {
    Heading {
        x: if c.right {
            Sign::Positive
        } else if c.left {
            Sign::Negative
        } else {
            Sign::Zero
        },
        y: if c.down {
            Sign::Negative
        } else if c.up {
            Sign::Positive
        } else {
            Sign::Zero
        },
    }
}

/// The player's heading for this frame, before it is scaled to unit length.
pub fn handle_input(c: Controls) -> (h: Heading)
    ensures
        h == steer(c),
{
    let mut x = Sign::Zero;
    let mut y = Sign::Zero;
    if c.left {
        x = Sign::Negative;
    }
    if c.right {
        x = Sign::Positive;
    }
    if c.up {
        y = Sign::Positive;
    }
    if c.down {
        y = Sign::Negative;
    }
    Heading { x, y }
}

} // verus!
