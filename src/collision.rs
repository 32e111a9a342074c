use vstd::prelude::*;

use crate::movement::{Heading, Sign};

verus! {

/// The side of an obstacle on which an overlap was found, or `Inside` when
/// one box holds the other.
#[derive(Clone, Copy, Debug, PartialEq, Eq, Structural)]
pub enum Collision {
    Left,
    Right,
    Top,
    Bottom,
    Inside,
}

/// Which components of a mover's direction to set to zero.
#[derive(Clone, Copy, Debug, PartialEq, Eq, Structural)]
pub struct AxisClamp {
    pub zero_x: bool,
    pub zero_y: bool,
}

/// Whether heading `h` still pushes into an obstacle overlapped on `side`.
pub open spec fn pushes_into(side: Collision, h: Heading) -> bool {
    match side {
        Collision::Left => h.x == Sign::Positive,
        Collision::Right => h.x == Sign::Negative,
        Collision::Top => h.y == Sign::Negative,
        Collision::Bottom => h.y == Sign::Positive,
        Collision::Inside => h.x != Sign::Zero || h.y != Sign::Zero,
    }
}

/// The components to stop for an overlap on `side`: the horizontal one on
/// Left and Right, the vertical one on Top and Bottom, only where it points
/// into the obstacle; both when inside.
pub open spec fn clamp_for(side: Collision, h: Heading) -> AxisClamp {
    match side {
        Collision::Left => AxisClamp { zero_x: h.x == Sign::Positive, zero_y: false },
        Collision::Right => AxisClamp { zero_x: h.x == Sign::Negative, zero_y: false },
        Collision::Top => AxisClamp { zero_x: false, zero_y: h.y == Sign::Negative },
        Collision::Bottom => AxisClamp { zero_x: false, zero_y: h.y == Sign::Positive },
        Collision::Inside => AxisClamp { zero_x: true, zero_y: true },
    }
}

/// The heading after the clamp is applied.
pub open spec fn clamped(h: Heading, c: AxisClamp) -> Heading {
    Heading {
        x: if c.zero_x { Sign::Zero } else { h.x },
        y: if c.zero_y { Sign::Zero } else { h.y },
    }
}

/// A mover's heading after blocking against each overlapped obstacle in turn.
pub open spec fn blocked_by_all(h: Heading, sides: Seq<Collision>) -> Heading
    decreases sides.len(),
{
    if sides.len() == 0 {
        h
    } else {
        let before = blocked_by_all(h, sides.drop_last());
        clamped(before, clamp_for(sides.last(), before))
    }
}

/// Decides which components of a mover's direction an overlap on `side`
/// stops, for a direction whose components have the signs of `h`.
pub fn block_movement(side: Collision, h: Heading) -> (c: AxisClamp)
    ensures
        c == clamp_for(side, h),
{
    match side {
        Collision::Left => AxisClamp { zero_x: h.x == Sign::Positive, zero_y: false },
        Collision::Right => AxisClamp { zero_x: h.x == Sign::Negative, zero_y: false },
        Collision::Top => AxisClamp { zero_x: false, zero_y: h.y == Sign::Negative },
        Collision::Bottom => AxisClamp { zero_x: false, zero_y: h.y == Sign::Positive },
        Collision::Inside => AxisClamp { zero_x: true, zero_y: true },
    }
}

/// The heading of a mover with the clamp applied.
pub fn apply_clamp(h: Heading, c: AxisClamp) -> (r: Heading)
    ensures
        r == clamped(h, c),
{
    Heading {
        x: if c.zero_x { Sign::Zero } else { h.x },
        y: if c.zero_y { Sign::Zero } else { h.y },
    }
}

/// Clamping never makes a component point anywhere new: each one either
/// stays or becomes zero.
pub open spec fn only_stops(before: Heading, after: Heading) -> bool {
    (after.x == before.x || after.x == Sign::Zero) && (after.y == before.y || after.y == Sign::Zero)
}

/// After the mover has been blocked by every obstacle it overlaps, in any
/// order and even where several clamp the same axis, its direction no
/// longer points into any of them, and each component has either kept its
/// sign or stopped.
pub proof fn lemma_blocked_movers_stay_out(h: Heading, sides: Seq<Collision>)
    ensures
        forall|k: int| 0 <= k < sides.len() ==> !pushes_into(#[trigger] sides[k], blocked_by_all(h, sides)),
        only_stops(h, blocked_by_all(h, sides)),
    decreases sides.len(),
{
    if sides.len() > 0 {
        let p = sides.drop_last();
        lemma_blocked_movers_stay_out(h, p);
        let before = blocked_by_all(h, p);
        let after = blocked_by_all(h, sides);
        assert(only_stops(before, after));
        assert forall|k: int| 0 <= k < sides.len() implies !pushes_into(#[trigger] sides[k], after) by {
            if k < p.len() {
                assert(sides[k] == p[k]);
                assert(!pushes_into(p[k], before));
            }
        }
    }
}

} // verus!
