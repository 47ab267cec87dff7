use vstd::prelude::*;

verus! {

/// One of the 4 sides of a tile or of a node.
///
/// The x-axis points to the right and the y-axis points down: the back side
/// is at the top, the front side at the bottom.
#[derive(Copy, Clone, Debug, PartialEq, Eq, Hash, Structural)]
pub enum Side {
    Back,
    Left,
    Front,
    Right,
}

/// The position of a side in the counter-clockwise order Back, Left, Front, Right.
pub open spec fn side_index(side: Side) -> int {
    match side {
        Side::Back => 0,
        Side::Left => 1,
        Side::Front => 2,
        Side::Right => 3,
    }
}

/// All sides in counter-clockwise order.
pub open spec fn all_sides() -> Seq<Side> {
    seq![Side::Back, Side::Left, Side::Front, Side::Right]
}

/// The side opposite to `side`.
pub open spec fn opposite(side: Side) -> Side {
    match side {
        Side::Back => Side::Front,
        Side::Left => Side::Right,
        Side::Front => Side::Back,
        Side::Right => Side::Left,
    }
}

/// Two sides form a straight line exactly when they are opposite.
pub open spec fn spec_is_straight(a: Side, b: Side) -> bool {
    b == opposite(a)
}

impl Side {
    /// Returns all sides counter-clockwise, starting at the back.
    pub fn iterator() -> (r: Vec<Side>)
        ensures
            r@ == all_sides(),
    {
        let r = vec![Side::Back, Side::Left, Side::Front, Side::Right];
        assert(r@ =~= all_sides());
        r
    }

    /// Do the 2 sides form a straight line at a node?
    pub fn is_straight(&self, other: Side) -> (r: bool)
        ensures
            r == spec_is_straight(*self, other),
    {
        match self {
            Side::Back => other == Side::Front,
            Side::Left => other == Side::Right,
            Side::Front => other == Side::Back,
            Side::Right => other == Side::Left,
        }
    }

    /// Returns the name of the side.
    pub fn to_string(&self) -> (r: String)
        ensures
            r@ == side_name(*self)@,
    {
        match self {
            Side::Back => String::from_str("Back"),
            Side::Left => String::from_str("Left"),
            Side::Front => String::from_str("Front"),
            Side::Right => String::from_str("Right"),
        }
    }
}

/// The name of a side.
pub open spec fn side_name(side: Side) -> &'static str {
    match side {
        Side::Back => "Back",
        Side::Left => "Left",
        Side::Front => "Front",
        Side::Right => "Right",
    }
}

/// Each side forms a straight line with exactly one side, and that relation is
/// symmetric: no side is straight with itself or with a neighbouring side.
pub proof fn lemma_straight_unique_and_symmetric(a: Side, b: Side)
    ensures
        spec_is_straight(a, b) <==> spec_is_straight(b, a),
        exists|c: Side| spec_is_straight(a, c),
        forall|c: Side, d: Side| spec_is_straight(a, c) && spec_is_straight(a, d) ==> c == d,
        !spec_is_straight(a, a),
{
    assert(spec_is_straight(a, opposite(a)));
}

} // verus!
