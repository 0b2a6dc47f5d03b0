use vstd::prelude::*;

verus! {

/// A direction on the screen.
#[derive(Clone, Copy, Debug)]
pub enum Direction {
    Left,
    Right,
    Up,
    Down,
}

/// A node of a tiling tree: a region split in two along `orient`, with the
/// optional children `a` and `b`.
#[derive(Clone, Debug)]
pub struct Fork {
    pub parent: Option<Id>,
    pub pos: Position,
    pub size: Size,
    pub orient: Orientation,
    pub a: Option<Id>,
    pub b: Option<Id>,
}

impl Fork {
    pub fn new(
        parent: Option<Id>,
        pos: Position,
        size: Size,
        orient: Orientation,
        a: Option<Id>,
        b: Option<Id>,
    ) -> (r: Self)
        ensures
            r.parent == parent,
            r.pos == pos,
            r.size == size,
            r.orient == orient,
            r.a == a,
            r.b == b,
    {
        Self { parent, pos, size, orient, a, b }
    }
}

/// The identifier of a node of a tiling tree.
#[derive(Clone, Copy, Debug, Eq, Ord, PartialEq, PartialOrd, Structural)]
pub struct Id(pub u64);

/// The way a fork splits its region.
#[derive(Clone, Copy, Debug)]
pub enum Orientation {
    Horizontal,
    Vertical,
}

/// A point of the tiling plane.
#[derive(Clone, Copy, Debug)]
pub struct Position {
    pub x: i64,
    pub y: i64,
}

impl Position {
    pub fn new(x: i64, y: i64) -> (r: Self)
        ensures
            r.x == x,
            r.y == y,
    {
        Self { x, y }
    }
}

/// The size of a region of the tiling plane.
#[derive(Clone, Copy, Debug)]
pub struct Size {
    pub w: i64,
    pub h: i64,
}

impl Size {
    pub fn new(w: i64, h: i64) -> (r: Self)
        ensures
            r.w == w,
            r.h == h,
    {
        Self { w, h }
    }
}

} // verus!
