use vstd::prelude::*;

verus! {

/// A screen-space point; also used as a velocity (a per-tick delta).
#[derive(Clone, Copy, Debug, PartialEq, Eq, Structural)]
pub struct Point {
    pub x: i16,
    pub y: i16,
}

/// An axis-aligned box given by its top-left corner and its size.
#[derive(Clone, Copy, Debug, PartialEq, Eq, Structural)]
pub struct Rect {
    pub position: Point,
    pub width: i16,
    pub height: i16,
}

/// Whether two boxes overlap on both axes; boxes that only touch do not.
pub open spec fn boxes_overlap(a: Rect, b: Rect) -> bool {
    &&& a.position.x < b.right_spec()
    &&& a.right_spec() > b.position.x
    &&& a.position.y < b.bottom_spec()
    &&& a.bottom_spec() > b.position.y
}

impl Rect {
    pub open spec fn right_spec(&self) -> int {
        self.position.x + self.width
    }

    pub open spec fn bottom_spec(&self) -> int {
        self.position.y + self.height
    }

    /// The right and bottom edges are themselves representable coordinates.
    pub open spec fn edges_fit(&self) -> bool {
        &&& i16::MIN <= self.right_spec() <= i16::MAX
        &&& i16::MIN <= self.bottom_spec() <= i16::MAX
    }

    pub fn new_from_x_y(x: i16, y: i16, width: i16, height: i16) -> (r: Rect)
        ensures
            r == (Rect { position: Point { x, y }, width, height }),
    {
        Rect { position: Point { x, y }, width, height }
    }

    pub fn x(&self) -> (r: i16)
        ensures
            r == self.position.x,
    {
        self.position.x
    }

    pub fn y(&self) -> (r: i16)
        ensures
            r == self.position.y,
    {
        self.position.y
    }

    pub fn right(&self) -> (r: i16)
        requires
            self.edges_fit(),
        ensures
            r == self.right_spec(),
    {
        self.position.x + self.width
    }

    pub fn bottom(&self) -> (r: i16)
        requires
            self.edges_fit(),
        ensures
            r == self.bottom_spec(),
    {
        self.position.y + self.height
    }

    pub fn set_x(&mut self, x: i16)
        ensures
            *final(self) == (Rect { position: Point { x, y: old(self).position.y }, ..*old(self) }),
    {
        self.position.x = x;
    }

    pub fn intersects(&self, other: &Rect) -> (r: bool)
        ensures
            r == boxes_overlap(*self, *other),
    {
        let a_right = self.position.x as i32 + self.width as i32;
        let a_bottom = self.position.y as i32 + self.height as i32;
        let b_right = other.position.x as i32 + other.width as i32;
        let b_bottom = other.position.y as i32 + other.height as i32;
        (self.position.x as i32) < b_right && a_right > other.position.x as i32
            && (self.position.y as i32) < b_bottom && a_bottom > other.position.y as i32
    }
}

} // verus!
