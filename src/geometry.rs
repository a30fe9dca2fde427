use vstd::prelude::*;

verus! {

/// A (row, column) position on the screen or in a document.
#[derive(Clone, Copy, Debug, PartialEq, Eq, Structural)]
pub struct Position {
    pub row: usize,
    pub col: usize,
}

/// Blank space kept inside a rectangle on each side.
#[derive(Clone, Copy, Debug, PartialEq, Eq, Structural)]
pub struct Margin {
    pub vertical: u16,
    pub horizontal: u16,
}

/// A rectangular region of the terminal grid.
#[derive(Clone, Copy, Debug, PartialEq, Eq, Structural)]
pub struct Rect {
    pub x: u16,
    pub y: u16,
    pub width: u16,
    pub height: u16,
}

pub open spec fn sat_add(a: int, b: int) -> int {
    if a + b > u16::MAX { u16::MAX as int } else { a + b }
}

pub open spec fn sat_sub(a: int, b: int) -> int {
    if a >= b { a - b } else { 0 }
}

pub open spec fn min(a: int, b: int) -> int {
    if a <= b { a } else { b }
}

pub open spec fn max(a: int, b: int) -> int {
    if a >= b { a } else { b }
}

impl Position {
    pub fn new(row: usize, col: usize) -> (r: Position)
        ensures
            r.row == row,
            r.col == col,
    {
        Position { row, col }
    }
}

impl Rect {
    pub fn new(x: u16, y: u16, width: u16, height: u16) -> (r: Rect)
        ensures
            r == (Rect { x, y, width, height }),
    {
        Rect { x, y, width, height }
    }

    pub open spec fn width_height(self) -> (u16, u16) {
        (self.width, self.height)
    }

    pub open spec fn right_spec(self) -> int {
        sat_add(self.x as int, self.width as int)
    }

    pub open spec fn bottom_spec(self) -> int {
        sat_add(self.y as int, self.height as int)
    }

    /// One past the last column, saturating at the grid's limit.
    pub fn right(&self) -> (r: u16)
        ensures
            r == self.right_spec(),
    {
        self.x.saturating_add(self.width)
    }

    /// One past the last row, saturating at the grid's limit.
    pub fn bottom(&self) -> (r: u16)
        ensures
            r == self.bottom_spec(),
    {
        self.y.saturating_add(self.height)
    }

    pub open spec fn inner_spec(self, m: Margin) -> Rect {
        if (self.width as int) < 2 * m.horizontal || (self.height as int) < 2 * m.vertical {
            Rect { x: 0, y: 0, width: 0, height: 0 }
        } else {
            Rect {
                x: sat_add(self.x as int, m.horizontal as int) as u16,
                y: sat_add(self.y as int, m.vertical as int) as u16,
                width: (self.width - 2 * m.horizontal) as u16,
                height: (self.height - 2 * m.vertical) as u16,
            }
        }
    }

    /// The area left once the margin is taken off every side; empty where
    /// the margin does not fit.
    pub fn inner(&self, m: &Margin) -> (r: Rect)
        ensures
            r == self.inner_spec(*m),
    {
        let h2: u32 = 2 * (m.horizontal as u32);
        let v2: u32 = 2 * (m.vertical as u32);
        if (self.width as u32) < h2 || (self.height as u32) < v2 {
            Rect { x: 0, y: 0, width: 0, height: 0 }
        } else {
            Rect {
                x: self.x.saturating_add(m.horizontal),
                y: self.y.saturating_add(m.vertical),
                width: ((self.width as u32) - h2) as u16,
                height: ((self.height as u32) - v2) as u16,
            }
        }
    }

    pub open spec fn intersection_spec(self, o: Rect) -> Rect {
        let x1 = max(self.x as int, o.x as int);
        let y1 = max(self.y as int, o.y as int);
        let x2 = min(self.right_spec(), o.right_spec());
        let y2 = min(self.bottom_spec(), o.bottom_spec());
        Rect { x: x1 as u16, y: y1 as u16, width: sat_sub(x2, x1) as u16, height: sat_sub(y2, y1) as u16 }
    }

    /// The overlap of two rectangles; zero-sized where they do not overlap.
    pub fn intersection(&self, o: &Rect) -> (r: Rect)
        ensures
            r == self.intersection_spec(*o),
            r.x >= self.x && r.x >= o.x && r.y >= self.y && r.y >= o.y,
            r.width > 0 ==> r.right_spec() <= self.right_spec() && r.right_spec() <= o.right_spec(),
            r.height > 0 ==> r.bottom_spec() <= self.bottom_spec() && r.bottom_spec() <= o.bottom_spec(),
            r.width <= self.width && r.width <= o.width,
            r.height <= self.height && r.height <= o.height,
    {
        let x1 = if self.x >= o.x { self.x } else { o.x };
        let y1 = if self.y >= o.y { self.y } else { o.y };
        let (r1, r2) = (self.right(), o.right());
        let (b1, b2) = (self.bottom(), o.bottom());
        let x2 = if r1 <= r2 { r1 } else { r2 };
        let y2 = if b1 <= b2 { b1 } else { b2 };
        Rect { x: x1, y: y1, width: x2.saturating_sub(x1), height: y2.saturating_sub(y1) }
    }
}

} // verus!
