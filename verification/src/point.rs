//! A (row, column) coordinate into the buffer. `x` is the row (line number),
//! `y` is the column (a Unicode-scalar offset within the row's text).

use vstd::prelude::*;

verus! {

#[derive(Clone, Copy, Debug, PartialEq, Eq, Structural)]
pub struct Point {
    pub x: usize,
    pub y: usize,
}

impl Default for Point {
    fn default() -> (r: Point)
        ensures
            r == (Point { x: 0, y: 0 }),
    {
        Point { x: 0, y: 0 }
    }
}

/// Where a point lands after one step up. With `exceed` the move is out of
/// range (already on the first row): the column snaps to 0. Otherwise the row
/// decreases when possible and the column is clamped into the row above,
/// whose length is `limit`.
pub open spec fn spec_move_up(p: Point, exceed: bool, limit: int) -> Point {
    if !exceed && p.x > 0 {
        let nx = (p.x - 1) as usize;
        if limit <= 0 {
            Point { x: nx, y: 0 }
        } else if p.y > limit - 1 {
            Point { x: nx, y: (limit - 1) as usize }
        } else {
            Point { x: nx, y: p.y }
        }
    } else if exceed {
        Point { x: p.x, y: 0 }
    } else {
        p
    }
}

/// Where a point lands after one step left. Within a row the column
/// decreases; at column 0 with `exceed` the point wraps to the end of the
/// row above, whose length is `limit`.
pub open spec fn spec_move_left(p: Point, exceed: bool, limit: int) -> Point {
    if p.y > 0 {
        Point { x: p.x, y: (p.y - 1) as usize }
    } else if exceed && p.x > 0 {
        let ny = if limit <= 0 { 0 } else { (limit - 1) as usize };
        Point { x: (p.x - 1) as usize, y: ny }
    } else {
        p
    }
}

/// Where a point lands after one step right. Within a row the column
/// increases up to `limit` (the row's length); at the limit with `exceed`
/// the point wraps to column 0 of the next row.
pub open spec fn spec_move_right(p: Point, exceed: bool, limit: int) -> Point {
    if p.y < limit {
        Point { x: p.x, y: (p.y + 1) as usize }
    } else if exceed && p.y == limit && p.x < usize::MAX {
        Point { x: (p.x + 1) as usize, y: 0 }
    } else {
        p
    }
}

/// Where a point lands after one step down. With `exceed` the move is out of
/// range (already on the last row): the column snaps to `limit`. Otherwise
/// the row increases and the column is clamped to `length`, the length of
/// the row below.
pub open spec fn spec_move_down(p: Point, exceed: bool, limit: int, length: int) -> Point {
    if !exceed && p.x < usize::MAX {
        let ny = if p.y > length {
            if length <= 0 {
                0
            } else {
                length as usize
            }
        } else {
            p.y
        };
        Point { x: (p.x + 1) as usize, y: ny }
    } else if exceed {
        let ny = if limit <= 0 {
            0
        } else {
            limit as usize
        };
        Point { x: p.x, y: ny }
    } else {
        p
    }
}

impl Point {
    pub fn new(x: usize, y: usize) -> (r: Point)
        ensures
            r == (Point { x, y }),
    {
        Point { x, y }
    }

    pub fn get_x(&self) -> (r: usize)
        ensures
            r == self.x,
    {
        self.x
    }

    pub fn get_y(&self) -> (r: usize)
        ensures
            r == self.y,
    {
        self.y
    }

    pub fn move_up(&mut self, exceed: bool, limit: usize)
        ensures
            *final(self) == spec_move_up(*old(self), exceed, limit as int),
    {
        if !exceed && self.x > 0 {
            self.x = self.x - 1;
            if limit == 0 {
                self.y = 0;
            } else if self.y > limit - 1 {
                self.y = limit - 1;
            }
        } else if exceed {
            self.y = 0;
        }
    }

    pub fn move_left(&mut self, exceed: bool, limit: usize)
        ensures
            *final(self) == spec_move_left(*old(self), exceed, limit as int),
    {
        if self.y > 0 {
            self.y = self.y - 1;
        } else if exceed && self.x > 0 {
            self.x = self.x - 1;
            self.y = if limit == 0 {
                0
            } else {
                limit - 1
            };
        }
    }

    pub fn move_right(&mut self, exceed: bool, limit: usize)
        ensures
            *final(self) == spec_move_right(*old(self), exceed, limit as int),
    {
        if self.y < limit {
            self.y = self.y + 1;
        } else if exceed && self.y == limit && self.x < usize::MAX {
            self.x = self.x + 1;
            self.y = 0;
        }
    }

    pub fn move_down(&mut self, exceed: bool, limit: usize, length: usize)
        ensures
            *final(self) == spec_move_down(*old(self), exceed, limit as int, length as int),
    {
        if !exceed && self.x < usize::MAX {
            self.x = self.x + 1;
            if self.y > length {
                self.y = length;
            }
        } else if exceed {
            self.y = limit;
        }
    }

    pub fn set_x(&mut self, x: usize)
        ensures
            *final(self) == (Point { x, y: old(self).y }),
    {
        self.x = x;
    }

    pub fn set_y(&mut self, y: usize)
        ensures
            *final(self) == (Point { x: old(self).x, y }),
    {
        self.y = y;
    }
}

/// Whether `a` comes no later than `b` in reading order: by row first,
/// then by column.
pub open spec fn point_le(a: Point, b: Point) -> bool {
    a.x < b.x || (a.x == b.x && a.y <= b.y)
}

/// The earlier of two points in reading order.
pub open spec fn point_min(a: Point, b: Point) -> Point {
    if point_le(a, b) {
        a
    } else {
        b
    }
}

/// The later of two points in reading order.
pub open spec fn point_max(a: Point, b: Point) -> Point {
    if point_le(a, b) {
        b
    } else {
        a
    }
}

/// The two points in reading order: the earlier first.
pub fn normalize_points(a: Point, b: Point) -> (r: (Point, Point))
    ensures
        r.0 == point_min(a, b),
        r.1 == point_max(a, b),
{
    if a.x < b.x || (a.x == b.x && a.y <= b.y) {
        (a, b)
    } else {
        (b, a)
    }
}

} // verus!
