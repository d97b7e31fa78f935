//! A range selection over the buffer: a (start, end) pair of points. No
//! ordering is enforced at storage time — `start` may come after `end` in
//! reading order; consumers normalize before extracting or deleting.

use vstd::prelude::*;

verus! {

use crate::point::Point;

#[derive(Clone, Copy, Debug, PartialEq, Eq, Structural, Default)]
pub struct CodeSelection {
    pub start: Point,
    pub end: Point,
}

impl CodeSelection {
    pub fn new(start: Point, end: Point) -> (r: CodeSelection)
        ensures
            r == (CodeSelection { start, end }),
    {
        CodeSelection { start, end }
    }

    pub fn get_start(&self) -> (r: &Point)
        ensures
            *r == self.start,
    {
        &self.start
    }

    pub fn get_end(&self) -> (r: &Point)
        ensures
            *r == self.end,
    {
        &self.end
    }

    pub fn set_start(&mut self, start: Point)
        ensures
            *final(self) == (CodeSelection { start, end: old(self).end }),
    {
        self.start = start;
    }

    pub fn set_end(&mut self, end: Point)
        ensures
            *final(self) == (CodeSelection { start: old(self).start, end }),
    {
        self.end = end;
    }
}

} // verus!
