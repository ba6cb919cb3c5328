//! Ranges of bytes in a source text, optionally carrying data.

use vstd::prelude::*;

verus! {

/// A range of positions, `length` items starting at `offset`,
/// with some data described within the range.
#[derive(Clone, Copy, Debug, PartialEq, Eq)]
pub struct Range<T = ()> {
    /// The range offset.
    pub offset: usize,
    /// The range length.
    pub length: usize,
    /// The data described within the range.
    pub data: T,
}

impl Range {
    /// Creates a new range.
    pub fn new(offset: usize, length: usize) -> (r: Range)
        ensures
            (r == Range { offset, length, data: () }),
    {
        Range { offset, length, data: () }
    }

    /// Creates an empty range at an offset.
    pub fn empty(offset: usize) -> (r: Range)
        ensures
            (r == Range { offset, length: 0, data: () }),
    {
        Range { offset, length: 0, data: () }
    }

    /// Wraps some data in the range.
    pub fn wrap<T>(self, data: T) -> (r: Range<T>)
        ensures
            r.offset == self.offset,
            r.length == self.length,
            r.data == data,
    {
        Range { offset: self.offset, length: self.length, data }
    }
}

impl<T> Range<T> {
    /// The offset just past the end of the range.
    pub open spec fn end(self) -> int {
        self.offset + self.length
    }

    /// Returns the next offset.
    pub fn next_offset(&self) -> (n: usize)
        requires
            self.offset + self.length <= usize::MAX,
        ensures
            n == self.end(),
    {
        self.offset + self.length
    }
}

} // verus!
