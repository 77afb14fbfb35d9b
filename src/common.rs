use vstd::prelude::*;

verus! {

/// Blank space outside a panel's border, in cells, one width per side.
#[derive(Clone, Copy, Debug, PartialEq, Eq, Structural)]
pub struct Margin {
    pub top: usize,
    pub right: usize,
    pub bottom: usize,
    pub left: usize,
}

impl Margin {
    pub open spec fn spec_new(top: usize, right: usize, bottom: usize, left: usize) -> Margin {
        Margin { top, right, bottom, left }
    }

    /// The same width on all four sides.
    pub fn same(value: usize) -> (r: Margin)
        ensures
            r == Margin::spec_new(value, value, value, value),
    {
        Margin { top: value, right: value, bottom: value, left: value }
    }

    /// Widths on the left and right, none above or below.
    pub fn sides(left: usize, right: usize) -> (r: Margin)
        ensures
            r == Margin::spec_new(0, right, 0, left),
    {
        Margin { top: 0, right, bottom: 0, left }
    }

    /// Widths above and below, none on the left or right.
    pub fn vertical(top: usize, bottom: usize) -> (r: Margin)
        ensures
            r == Margin::spec_new(top, 0, bottom, 0),
    {
        Margin { top, right: 0, bottom, left: 0 }
    }

    pub fn top(top: usize) -> (r: Margin)
        ensures
            r == Margin::spec_new(top, 0, 0, 0),
    {
        Margin { top, right: 0, bottom: 0, left: 0 }
    }

    pub fn right(right: usize) -> (r: Margin)
        ensures
            r == Margin::spec_new(0, right, 0, 0),
    {
        Margin { top: 0, right, bottom: 0, left: 0 }
    }

    pub fn bottom(bottom: usize) -> (r: Margin)
        ensures
            r == Margin::spec_new(0, 0, bottom, 0),
    {
        Margin { top: 0, right: 0, bottom, left: 0 }
    }

    pub fn left(left: usize) -> (r: Margin)
        ensures
            r == Margin::spec_new(0, 0, 0, left),
    {
        Margin { top: 0, right: 0, bottom: 0, left }
    }
}

impl Default for Margin {
    fn default() -> (r: Margin)
        ensures
            r == Margin::spec_new(0, 0, 0, 0),
    {
        Margin::same(0)
    }
}

/// Blank space between a panel's border and its content, in cells, one width per side.
#[derive(Clone, Copy, Debug, PartialEq, Eq, Structural)]
pub struct Padding {
    pub top: usize,
    pub right: usize,
    pub bottom: usize,
    pub left: usize,
}

impl Padding {
    pub open spec fn spec_new(top: usize, right: usize, bottom: usize, left: usize) -> Padding {
        Padding { top, right, bottom, left }
    }

    /// The same width on all four sides.
    pub fn same(value: usize) -> (r: Padding)
        ensures
            r == Padding::spec_new(value, value, value, value),
    {
        Padding { top: value, right: value, bottom: value, left: value }
    }

    /// Widths on the left and right, none above or below.
    pub fn sides(left: usize, right: usize) -> (r: Padding)
        ensures
            r == Padding::spec_new(0, right, 0, left),
    {
        Padding { top: 0, right, bottom: 0, left }
    }

    /// Widths above and below, none on the left or right.
    pub fn vertical(top: usize, bottom: usize) -> (r: Padding)
        ensures
            r == Padding::spec_new(top, 0, bottom, 0),
    {
        Padding { top, right: 0, bottom, left: 0 }
    }

    pub fn top(top: usize) -> (r: Padding)
        ensures
            r == Padding::spec_new(top, 0, 0, 0),
    {
        Padding { top, right: 0, bottom: 0, left: 0 }
    }

    pub fn right(right: usize) -> (r: Padding)
        ensures
            r == Padding::spec_new(0, right, 0, 0),
    {
        Padding { top: 0, right, bottom: 0, left: 0 }
    }

    pub fn bottom(bottom: usize) -> (r: Padding)
        ensures
            r == Padding::spec_new(0, 0, bottom, 0),
    {
        Padding { top: 0, right: 0, bottom, left: 0 }
    }

    pub fn left(left: usize) -> (r: Padding)
        ensures
            r == Padding::spec_new(0, 0, 0, left),
    {
        Padding { top: 0, right: 0, bottom: 0, left }
    }
}

impl Default for Padding {
    fn default() -> (r: Padding)
        ensures
            r == Padding::spec_new(0, 0, 0, 0),
    {
        Padding::same(0)
    }
}

} // verus!
