use vstd::prelude::*;

verus! {

/// A square of the board: `x` counts files from the left, `y` counts rows from the top
/// (row 0 holds Black's back rank).
#[derive(Copy, Clone, Debug, Default, PartialEq, Eq, Structural, Hash)]
pub struct Pos {
    pub x: isize,
    pub y: isize,
}

/// A displacement between two squares.
#[derive(Copy, Clone, Debug, Default, PartialEq, Eq, Structural, Hash)]
pub struct Shift {
    pub dx: isize,
    pub dy: isize,
}

/// Whether an integer coordinate pair fits in `isize` on both axes.
pub open spec fn fits(x: int, y: int) -> bool {
    isize::MIN <= x <= isize::MAX && isize::MIN <= y <= isize::MAX
}

impl Pos {
    pub fn new(x: isize, y: isize) -> (r: Pos)
        ensures
            r.x == x,
            r.y == y,
    {
        Pos { x, y }
    }

    pub fn x(&self) -> (r: isize)
        ensures
            r == self.x,
    {
        self.x
    }

    pub fn y(&self) -> (r: isize)
        ensures
            r == self.y,
    {
        self.y
    }

    /// The square reached by moving from `self` by `s`.
    pub fn offset(self, s: Shift) -> (r: Pos)
        requires
            fits(self.x + s.dx, self.y + s.dy),
        ensures
            r.x == self.x + s.dx,
            r.y == self.y + s.dy,
    {
        Pos { x: self.x + s.dx, y: self.y + s.dy }
    }

    /// The square reached by moving from `self` against `s`.
    pub fn offset_back(self, s: Shift) -> (r: Pos)
        requires
            fits(self.x - s.dx, self.y - s.dy),
        ensures
            r.x == self.x - s.dx,
            r.y == self.y - s.dy,
    {
        Pos { x: self.x - s.dx, y: self.y - s.dy }
    }

    /// The displacement that leads from `from` to `self`.
    pub fn diff(self, from: Pos) -> (r: Shift)
        requires
            fits(self.x - from.x, self.y - from.y),
        ensures
            r.dx == self.x - from.x,
            r.dy == self.y - from.y,
    {
        Shift { dx: self.x - from.x, dy: self.y - from.y }
    }
}

impl Shift {
    pub fn new(dx: isize, dy: isize) -> (r: Shift)
        ensures
            r.dx == dx,
            r.dy == dy,
    {
        Shift { dx, dy }
    }

    /// The opposite displacement.
    pub fn negated(self) -> (r: Shift)
        requires
            fits(-self.dx, -self.dy),
        ensures
            r.dx == -self.dx,
            r.dy == -self.dy,
    {
        Shift { dx: -self.dx, dy: -self.dy }
    }

    /// The composition of two displacements.
    pub fn plus(self, o: Shift) -> (r: Shift)
        requires
            fits(self.dx + o.dx, self.dy + o.dy),
        ensures
            r.dx == self.dx + o.dx,
            r.dy == self.dy + o.dy,
    {
        Shift { dx: self.dx + o.dx, dy: self.dy + o.dy }
    }

    /// The difference of two displacements.
    pub fn minus(self, o: Shift) -> (r: Shift)
        requires
            fits(self.dx - o.dx, self.dy - o.dy),
        ensures
            r.dx == self.dx - o.dx,
            r.dy == self.dy - o.dy,
    {
        Shift { dx: self.dx - o.dx, dy: self.dy - o.dy }
    }

    /// The displacement scaled by `k`.
    pub fn times(self, k: isize) -> (r: Shift)
        requires
            fits(self.dx * k, self.dy * k),
        ensures
            r.dx == self.dx * k,
            r.dy == self.dy * k,
    {
        Shift { dx: self.dx * k, dy: self.dy * k }
    }
}

/// The displacement with the given integer components.
pub open spec fn shift(dx: int, dy: int) -> Shift {
    Shift { dx: dx as isize, dy: dy as isize }
}

/// The eight compass directions, clockwise from "up" (towards row 0).
pub open spec fn compass(i: int) -> Shift {
    if i == 0 {
        shift(0, -1)
    } else if i == 1 {
        shift(1, -1)
    } else if i == 2 {
        shift(1, 0)
    } else if i == 3 {
        shift(1, 1)
    } else if i == 4 {
        shift(0, 1)
    } else if i == 5 {
        shift(-1, 1)
    } else if i == 6 {
        shift(-1, 0)
    } else {
        shift(-1, -1)
    }
}

/// The eight knight leaps, clockwise from the one two rows up and one file right.
pub open spec fn leap(i: int) -> Shift {
    if i == 0 {
        shift(1, -2)
    } else if i == 1 {
        shift(2, -1)
    } else if i == 2 {
        shift(2, 1)
    } else if i == 3 {
        shift(1, 2)
    } else if i == 4 {
        shift(-1, 2)
    } else if i == 5 {
        shift(-2, 1)
    } else if i == 6 {
        shift(-2, -1)
    } else {
        shift(-1, -2)
    }
}

impl Shift {
    /// The `i`-th compass direction: up, up-right, right, down-right, down, down-left, left,
    /// up-left.
    pub fn compass(i: usize) -> (r: Shift)
        requires
            i < 8,
        ensures
            r == compass(i as int),
    {
        if i == 0 {
            Shift { dx: 0, dy: -1 }
        } else if i == 1 {
            Shift { dx: 1, dy: -1 }
        } else if i == 2 {
            Shift { dx: 1, dy: 0 }
        } else if i == 3 {
            Shift { dx: 1, dy: 1 }
        } else if i == 4 {
            Shift { dx: 0, dy: 1 }
        } else if i == 5 {
            Shift { dx: -1, dy: 1 }
        } else if i == 6 {
            Shift { dx: -1, dy: 0 }
        } else {
            Shift { dx: -1, dy: -1 }
        }
    }

    /// The `i`-th knight leap.
    pub fn leap(i: usize) -> (r: Shift)
        requires
            i < 8,
        ensures
            r == leap(i as int),
    {
        if i == 0 {
            Shift { dx: 1, dy: -2 }
        } else if i == 1 {
            Shift { dx: 2, dy: -1 }
        } else if i == 2 {
            Shift { dx: 2, dy: 1 }
        } else if i == 3 {
            Shift { dx: 1, dy: 2 }
        } else if i == 4 {
            Shift { dx: -1, dy: 2 }
        } else if i == 5 {
            Shift { dx: -2, dy: 1 }
        } else if i == 6 {
            Shift { dx: -2, dy: -1 }
        } else {
            Shift { dx: -1, dy: -2 }
        }
    }
}

} // verus!
