use vstd::prelude::*;

verus! {

/// One hex cell, in axial coordinates. Positions are immutable values,
/// compared structurally, and serve as the board's key type.
#[derive(PartialEq, Eq, Structural, Clone, Copy, Hash, Debug)]
pub struct Position {
    pub q: i64,
    pub r: i64,
}

impl Position {
    /// Both coordinates leave room for the unit offsets of the six
    /// neighbouring cells.
    pub open spec fn neighbors_in_range(self) -> bool {
        &&& i64::MIN < self.q < i64::MAX
        &&& i64::MIN < self.r < i64::MAX
    }

    /// The k-th of the six axial neighbours of this cell.
    pub open spec fn spec_neighbor(self, k: int) -> Position {
        if k == 0 {
            Position { q: (self.q + 1) as i64, r: self.r }
        } else if k == 1 {
            Position { q: (self.q + 1) as i64, r: (self.r - 1) as i64 }
        } else if k == 2 {
            Position { q: self.q, r: (self.r - 1) as i64 }
        } else if k == 3 {
            Position { q: (self.q - 1) as i64, r: self.r }
        } else if k == 4 {
            Position { q: (self.q - 1) as i64, r: (self.r + 1) as i64 }
        } else {
            Position { q: self.q, r: (self.r + 1) as i64 }
        }
    }

    /// The k-th neighbouring position, for k in 0..6.
    pub fn neighbor(&self, k: usize) -> (n: Position)
        requires
            k < 6,
            self.neighbors_in_range(),
        ensures
            n == self.spec_neighbor(k as int),
    {
        match k {
            0 => Position { q: self.q + 1, r: self.r },
            1 => Position { q: self.q + 1, r: self.r - 1 },
            2 => Position { q: self.q, r: self.r - 1 },
            3 => Position { q: self.q - 1, r: self.r },
            4 => Position { q: self.q - 1, r: self.r + 1 },
            _ => Position { q: self.q, r: self.r + 1 },
        }
    }
}

} // verus!
