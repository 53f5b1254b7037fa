use vstd::prelude::*;

verus! {

/// The resources visible to a position: an ephemeral aggregate computed
/// from the structures on neighbouring tiles, one count per good type.
#[derive(PartialEq, Eq, Structural, Clone, Copy, Debug)]
pub struct Goods {
    pub wood: u64,
    pub stone: u64,
}

impl Goods {
    /// The per-type sum of two goods snapshots.
    pub open spec fn spec_add(self, other: Goods) -> Goods {
        Goods {
            wood: (self.wood + other.wood) as u64,
            stone: (self.stone + other.stone) as u64,
        }
    }

    /// An empty snapshot: no goods of any type.
    pub fn none() -> (g: Goods)
        ensures
            g == (Goods { wood: 0, stone: 0 }),
    {
        Goods { wood: 0, stone: 0 }
    }

    /// Adds two snapshots per good type.
    pub fn add(self, other: Goods) -> (g: Goods)
        requires
            self.wood + other.wood <= u64::MAX,
            self.stone + other.stone <= u64::MAX,
        ensures
            g == self.spec_add(other),
    {
        Goods { wood: self.wood + other.wood, stone: self.stone + other.stone }
    }
}

} // verus!
