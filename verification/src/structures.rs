use vstd::prelude::*;

use crate::goods::Goods;

verus! {

/// The catalog of structures a tile can hold. Each variant knows its
/// display name, the goods it supplies to neighbouring positions, and
/// the structures it may legally upgrade to given a goods snapshot.
#[derive(PartialEq, Eq, Structural, Clone, Copy, Debug)]
pub enum Structure {
    Road,
    Forest,
    Quarry,
    House,
    Cottage,
    Workshop,
    Mansion,
}

impl Structure {
    /// The stable display name of this variant.
    pub open spec fn spec_name(self) -> Seq<char> {
        match self {
            Structure::Road => "Road"@,
            Structure::Forest => "Forest"@,
            Structure::Quarry => "Quarry"@,
            Structure::House => "House"@,
            Structure::Cottage => "Cottage"@,
            Structure::Workshop => "Workshop"@,
            Structure::Mansion => "Mansion"@,
        }
    }

    /// The goods this structure supplies to each neighbouring position.
    pub open spec fn spec_supplies(self) -> Goods {
        match self {
            Structure::Forest => Goods { wood: 1, stone: 0 },
            Structure::Quarry => Goods { wood: 0, stone: 1 },
            _ => Goods { wood: 0, stone: 0 },
        }
    }

    /// The legal upgrades from this structure under the given goods:
    /// a house needs two wood for a cottage and two stone for a workshop;
    /// a cottage needs three wood and one stone for a mansion; every
    /// other structure is terminal. A pure function of variant and goods.
    pub open spec fn spec_next(self, goods: Goods) -> Seq<Structure> {
        match self {
            Structure::House => if goods.wood >= 2 && goods.stone >= 2 {
                seq![Structure::Cottage, Structure::Workshop]
            } else if goods.wood >= 2 {
                seq![Structure::Cottage]
            } else if goods.stone >= 2 {
                seq![Structure::Workshop]
            } else {
                Seq::empty()
            },
            Structure::Cottage => if goods.wood >= 3 && goods.stone >= 1 {
                seq![Structure::Mansion]
            } else {
                Seq::empty()
            },
            _ => Seq::empty(),
        }
    }

    /// The display name, used as the menu label and as a candidate key.
    pub fn name(&self) -> (r: &'static str)
        ensures
            r@ == self.spec_name(),
    {
        match self {
            Structure::Road => "Road",
            Structure::Forest => "Forest",
            Structure::Quarry => "Quarry",
            Structure::House => "House",
            Structure::Cottage => "Cottage",
            Structure::Workshop => "Workshop",
            Structure::Mansion => "Mansion",
        }
    }

    /// The goods this structure supplies to its neighbours.
    pub fn supplies(&self) -> (g: Goods)
        ensures
            g == self.spec_supplies(),
    {
        match self {
            Structure::Forest => Goods { wood: 1, stone: 0 },
            Structure::Quarry => Goods { wood: 0, stone: 1 },
            _ => Goods { wood: 0, stone: 0 },
        }
    }

    /// The ordered set of structures this one may upgrade to, given the
    /// goods currently available. Empty means terminal: no upgrade.
    pub fn next_candidates(&self, goods: &Goods) -> (r: Vec<Structure>)
        ensures
            r@ == self.spec_next(*goods),
    {
        let mut r: Vec<Structure> = Vec::new();
        match self {
            Structure::House => {
                if goods.wood >= 2 {
                    r.push(Structure::Cottage);
                }
                if goods.stone >= 2 {
                    r.push(Structure::Workshop);
                }
            },
            Structure::Cottage => {
                if goods.wood >= 3 && goods.stone >= 1 {
                    r.push(Structure::Mansion);
                }
            },
            _ => {},
        }
        proof {
            assert(r@ =~= self.spec_next(*goods));
        }
        r
    }
}

} // verus!
