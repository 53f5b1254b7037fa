use vstd::prelude::*;

use crate::board::Board;
use crate::goods::Goods;
use crate::position::Position;
use crate::structures::Structure;

verus! {

/// The goods supplied to position p by its first k neighbours (in the
/// fixed axial order), summed per good type over the structures the map
/// holds at those neighbours.
pub open spec fn partial_goods(p: Position, m: Map<Position, Structure>, k: int) -> Goods
    decreases k,
{
    if k <= 0 {
        Goods { wood: 0, stone: 0 }
    } else {
        let n = p.spec_neighbor(k - 1);
        let prev = partial_goods(p, m, k - 1);
        if m.contains_key(n) {
            prev.spec_add(m[n].spec_supplies())
        } else {
            prev
        }
    }
}

/// The goods snapshot visible at position p on a board whose tiles are
/// given by m: the per-type sum of what the six neighbouring tiles
/// supply. A pure function of the board's tile map alone, so recomputing
/// it without an intervening mutation yields an identical snapshot, and
/// no iteration order can change it.
pub open spec fn spec_goods(p: Position, m: Map<Position, Structure>) -> Goods {
    partial_goods(p, m, 6)
}

/// Each neighbour supplies at most one of each good, so the partial sums
/// stay at or below the number of neighbours taken.
proof fn lemma_partial_goods_bound(p: Position, m: Map<Position, Structure>, k: int)
    requires
        0 <= k,
    ensures
        partial_goods(p, m, k).wood <= k,
        partial_goods(p, m, k).stone <= k,
    decreases k,
{
    if k > 0 {
        lemma_partial_goods_bound(p, m, k - 1);
    }
}

/// Goods computation is idempotent: `compute_goods` promises a result
/// equal to `spec_goods` of its inputs alone, so any two snapshots taken
/// at the same position with no intervening board mutation are equal.
pub proof fn lemma_goods_idempotent(
    p: Position,
    m: Map<Position, Structure>,
    g1: Goods,
    g2: Goods,
)
    requires
        g1 == spec_goods(p, m),
        g2 == spec_goods(p, m),
    ensures
        g1 == g2,
{
}

/// Computes the goods snapshot for a position: the per-type sum of the
/// goods supplied by the structures on its six neighbouring tiles. The
/// position itself need not hold a tile; with no occupied neighbours the
/// snapshot is zero. Reads the board only.
pub fn compute_goods(position: Position, board: &Board) -> (g: Goods)
    requires
        board.wf(),
        position.neighbors_in_range(),
    ensures
        g == spec_goods(position, board.tile_map()),
{
    let mut g = Goods::none();
    let mut k: usize = 0;
    while k < 6
        invariant
            k <= 6,
            board.wf(),
            position.neighbors_in_range(),
            g == partial_goods(position, board.tile_map(), k as int),
        decreases 6 - k,
    {
        let n = position.neighbor(k);
        match board.get_tile(n) {
            Some(tile) => {
                proof {
                    lemma_partial_goods_bound(position, board.tile_map(), k as int);
                }
                g = g.add(tile.structure.supplies());
            },
            None => {},
        }
        k = k + 1;
    }
    g
}

} // verus!
