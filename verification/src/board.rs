use vstd::prelude::*;

use crate::position::Position;
use crate::structures::Structure;

verus! {

/// A board cell's occupancy record: one Position together with the
/// Structure currently occupying it. A tile exists at a position exactly
/// when the board's map contains that key.
#[derive(PartialEq, Eq, Structural, Clone, Copy, Debug)]
pub struct Tile {
    pub position: Position,
    pub structure: Structure,
}

/// The two ways a board mutation can be refused. Both indicate stale
/// intent in the caller and leave the board unchanged.
#[derive(PartialEq, Eq, Structural, Clone, Copy, Debug)]
pub enum BoardError {
    /// `place` was asked to overwrite a position that already has a tile.
    PositionOccupied,
    /// `replace_structure` was asked to upgrade a position with no tile.
    NoTileAtPosition,
}

/// The map a sequence of tiles denotes: each tile's position maps to its
/// structure, later entries shadowing earlier ones (with distinct
/// positions nothing is shadowed).
pub open spec fn map_of(tiles: Seq<Tile>) -> Map<Position, Structure>
    decreases tiles.len(),
{
    if tiles.len() == 0 {
        Map::empty()
    } else {
        map_of(tiles.drop_last()).insert(tiles.last().position, tiles.last().structure)
    }
}

/// No two tiles of the sequence share a position.
pub open spec fn distinct_positions(tiles: Seq<Tile>) -> bool {
    forall|i: int, j: int|
        0 <= i < j < tiles.len() ==> tiles[i].position != tiles[j].position
}

/// A key is in the denoted map exactly when some tile has that position.
proof fn lemma_map_of_contains(tiles: Seq<Tile>, p: Position)
    ensures
        map_of(tiles).contains_key(p) <==> exists|i: int|
            0 <= i < tiles.len() && tiles[i].position == p,
    decreases tiles.len(),
{
    if tiles.len() > 0 {
        lemma_map_of_contains(tiles.drop_last(), p);
        if tiles.last().position == p {
            assert(tiles[tiles.len() - 1].position == p);
        } else if map_of(tiles).contains_key(p) {
            let i = choose|i: int| 0 <= i < tiles.drop_last().len() && tiles.drop_last()[i].position == p;
            assert(tiles[i].position == p);
        } else if exists|i: int| 0 <= i < tiles.len() && tiles[i].position == p {
            let i = choose|i: int| 0 <= i < tiles.len() && tiles[i].position == p;
            assert(tiles.drop_last()[i].position == p);
        }
    }
}

/// With distinct positions, the tile at index i gives the map's value at
/// its position.
proof fn lemma_map_of_get(tiles: Seq<Tile>, i: int)
    requires
        distinct_positions(tiles),
        0 <= i < tiles.len(),
    ensures
        map_of(tiles).contains_key(tiles[i].position),
        map_of(tiles)[tiles[i].position] == tiles[i].structure,
    decreases tiles.len(),
{
    if i < tiles.len() - 1 {
        assert(distinct_positions(tiles.drop_last()));
        lemma_map_of_get(tiles.drop_last(), i);
        assert(tiles[i].position != tiles.last().position);
    }
}

/// Appending a tile inserts its binding into the denoted map.
proof fn lemma_map_of_push(tiles: Seq<Tile>, t: Tile)
    ensures
        map_of(tiles.push(t)) == map_of(tiles).insert(t.position, t.structure),
{
    assert(tiles.push(t).drop_last() =~= tiles);
}

/// Overwriting the structure of the tile at index i, keeping its
/// position, turns the denoted map into an insert at that position.
proof fn lemma_map_of_update(tiles: Seq<Tile>, i: int, t: Tile)
    requires
        distinct_positions(tiles),
        0 <= i < tiles.len(),
        t.position == tiles[i].position,
    ensures
        map_of(tiles.update(i, t)) =~= map_of(tiles).insert(t.position, t.structure),
    decreases tiles.len(),
{
    let updated = tiles.update(i, t);
    if i == tiles.len() - 1 {
        assert(updated.drop_last() =~= tiles.drop_last());
        assert(updated.last() == t);
    } else {
        assert(distinct_positions(tiles.drop_last()));
        lemma_map_of_update(tiles.drop_last(), i, t);
        assert(updated.drop_last() =~= tiles.drop_last().update(i, t));
        assert(updated.last() == tiles.last());
        assert(tiles.last().position != t.position);
    }
}

/// A position never placed holds no tile: a fresh board's map contains
/// no key at all, and placing at any other position q cannot add the key
/// p. By `get_tile`'s contract a lookup at such a position returns
/// nothing, so a trigger there takes the no-tile branch.
pub proof fn lemma_never_placed_stays_unoccupied(
    m: Map<Position, Structure>,
    p: Position,
    q: Position,
    s: Structure,
)
    requires
        q != p,
    ensures
        !Map::<Position, Structure>::empty().contains_key(p),
        !m.contains_key(p) ==> !m.insert(q, s).contains_key(p),
{
}

/// Placing a structure s at a position p and immediately looking p up
/// yields a tile holding exactly s: after `place`'s insert the map binds
/// p to s, and `get_tile` returns that binding.
pub proof fn lemma_place_then_get_tile(m: Map<Position, Structure>, p: Position, s: Structure)
    ensures
        m.insert(p, s).contains_key(p),
        m.insert(p, s)[p] == s,
{
}

/// The pending queue is FIFO: enqueuing x keeps the head (the next
/// dequeue) of a non-empty queue unchanged, makes x the head only when
/// the queue was empty, and never reorders what follows the head. So
/// structures leave the queue exactly in the order they entered it.
pub proof fn lemma_queue_fifo(q: Seq<Structure>, x: Structure)
    ensures
        q.push(x).len() > 0,
        q.push(x).first() == (if q.len() == 0 {
            x
        } else {
            q.first()
        }),
        q.push(x).drop_first() =~= (if q.len() == 0 {
            Seq::<Structure>::empty()
        } else {
            q.drop_first().push(x)
        }),
{
}

/// The board: the single source of truth. Maps positions to tiles (at
/// most one tile per position) and holds the FIFO queue of structures
/// awaiting first placement. Mutated only through its own methods and
/// the command objects built on them.
pub struct Board {
    tiles: Vec<Tile>,
    queue: Vec<Structure>,
}

impl Board {
    /// The map from occupied positions to the structures placed there.
    pub closed spec fn tile_map(self) -> Map<Position, Structure> {
        map_of(self.tiles@)
    }

    /// The pending-placement queue, head first.
    pub closed spec fn pending(self) -> Seq<Structure> {
        self.queue@
    }

    /// The board's invariant: at most one tile per position.
    pub closed spec fn wf(self) -> bool {
        distinct_positions(self.tiles@)
    }

    /// An empty board: no tiles, nothing pending.
    pub fn new() -> (b: Board)
        ensures
            b.wf(),
            b.tile_map() == Map::<Position, Structure>::empty(),
            b.pending() == Seq::<Structure>::empty(),
    {
        Board { tiles: Vec::new(), queue: Vec::new() }
    }

    /// The index of the tile at the given position, if any.
    fn find_index(&self, position: Position) -> (r: Option<usize>)
        ensures
            match r {
                Some(i) => i < self.tiles@.len() && self.tiles@[i as int].position == position,
                None => forall|j: int|
                    0 <= j < self.tiles@.len() ==> self.tiles@[j].position != position,
            },
    {
        let mut k: usize = 0;
        while k < self.tiles.len()
            invariant
                k <= self.tiles@.len(),
                forall|j: int| 0 <= j < k ==> self.tiles@[j].position != position,
            decreases self.tiles@.len() - k,
        {
            if self.tiles[k].position == position {
                return Some(k);
            }
            k = k + 1;
        }
        None
    }

    /// Looks up the tile at a position; returns nothing when the
    /// position was never placed (or its placement was never committed).
    pub fn get_tile(&self, position: Position) -> (r: Option<&Tile>)
        requires
            self.wf(),
        ensures
            match r {
                Some(t) => self.tile_map().contains_key(position) && t.position == position
                    && t.structure == self.tile_map()[position],
                None => !self.tile_map().contains_key(position),
            },
    {
        proof {
            lemma_map_of_contains(self.tiles@, position);
        }
        match self.find_index(position) {
            Some(i) => {
                proof {
                    lemma_map_of_get(self.tiles@, i as int);
                }
                Some(&self.tiles[i])
            },
            None => None,
        }
    }

    /// Places a structure on an empty position as a fresh tile; refuses
    /// with `PositionOccupied`, changing nothing, when a tile is already
    /// there. The queue is untouched either way.
    pub fn place(&mut self, position: Position, structure: Structure) -> (r: Result<
        (),
        BoardError,
    >)
        requires
            old(self).wf(),
        ensures
            final(self).wf(),
            old(self).tile_map().contains_key(position) ==> r
                == Err::<(), BoardError>(BoardError::PositionOccupied)
                && *final(self) == *old(self),
            !old(self).tile_map().contains_key(position) ==> r == Ok::<(), BoardError>(())
                && final(self).tile_map() == old(self).tile_map().insert(position, structure)
                && final(self).pending() == old(self).pending(),
    {
        proof {
            lemma_map_of_contains(self.tiles@, position);
        }
        match self.find_index(position) {
            Some(i) => {
                proof {
                    lemma_map_of_get(self.tiles@, i as int);
                }
                Err(BoardError::PositionOccupied)
            },
            None => {
                let t = Tile { position, structure };
                proof {
                    lemma_map_of_push(self.tiles@, t);
                    assert(distinct_positions(self.tiles@.push(t)));
                }
                self.tiles.push(t);
                Ok(())
            },
        }
    }

    /// Overwrites the structure of the tile at an occupied position,
    /// keeping the tile (and its position) in place; refuses with
    /// `NoTileAtPosition`, changing nothing, when the position is empty.
    pub fn replace_structure(&mut self, position: Position, structure: Structure) -> (r: Result<
        (),
        BoardError,
    >)
        requires
            old(self).wf(),
        ensures
            final(self).wf(),
            !old(self).tile_map().contains_key(position) ==> r
                == Err::<(), BoardError>(BoardError::NoTileAtPosition)
                && *final(self) == *old(self),
            old(self).tile_map().contains_key(position) ==> r == Ok::<(), BoardError>(())
                && final(self).tile_map() == old(self).tile_map().insert(position, structure)
                && final(self).pending() == old(self).pending(),
    {
        proof {
            lemma_map_of_contains(self.tiles@, position);
        }
        match self.find_index(position) {
            Some(i) => {
                let t = Tile { position, structure };
                proof {
                    lemma_map_of_get(self.tiles@, i as int);
                    lemma_map_of_update(self.tiles@, i as int, t);
                    assert(distinct_positions(self.tiles@.update(i as int, t)));
                }
                self.tiles[i] = t;
                Ok(())
            },
            None => Err(BoardError::NoTileAtPosition),
        }
    }

    /// Appends a structure to the back of the pending queue.
    pub fn enqueue_pending(&mut self, structure: Structure)
        requires
            old(self).wf(),
        ensures
            final(self).wf(),
            final(self).tile_map() == old(self).tile_map(),
            final(self).pending() == old(self).pending().push(structure),
    {
        self.queue.push(structure);
    }

    /// Removes and returns the head of the pending queue; returns
    /// nothing when the queue is empty. Consumption is strictly FIFO.
    pub fn dequeue_pending(&mut self) -> (r: Option<Structure>)
        requires
            old(self).wf(),
        ensures
            final(self).wf(),
            final(self).tile_map() == old(self).tile_map(),
            old(self).pending().len() == 0 ==> r == Option::<Structure>::None
                && *final(self) == *old(self),
            old(self).pending().len() > 0 ==> r == Some(old(self).pending()[0])
                && final(self).pending() == old(self).pending().drop_first(),
    {
        if self.queue.len() == 0 {
            None
        } else {
            let s = self.queue.remove(0);
            proof {
                assert(old(self).queue@.remove(0) =~= old(self).queue@.drop_first());
            }
            Some(s)
        }
    }

    /// How many structures await placement.
    pub fn pending_len(&self) -> (n: usize)
        ensures
            n == self.pending().len(),
    {
        self.queue.len()
    }

    /// The display names of the pending structures, head first, for a
    /// queue-preview panel.
    pub fn pending_names(&self) -> (names: Vec<String>)
        ensures
            names@.len() == self.pending().len(),
            forall|i: int|
                0 <= i < names@.len() ==> names@[i]@ == self.pending()[i].spec_name(),
    {
        let mut names: Vec<String> = Vec::new();
        let mut k: usize = 0;
        while k < self.queue.len()
            invariant
                k <= self.queue@.len(),
                names@.len() == k,
                forall|i: int| 0 <= i < k ==> names@[i]@ == self.queue@[i].spec_name(),
            decreases self.queue@.len() - k,
        {
            names.push(self.queue[k].name().to_owned());
            k = k + 1;
        }
        names
    }
}

} // verus!
