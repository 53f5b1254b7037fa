use vstd::prelude::*;

use crate::board::Board;
use crate::board::BoardError;
use crate::position::Position;
use crate::structures::Structure;

verus! {

/// Command: take the head of the board's pending queue and place it as a
/// fresh tile at a position. An empty queue is a valid no-op; an occupied
/// position refuses the whole attempt and consumes nothing.
pub struct InsertTile {
    pub position: Position,
}

impl InsertTile {
    /// Applies the placement atomically: either the queue's head becomes
    /// a new tile at the position and leaves the queue, or the board is
    /// unchanged.
    pub fn apply(self, board: &mut Board) -> (r: Result<(), BoardError>)
        requires
            old(board).wf(),
        ensures
            final(board).wf(),
            old(board).tile_map().contains_key(self.position) ==> r
                == Err::<(), BoardError>(BoardError::PositionOccupied)
                && *final(board) == *old(board),
            !old(board).tile_map().contains_key(self.position)
                && old(board).pending().len() == 0 ==> r == Ok::<(), BoardError>(())
                && *final(board) == *old(board),
            !old(board).tile_map().contains_key(self.position)
                && old(board).pending().len() > 0 ==> r == Ok::<(), BoardError>(())
                && final(board).tile_map() == old(board).tile_map().insert(
                self.position,
                old(board).pending()[0],
            ) && final(board).pending() == old(board).pending().drop_first(),
    {
        if board.get_tile(self.position).is_some() {
            return Err(BoardError::PositionOccupied);
        }
        match board.dequeue_pending() {
            Some(structure) => board.place(self.position, structure),
            None => Ok(()),
        }
    }
}

/// Command: swap the structure inside the tile at a position, the one
/// sanctioned path for an upgrade. A position without a tile refuses the
/// swap and mutates nothing.
pub struct TileUpgrade {
    pub position: Position,
    pub structure: Structure,
}

impl TileUpgrade {
    /// Applies the upgrade atomically: either the tile at the position
    /// now holds the new structure, or the board is unchanged.
    pub fn apply(self, board: &mut Board) -> (r: Result<(), BoardError>)
        requires
            old(board).wf(),
        ensures
            final(board).wf(),
            !old(board).tile_map().contains_key(self.position) ==> r
                == Err::<(), BoardError>(BoardError::NoTileAtPosition)
                && *final(board) == *old(board),
            old(board).tile_map().contains_key(self.position) ==> r == Ok::<(), BoardError>(())
                && final(board).tile_map() == old(board).tile_map().insert(
                self.position,
                self.structure,
            ) && final(board).pending() == old(board).pending(),
    {
        board.replace_structure(self.position, self.structure)
    }
}

} // verus!
