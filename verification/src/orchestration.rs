use vstd::prelude::*;

use crate::board::Board;
use crate::commands::InsertTile;
use crate::commands::TileUpgrade;
use crate::position::Position;
use crate::resolver::compute_goods;
use crate::resolver::spec_goods;
use crate::structures::Structure;

verus! {

/// A transient pairing of display label and owned candidate structure,
/// handed to the external selection-menu widget and consumed when the
/// user picks it.
pub struct MenuOption {
    pub label: String,
    pub structure: Structure,
}

/// One close notification from the selection-menu widget: whether the
/// user confirmed, and the structure payload still present in the chosen
/// option (absent on cancel, or when an earlier consumer took it).
#[derive(Clone, Copy, Debug)]
pub struct MenuCloseEvent {
    pub confirmed: bool,
    pub selection: Option<Structure>,
}

/// The structure of the first confirmed close event whose payload is
/// still present, scanning the cycle in order; nothing when no event of
/// the cycle can act. Cancels and confirmed events with a spent payload
/// are passed over, never letting them shadow a later actionable event.
pub open spec fn first_confirmed_selection(events: Seq<MenuCloseEvent>) -> Option<Structure>
    decreases events.len(),
{
    if events.len() == 0 {
        Option::None
    } else if events[0].confirmed && events[0].selection is Some {
        events[0].selection
    } else {
        first_confirmed_selection(events.drop_first())
    }
}

/// When no event before index k is actionable, the first actionable
/// selection of the whole cycle is the one at k (when k is actionable),
/// and a cycle with no actionable event at all selects nothing.
proof fn lemma_first_confirmed_selection(events: Seq<MenuCloseEvent>, k: int)
    requires
        0 <= k <= events.len(),
        forall|i: int| 0 <= i < k ==> !(events[i].confirmed && events[i].selection is Some),
    ensures
        k < events.len() && events[k].confirmed && events[k].selection is Some
            ==> first_confirmed_selection(events) == events[k].selection,
        k == events.len() ==> first_confirmed_selection(events) is None,
    decreases events.len(),
{
    if events.len() > 0 && k > 0 {
        let rest = events.drop_first();
        assert(!(events[0].confirmed && events[0].selection is Some));
        assert forall|i: int| 0 <= i < k - 1 implies !(rest[i].confirmed
            && rest[i].selection is Some) by {
            assert(rest[i] == events[i + 1]);
        }
        lemma_first_confirmed_selection(rest, k - 1);
        if k < events.len() {
            assert(rest[k - 1] == events[k]);
        }
    }
}

/// The selection session's state: no menu open, or a menu open for the
/// upgrade candidates of the tile at one position.
#[derive(PartialEq, Eq, Structural, Clone, Copy, Debug)]
pub enum SelectionState {
    Idle,
    Awaiting { position: Position },
}

/// The upgrade candidates offered at position p of a board with tile map
/// m: one `spec_next` step of the structure at p, under the goods its
/// neighbours supply. Meaningful only when m contains p.
pub open spec fn candidates_at(m: Map<Position, Structure>, p: Position) -> Seq<Structure> {
    m[p].spec_next(spec_goods(p, m))
}

/// The menu options mirror the candidate structures one for one, each
/// labelled with its structure's display name.
pub open spec fn options_match(opts: Seq<MenuOption>, cands: Seq<Structure>) -> bool {
    &&& opts.len() == cands.len()
    &&& forall|i: int|
        0 <= i < cands.len() ==> (#[trigger] opts[i]).structure == cands[i] && opts[i].label@
            == cands[i].spec_name()
}

/// Drives the trigger / menu state machine over a board. At most one
/// selection session is active at a time; a trigger while a menu is open
/// is suppressed, and every board mutation happens inside exactly one
/// transition.
pub struct Session {
    state: SelectionState,
}

impl Session {
    /// The session's current state.
    pub closed spec fn spec_state(self) -> SelectionState {
        self.state
    }

    /// A fresh session with no menu open.
    pub fn new() -> (s: Session)
        ensures
            s.spec_state() == SelectionState::Idle,
    {
        Session { state: SelectionState::Idle }
    }

    /// Handles one trigger at a position. While a menu is open the
    /// trigger is ignored. Otherwise: an empty position takes the head
    /// of the pending queue as a fresh tile (no-op when the queue is
    /// empty); an occupied position computes its goods and the tile's
    /// upgrade candidates, and when there are any, returns them as menu
    /// options and opens a selection session. The board changes only on
    /// the empty-position placement path.
    pub fn on_trigger(&mut self, board: &mut Board, position: Position) -> (menu: Option<
        Vec<MenuOption>,
    >)
        requires
            old(board).wf(),
            position.neighbors_in_range(),
        ensures
            final(board).wf(),
            old(self).spec_state() is Awaiting ==> *final(board) == *old(board)
                && *final(self) == *old(self) && menu is None,
            old(self).spec_state() is Idle && !old(board).tile_map().contains_key(position)
                ==> final(self).spec_state() is Idle && menu is None && (if old(
                board,
            ).pending().len() == 0 {
                *final(board) == *old(board)
            } else {
                final(board).tile_map() == old(board).tile_map().insert(
                    position,
                    old(board).pending()[0],
                ) && final(board).pending() == old(board).pending().drop_first()
            }),
            old(self).spec_state() is Idle && old(board).tile_map().contains_key(position)
                ==> *final(board) == *old(board) && (if candidates_at(
                old(board).tile_map(),
                position,
            ).len() == 0 {
                final(self).spec_state() is Idle && menu is None
            } else {
                final(self).spec_state() == (SelectionState::Awaiting { position })
                    && menu is Some && options_match(
                    menu->0@,
                    candidates_at(old(board).tile_map(), position),
                )
            }),
    {
        match self.state {
            SelectionState::Awaiting { .. } => None,
            SelectionState::Idle => {
                let tile = board.get_tile(position);
                match tile {
                    None => {
                        let cmd = InsertTile { position };
                        let _placed = cmd.apply(board);
                        None
                    },
                    Some(tile) => {
                        let structure = tile.structure;
                        let goods = compute_goods(position, board);
                        let candidates = structure.next_candidates(&goods);
                        if candidates.len() == 0 {
                            None
                        } else {
                            let mut opts: Vec<MenuOption> = Vec::new();
                            let mut k: usize = 0;
                            while k < candidates.len()
                                invariant
                                    k <= candidates@.len(),
                                    opts@.len() == k,
                                    forall|i: int|
                                        0 <= i < k ==> opts@[i].structure == candidates@[i]
                                            && opts@[i].label@ == candidates@[i].spec_name(),
                                decreases candidates@.len() - k,
                            {
                                let s = candidates[k];
                                opts.push(MenuOption { label: s.name().to_owned(), structure: s });
                                k = k + 1;
                            }
                            self.state = SelectionState::Awaiting { position };
                            Some(opts)
                        }
                    },
                }
            },
        }
    }

    /// Handles the close of the selection menu. Only a confirmed close
    /// that returns a chosen structure upgrades the tile at the session's
    /// position; a cancel, a close without a payload, or a stale session
    /// whose position has meanwhile lost its tile leaves the board
    /// unchanged. Either way the session returns to idle.
    pub fn on_menu_closed(
        &mut self,
        board: &mut Board,
        confirmed: bool,
        selection: Option<Structure>,
    )
        requires
            old(board).wf(),
        ensures
            final(board).wf(),
            final(self).spec_state() is Idle,
            old(self).spec_state() is Idle ==> *final(board) == *old(board),
            old(self).spec_state() is Awaiting && confirmed && selection is Some
                && old(board).tile_map().contains_key(old(self).spec_state()->position)
                ==> final(board).tile_map() == old(board).tile_map().insert(
                old(self).spec_state()->position,
                selection->0,
            ) && final(board).pending() == old(board).pending(),
            old(self).spec_state() is Awaiting && !(confirmed && selection is Some
                && old(board).tile_map().contains_key(old(self).spec_state()->position))
                ==> *final(board) == *old(board),
    {
        match self.state {
            SelectionState::Idle => {},
            SelectionState::Awaiting { position } => {
                if confirmed {
                    match selection {
                        Some(structure) => {
                            let cmd = TileUpgrade { position, structure };
                            let _applied = cmd.apply(board);
                        },
                        None => {},
                    }
                }
            },
        }
        self.state = SelectionState::Idle;
    }

    /// Drains one cycle's menu-close events. At most one upgrade is
    /// applied per cycle: the first confirmed event whose payload is
    /// still present wins, cancels and spent confirms before it merely
    /// reset the widget, and everything after the winner is discarded.
    /// Any non-empty cycle closes the session; an empty cycle leaves the
    /// menu open and changes nothing.
    pub fn on_menu_close_cycle(&mut self, board: &mut Board, events: &Vec<MenuCloseEvent>)
        requires
            old(board).wf(),
        ensures
            final(board).wf(),
            events@.len() == 0 ==> *final(self) == *old(self) && *final(board) == *old(board),
            events@.len() > 0 ==> final(self).spec_state() is Idle,
            old(self).spec_state() is Idle ==> *final(board) == *old(board),
            old(self).spec_state() is Awaiting && first_confirmed_selection(events@) is Some
                && old(board).tile_map().contains_key(old(self).spec_state()->position)
                ==> final(board).tile_map() == old(board).tile_map().insert(
                old(self).spec_state()->position,
                first_confirmed_selection(events@)->0,
            ) && final(board).pending() == old(board).pending(),
            old(self).spec_state() is Awaiting && !(first_confirmed_selection(events@) is Some
                && old(board).tile_map().contains_key(old(self).spec_state()->position))
                ==> *final(board) == *old(board),
    {
        if events.len() == 0 {
            return ;
        }
        let mut winner: Option<Structure> = None;
        let mut k: usize = 0;
        while k < events.len()
            invariant
                k <= events@.len(),
                match winner {
                    Some(s) => first_confirmed_selection(events@) == Some(s),
                    None => forall|i: int|
                        0 <= i < k ==> !(events@[i].confirmed && events@[i].selection is Some),
                },
            decreases events@.len() - k,
        {
            if winner.is_none() && events[k].confirmed {
                match events[k].selection {
                    Some(s) => {
                        proof {
                            lemma_first_confirmed_selection(events@, k as int);
                        }
                        winner = Some(s);
                    },
                    None => {},
                }
            }
            k = k + 1;
        }
        proof {
            if winner is None {
                lemma_first_confirmed_selection(events@, events@.len() as int);
            }
        }
        let confirmed = winner.is_some();
        self.on_menu_closed(board, confirmed, winner);
    }
}

} // verus!
