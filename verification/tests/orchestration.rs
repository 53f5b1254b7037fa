use hexboard::board::Board;
use hexboard::board::BoardError;
use hexboard::commands::InsertTile;
use hexboard::commands::TileUpgrade;
use hexboard::position::Position;
use hexboard::structures::Structure;
use hexboard::orchestration::MenuCloseEvent;
use hexboard::orchestration::Session;

fn cancel() -> MenuCloseEvent {
    MenuCloseEvent { confirmed: false, selection: None }
}

fn confirm(selection: Option<Structure>) -> MenuCloseEvent {
    MenuCloseEvent { confirmed: true, selection }
}

fn pos(q: i64, r: i64) -> Position {
    Position { q, r }
}

/// A board with a house at the origin and two forests among its
/// neighbours, so the house sees goods of two wood.
fn house_with_two_wood() -> (Board, Position) {
    let mut board = Board::new();
    let p = pos(0, 0);
    board.place(p, Structure::House).unwrap();
    board.place(pos(1, 0), Structure::Forest).unwrap();
    board.place(pos(1, -1), Structure::Forest).unwrap();
    (board, p)
}

#[test]
fn trigger_on_empty_position_places_from_queue() {
    let mut board = Board::new();
    board.enqueue_pending(Structure::Road);
    let mut session = Session::new();
    let p = pos(0, 0);
    let menu = session.on_trigger(&mut board, p);
    assert!(menu.is_none());
    let tile = board.get_tile(p).unwrap();
    assert_eq!(tile.position, p);
    assert_eq!(tile.structure, Structure::Road);
    assert_eq!(board.pending_len(), 0);
}

#[test]
fn trigger_on_empty_position_with_empty_queue_is_noop() {
    let mut board = Board::new();
    let mut session = Session::new();
    let p = pos(5, 5);
    let menu = session.on_trigger(&mut board, p);
    assert!(menu.is_none());
    assert!(board.get_tile(p).is_none());
    assert_eq!(board.pending_len(), 0);
}

#[test]
fn trigger_on_terminal_structure_opens_no_menu() {
    let mut board = Board::new();
    let p = pos(0, 0);
    board.place(p, Structure::Road).unwrap();
    board.enqueue_pending(Structure::House);
    let mut session = Session::new();
    let menu = session.on_trigger(&mut board, p);
    assert!(menu.is_none());
    assert_eq!(board.get_tile(p).unwrap().structure, Structure::Road);
    assert_eq!(board.pending_len(), 1);
}

#[test]
fn trigger_on_house_offers_cottage() {
    let (mut board, p) = house_with_two_wood();
    let mut session = Session::new();
    let menu = session.on_trigger(&mut board, p).unwrap();
    assert_eq!(menu.len(), 1);
    assert_eq!(menu[0].label, "Cottage");
    assert_eq!(menu[0].structure, Structure::Cottage);
    // Opening the menu mutates nothing.
    assert_eq!(board.get_tile(p).unwrap().structure, Structure::House);
}

#[test]
fn confirm_replaces_structure() {
    let (mut board, p) = house_with_two_wood();
    let mut session = Session::new();
    let menu = session.on_trigger(&mut board, p).unwrap();
    let chosen = menu.into_iter().next().unwrap().structure;
    session.on_menu_closed(&mut board, true, Some(chosen));
    assert_eq!(board.get_tile(p).unwrap().structure, Structure::Cottage);
}

#[test]
fn cancel_preserves_structure() {
    let (mut board, p) = house_with_two_wood();
    let mut session = Session::new();
    let menu = session.on_trigger(&mut board, p);
    assert!(menu.is_some());
    session.on_menu_closed(&mut board, false, None);
    assert_eq!(board.get_tile(p).unwrap().structure, Structure::House);
}

#[test]
fn confirm_without_payload_preserves_structure() {
    let (mut board, p) = house_with_two_wood();
    let mut session = Session::new();
    session.on_trigger(&mut board, p);
    session.on_menu_closed(&mut board, true, None);
    assert_eq!(board.get_tile(p).unwrap().structure, Structure::House);
}

#[test]
fn trigger_while_awaiting_is_ignored() {
    let (mut board, p) = house_with_two_wood();
    let mut session = Session::new();
    session.on_trigger(&mut board, p);
    // A second trigger while the menu is open must not place or mutate.
    board.enqueue_pending(Structure::Road);
    let empty = pos(9, 9);
    let menu = session.on_trigger(&mut board, empty);
    assert!(menu.is_none());
    assert!(board.get_tile(empty).is_none());
    assert_eq!(board.pending_len(), 1);
    // The open session still resolves normally afterwards.
    session.on_menu_closed(&mut board, true, Some(Structure::Cottage));
    assert_eq!(board.get_tile(p).unwrap().structure, Structure::Cottage);
}

#[test]
fn stale_confirm_without_tile_mutates_nothing() {
    let (mut board, p) = house_with_two_wood();
    let mut session = Session::new();
    session.on_trigger(&mut board, p);
    // The confirmation arrives against a board whose position is empty.
    let mut other = Board::new();
    session.on_menu_closed(&mut other, true, Some(Structure::Cottage));
    assert!(other.get_tile(p).is_none());
}

#[test]
fn close_while_idle_preserves_board() {
    let mut board = Board::new();
    board.place(pos(0, 0), Structure::Road).unwrap();
    let mut session = Session::new();
    session.on_menu_closed(&mut board, true, Some(Structure::Mansion));
    assert_eq!(board.get_tile(pos(0, 0)).unwrap().structure, Structure::Road);
    assert!(board.get_tile(pos(1, 0)).is_none());
}

#[test]
fn cancel_then_confirm_in_one_cycle_applies_upgrade() {
    let (mut board, p) = house_with_two_wood();
    let mut session = Session::new();
    session.on_trigger(&mut board, p);
    // A stale cancel sits in the buffer ahead of the real confirmation:
    // the first confirmed event with a payload still wins the cycle.
    let events = vec![cancel(), confirm(Some(Structure::Cottage))];
    session.on_menu_close_cycle(&mut board, &events);
    assert_eq!(board.get_tile(p).unwrap().structure, Structure::Cottage);
}

#[test]
fn spent_confirm_does_not_shadow_later_confirm() {
    let (mut board, p) = house_with_two_wood();
    let mut session = Session::new();
    session.on_trigger(&mut board, p);
    // A confirmed event whose payload was already taken is skipped.
    let events = vec![confirm(None), confirm(Some(Structure::Cottage))];
    session.on_menu_close_cycle(&mut board, &events);
    assert_eq!(board.get_tile(p).unwrap().structure, Structure::Cottage);
}

#[test]
fn only_first_confirmed_event_of_cycle_acts() {
    let (mut board, p) = house_with_two_wood();
    let mut session = Session::new();
    session.on_trigger(&mut board, p);
    let events = vec![
        confirm(Some(Structure::Cottage)),
        confirm(Some(Structure::Workshop)),
    ];
    session.on_menu_close_cycle(&mut board, &events);
    assert_eq!(board.get_tile(p).unwrap().structure, Structure::Cottage);
}

#[test]
fn cycle_of_cancels_closes_menu_without_mutation() {
    let (mut board, p) = house_with_two_wood();
    let mut session = Session::new();
    session.on_trigger(&mut board, p);
    let events = vec![cancel(), cancel()];
    session.on_menu_close_cycle(&mut board, &events);
    assert_eq!(board.get_tile(p).unwrap().structure, Structure::House);
    // The session is idle again: a new trigger reopens the menu.
    let menu = session.on_trigger(&mut board, p);
    assert!(menu.is_some());
}

#[test]
fn empty_cycle_keeps_menu_open() {
    let (mut board, p) = house_with_two_wood();
    let mut session = Session::new();
    session.on_trigger(&mut board, p);
    let no_events: Vec<MenuCloseEvent> = Vec::new();
    session.on_menu_close_cycle(&mut board, &no_events);
    assert_eq!(board.get_tile(p).unwrap().structure, Structure::House);
    // The menu never closed: the confirmation of a later cycle still lands.
    let events = vec![confirm(Some(Structure::Cottage))];
    session.on_menu_close_cycle(&mut board, &events);
    assert_eq!(board.get_tile(p).unwrap().structure, Structure::Cottage);
}

#[test]
fn cycle_while_idle_mutates_nothing() {
    let mut board = Board::new();
    board.place(pos(0, 0), Structure::Road).unwrap();
    let mut session = Session::new();
    let events = vec![confirm(Some(Structure::Mansion))];
    session.on_menu_close_cycle(&mut board, &events);
    assert_eq!(board.get_tile(pos(0, 0)).unwrap().structure, Structure::Road);
}

#[test]
fn insert_tile_command_takes_queue_head() {
    let mut board = Board::new();
    board.enqueue_pending(Structure::Road);
    board.enqueue_pending(Structure::House);
    let p = pos(3, 3);
    let r = InsertTile { position: p }.apply(&mut board);
    assert_eq!(r, Ok(()));
    assert_eq!(board.get_tile(p).unwrap().structure, Structure::Road);
    assert_eq!(board.pending_len(), 1);
}

#[test]
fn insert_tile_command_refuses_occupied_and_keeps_queue() {
    let mut board = Board::new();
    let p = pos(3, 3);
    board.place(p, Structure::House).unwrap();
    board.enqueue_pending(Structure::Road);
    let r = InsertTile { position: p }.apply(&mut board);
    assert_eq!(r, Err(BoardError::PositionOccupied));
    assert_eq!(board.get_tile(p).unwrap().structure, Structure::House);
    assert_eq!(board.pending_len(), 1);
}

#[test]
fn insert_tile_command_with_empty_queue_is_noop() {
    let mut board = Board::new();
    let p = pos(3, 3);
    let r = InsertTile { position: p }.apply(&mut board);
    assert_eq!(r, Ok(()));
    assert!(board.get_tile(p).is_none());
}

#[test]
fn tile_upgrade_command_swaps_structure() {
    let mut board = Board::new();
    let p = pos(2, 2);
    board.place(p, Structure::House).unwrap();
    let r = TileUpgrade { position: p, structure: Structure::Cottage }.apply(&mut board);
    assert_eq!(r, Ok(()));
    assert_eq!(board.get_tile(p).unwrap().structure, Structure::Cottage);
    let r2 = TileUpgrade { position: pos(8, 8), structure: Structure::Road }.apply(&mut board);
    assert_eq!(r2, Err(BoardError::NoTileAtPosition));
    assert!(board.get_tile(pos(8, 8)).is_none());
}
