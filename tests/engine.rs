use chess_engine::chess::board::{Board, Piece};
use chess_engine::chess::board_space::BoardSpace;
use chess_engine::chess::loader::{load_definition, PieceDefinition};
use chess_engine::chess::movement::MovementVector;
use chess_engine::error::Error;
use std::rc::Rc;

const COLUMNS: [char; 8] = ['a', 'b', 'c', 'd', 'e', 'f', 'g', 'h'];

fn lines(text: &[&str]) -> Vec<String> {
    text.iter().map(|s| s.to_string()).collect()
}

fn rook_definition() -> Rc<PieceDefinition> {
    let text = lines(&[
        "start_name",
        "rook",
        "start_moves",
        "1 0 1",
        "-1 0 1",
        "0 1 1",
        "0 -1 1",
        "end_moves",
    ]);
    Rc::new(load_definition("rook.txt", &text).unwrap())
}

fn single_rule(dh: i32, dv: i32, mode: i32) -> Rc<PieceDefinition> {
    Rc::new(PieceDefinition {
        name: "probe".to_string(),
        moves: vec![MovementVector::from_parts(dh, dv, mode).unwrap()],
    })
}

fn marked(board: &Board) -> (Vec<(char, u32)>, Vec<(char, u32)>) {
    let mut moves = vec![];
    let mut kills = vec![];
    for row in 1..=8u32 {
        for &c in COLUMNS.iter() {
            let s = board.space_at(c, row).unwrap();
            if s.available_to_move {
                moves.push((c, row));
            }
            if s.available_to_kill {
                kills.push((c, row));
            }
        }
    }
    (moves, kills)
}

fn place(board: &mut Board, team: u32, def: &Rc<PieceDefinition>, c: char, row: u32) {
    board.place_piece(Piece::new(team, 0, 0, def.clone()), c, row).unwrap();
}

#[test]
fn rook_on_empty_board_reaches_fourteen_spaces() {
    let mut board = Board::new();
    let rook = rook_definition();
    place(&mut board, 0, &rook, 'd', 4);
    board.select_piece('d', 4).unwrap();
    let (moves, kills) = marked(&board);
    assert_eq!(moves.len(), 14);
    assert!(kills.is_empty());
    assert!(moves.contains(&('d', 8)));
    assert!(moves.contains(&('a', 4)));
    assert!(moves.contains(&('h', 4)));
    assert!(moves.contains(&('d', 1)));
    assert!(!moves.contains(&('d', 4)));
    assert!(!moves.contains(&('e', 5)));
}

#[test]
fn rook_stops_at_opposing_piece() {
    let mut board = Board::new();
    let rook = rook_definition();
    place(&mut board, 0, &rook, 'd', 4);
    place(&mut board, 1, &rook, 'd', 6);
    board.select_piece('d', 4).unwrap();
    let (moves, kills) = marked(&board);
    assert!(moves.contains(&('d', 5)));
    assert!(!moves.contains(&('d', 6)));
    assert!(!moves.contains(&('d', 7)));
    assert!(!moves.contains(&('d', 8)));
    assert_eq!(kills, vec![('d', 6)]);
    assert_eq!(moves.len(), 11);
}

#[test]
fn own_piece_blocks_without_capture() {
    let mut board = Board::new();
    let rook = rook_definition();
    place(&mut board, 0, &rook, 'd', 4);
    place(&mut board, 0, &rook, 'f', 4);
    board.select_piece('d', 4).unwrap();
    let (moves, kills) = marked(&board);
    assert!(moves.contains(&('e', 4)));
    assert!(!moves.contains(&('f', 4)));
    assert!(!moves.contains(&('g', 4)));
    assert!(kills.is_empty());
}

#[test]
fn malformed_movement_line_is_an_error() {
    let text = lines(&["start_name", "knight", "start_moves", "1 2 0", "a b c", "end_moves"]);
    match load_definition("knight.txt", &text) {
        Err(Error::MalformedMovementRule { resource, line, text }) => {
            assert_eq!(resource, "knight.txt");
            assert_eq!(line, 5);
            assert_eq!(text, "a b c");
        }
        _ => panic!("expected a malformed movement rule"),
    }
}

#[test]
fn loading_keeps_every_rule_in_order() {
    let text = lines(&[
        "# a knight",
        "",
        "start_name",
        "  knight  ",
        "start_moves",
        "1 2 0",
        "# comment inside",
        "-2 1 0",
        "2 -1 3 extra",
        "+1 -2 4",
        "end_moves",
        "9 9 9",
    ]);
    let d = load_definition("knight.txt", &text).unwrap();
    assert_eq!(d.name, "knight");
    assert_eq!(d.moves.len(), 4);
    assert_eq!(d.moves[0], MovementVector::from_parts(1, 2, 0).unwrap());
    assert_eq!(d.moves[1], MovementVector::from_parts(-2, 1, 0).unwrap());
    assert_eq!(d.moves[2], MovementVector::from_parts(2, -1, 3).unwrap());
    assert_eq!(d.moves[3], MovementVector::from_parts(1, -2, 4).unwrap());
}

#[test]
fn resource_without_sections_loads_empty() {
    let d = load_definition("x.txt", &lines(&["nothing", "here"])).unwrap();
    assert_eq!(d.name, "");
    assert!(d.moves.is_empty());
}

#[test]
fn short_line_bad_mode_and_overflow_are_malformed() {
    for bad in ["1 2", "1 2 6", "1 2 -1", "2147483648 0 0", "1 - 0"] {
        let text = lines(&["start_name", "p", "start_moves", bad, "end_moves"]);
        assert!(matches!(
            load_definition("p.txt", &text),
            Err(Error::MalformedMovementRule { line: 4, .. })
        ));
    }
    let text = lines(&["start_name", "p", "start_moves", "-2147483648 2147483647 5", "end_moves"]);
    let d = load_definition("p.txt", &text).unwrap();
    assert_eq!(d.moves[0].delta_horizontal, i32::MIN);
    assert_eq!(d.moves[0].delta_vertical, i32::MAX);
}

#[test]
fn mode_encoding() {
    let m = MovementVector::from_parts(0, 1, 0).unwrap();
    assert!(!m.sliding && m.can_move && m.can_capture);
    let m = MovementVector::from_parts(0, 1, 3).unwrap();
    assert!(m.sliding && m.can_move && !m.can_capture);
    let m = MovementVector::from_parts(0, 1, 4).unwrap();
    assert!(!m.sliding && !m.can_move && m.can_capture);
    assert!(MovementVector::from_parts(0, 1, 7).is_none());
}

#[test]
fn single_step_move_only_marks_one_empty_space() {
    let mut board = Board::new();
    let pawn = single_rule(0, 1, 2);
    place(&mut board, 0, &pawn, 'b', 2);
    board.select_piece('b', 2).unwrap();
    assert_eq!(marked(&board), (vec![('b', 3)], vec![]));

    place(&mut board, 1, &pawn, 'b', 3);
    board.select_piece('b', 2).unwrap();
    assert_eq!(marked(&board), (vec![], vec![]));

    place(&mut board, 0, &pawn, 'c', 8);
    board.select_piece('c', 8).unwrap();
    assert_eq!(marked(&board), (vec![], vec![]));
}

#[test]
fn capture_relocates_and_clears_flags() {
    let mut board = Board::new();
    let rook = rook_definition();
    place(&mut board, 0, &rook, 'd', 4);
    place(&mut board, 1, &rook, 'd', 6);
    board.select_piece('d', 4).unwrap();
    board.move_piece('d', 4, 'd', 6).unwrap();
    assert_eq!(marked(&board), (vec![], vec![]));
    let removed = board.remove_piece('d', 4).unwrap();
    assert!(removed.is_none());
    let moved = board.remove_piece('d', 6).unwrap().unwrap();
    assert_eq!(moved.team, 0);
    assert_eq!((moved.column, moved.row), (3, 5));
    assert!(board.selected.is_none());
}

#[test]
fn illegal_and_missing_moves_are_refused() {
    let mut board = Board::new();
    let rook = rook_definition();
    place(&mut board, 0, &rook, 'd', 4);
    assert_eq!(board.move_piece('d', 4, 'd', 5), Err(Error::IllegalMove));
    board.select_piece('d', 4).unwrap();
    assert_eq!(board.move_piece('d', 4, 'e', 5), Err(Error::IllegalMove));
    assert_eq!(board.move_piece('a', 1, 'a', 2), Err(Error::PieceNotFound));
    assert_eq!(board.move_piece('i', 1, 'a', 2), Err(Error::InvalidPosition));
    assert_eq!(board.select_piece('e', 5), Err(Error::PieceNotFound));
    assert_eq!(marked(&board), (vec![], vec![]));
    assert_eq!(board.select_piece('d', 9), Err(Error::InvalidPosition));
    assert!(board.space_at('z', 1).is_err());
    assert!(matches!(board.space_at('a', 0), Err(Error::InvalidPosition)));
}

#[test]
fn placing_on_occupied_space_is_refused() {
    let mut board = Board::new();
    let rook = rook_definition();
    place(&mut board, 0, &rook, 'a', 1);
    let r = board.place_piece(Piece::new(1, 0, 0, rook.clone()), 'a', 1);
    assert_eq!(r, Err(Error::Occupied));
    let r = board.place_piece(Piece::new(1, 0, 0, rook.clone()), 'a', 0);
    assert_eq!(r, Err(Error::InvalidPosition));
}

#[test]
fn clear_selection_resets_every_space() {
    let mut board = Board::new();
    let rook = rook_definition();
    place(&mut board, 0, &rook, 'h', 8);
    place(&mut board, 1, &rook, 'h', 2);
    board.select_piece('h', 8).unwrap();
    assert_ne!(marked(&board), (vec![], vec![]));
    board.clear_selection();
    for row in 1..=8u32 {
        for &c in COLUMNS.iter() {
            let s = board.space_at(c, row).unwrap();
            assert!(!s.available_to_move && !s.available_to_kill && !s.is_danger);
        }
    }
}

#[test]
fn board_space_bounds_and_reset() {
    assert!(matches!(BoardSpace::new('i', 1), Err(Error::InvalidPosition)));
    assert!(matches!(BoardSpace::new('a', 9), Err(Error::InvalidPosition)));
    let mut s = BoardSpace::new('c', 3).unwrap();
    assert_eq!((s.horz_position, s.vert_position), ('c', 3));
    s.available_to_move = true;
    s.is_danger = true;
    s.reset_status();
    s.reset_status();
    assert!(!s.available_to_move && !s.available_to_kill && !s.is_danger && s.is_active);
}

#[test]
fn board_space_coordinates() {
    let board = Board::new();
    let s = board.space_at('f', 7).unwrap();
    assert_eq!((s.horz_position, s.vert_position), ('f', 7));
}

#[test]
fn opposing_rook_threatens_its_lines() {
    let mut board = Board::new();
    let rook = rook_definition();
    place(&mut board, 0, &rook, 'd', 4);
    place(&mut board, 0, &rook, 'b', 8);
    place(&mut board, 1, &rook, 'd', 8);
    board.select_piece('d', 4).unwrap();
    let danger = |c: char, r: u32| board.space_at(c, r).unwrap().is_danger;
    assert!(danger('d', 7) && danger('d', 5) && danger('d', 4));
    assert!(!danger('d', 3));
    assert!(danger('e', 8) && danger('h', 8) && danger('c', 8) && danger('b', 8));
    assert!(!danger('a', 8));
    assert!(!danger('e', 4));
    assert!(!danger('d', 8));
}

#[test]
fn no_danger_without_opponents() {
    let mut board = Board::new();
    let rook = rook_definition();
    place(&mut board, 0, &rook, 'd', 4);
    place(&mut board, 0, &rook, 'a', 1);
    board.select_piece('d', 4).unwrap();
    for row in 1..=8u32 {
        for &c in COLUMNS.iter() {
            assert!(!board.space_at(c, row).unwrap().is_danger);
        }
    }
}

#[test]
fn unicode_blank_lines_and_padding_are_whitespace() {
    let plain = lines(&["start_name", "rook", "start_moves", "1 0 1", "end_moves"]);
    let padded = lines(&[
        "start_name",
        "\u{3000}",
        "\u{a0}rook\u{2003}",
        "\u{85}start_moves",
        "1\u{a0}0\u{202f}1",
        "\u{2028}",
        "end_moves\u{205f}",
    ]);
    let a = load_definition("rook.txt", &plain).unwrap();
    let b = load_definition("rook.txt", &padded).unwrap();
    assert_eq!(a.name, "rook");
    assert_eq!(b.name, "rook");
    assert_eq!(a.moves, b.moves);
    assert_eq!(b.moves, vec![MovementVector::from_parts(1, 0, 1).unwrap()]);
}
