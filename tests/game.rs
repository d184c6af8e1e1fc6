use chess_engine::chess::loader::load_definition;
use chess_engine::chess_game::board_space::{BoardSpace, Color};
use chess_engine::chess_game::old_piece_factory::{companion_image_path, PieceFactory};
use chess_engine::error::Error;
use chess_engine::events::{square_at, EventAction, InputEvent, WindowState};
use std::rc::Rc;

#[test]
fn image_path_replaces_text_extension() {
    assert_eq!(companion_image_path("pieces/rook.txt"), "pieces/rook.png");
    assert_eq!(companion_image_path("a.txt.txt"), "a.txt.png");
    assert_eq!(companion_image_path("rook.txt.bak"), "rook.txt.bak");
    assert_eq!(companion_image_path("rooktxt"), "rooktxt");
}

#[test]
fn factory_shares_definition() {
    let lines: Vec<String> = ["start_name", "pawn", "start_moves", "0 1 2", "end_moves"]
        .iter()
        .map(|s| s.to_string())
        .collect();
    let f = PieceFactory::new("pawn.txt", &lines, 7).unwrap();
    assert_eq!(f.definition.name, "pawn");
    assert_eq!(f.texture, 7);
    let a = f.build_piece(0, 1, 1);
    let b = f.build_piece(1, 2, 6);
    assert!(Rc::ptr_eq(&a.definition, &b.definition));
    assert_eq!((b.team, b.column, b.row), (1, 2, 6));
    let bad: Vec<String> = vec!["start_name".into(), "x".into(), "start_moves".into(), "1 x 0".into()];
    assert!(matches!(PieceFactory::new("x.txt", &bad, 0), Err(Error::MalformedMovementRule { line: 4, .. })));
    assert!(load_definition("x.txt", &bad).is_err());
}

#[test]
fn drawn_space_bounds_and_reset() {
    let c = Color { r: 1, g: 2, b: 3, a: 255 };
    assert!(matches!(BoardSpace::new(8, 0, c), Err(Error::InvalidPosition)));
    let mut s = BoardSpace::new(7, 7, c).unwrap();
    assert_eq!(s.color, c);
    s.available_to_kill = true;
    s.hovered = true;
    s.reset_status();
    assert!(!s.available_to_kill && s.hovered);
}

#[test]
fn window_events_become_actions() {
    let mut w = WindowState::new(800, 600);
    assert_eq!(w.handle_event(InputEvent::RenderTargetsReset), EventAction::Render { width: 800, height: 600 });
    assert_eq!(
        w.handle_event(InputEvent::SizeChanged { width: 1024, height: 768 }),
        EventAction::Render { width: 1024, height: 768 }
    );
    assert_eq!((w.width, w.height), (1024, 768));
    assert_eq!(w.handle_event(InputEvent::MouseMotion { x: 3, y: 4 }), EventAction::Hover { x: 3, y: 4 });
    assert_eq!(w.handle_event(InputEvent::LeftButtonDown), EventAction::LeftClick);
    assert_eq!(w.handle_event(InputEvent::LeftButtonUp { x: 1, y: 1 }), EventAction::Nothing);
    assert_eq!(w.handle_event(InputEvent::Other), EventAction::Nothing);
    assert_eq!((w.width, w.height), (1024, 768));
}

#[test]
fn pixels_map_to_squares() {
    assert_eq!(square_at(800, 800, 0, 0), Some(('a', 8)));
    assert_eq!(square_at(800, 800, 799, 799), Some(('h', 1)));
    assert_eq!(square_at(800, 800, 350, 450), Some(('d', 4)));
    assert_eq!(square_at(800, 800, 800, 10), None);
    assert_eq!(square_at(800, 800, -1, 10), None);
    assert_eq!(square_at(0, 800, 0, 0), None);
}
