use rustchess::engine::Level;
use rustchess::state::{AppMode, GameStatus};
use rustchess::store::{EngineConfig, EngineSide, Store};
use rustchess::view::{
    color_name, engine_caption, file_label, king_of, piece_asset, piece_label, rank_label,
    role_name, shortcut, side_title, slide_offset, square_order, square_view, status_text,
    Shortcut, SquareView,
};
use rustchess::board::Board;
use rustchess::types::{square, Color, Piece, Role};

#[test]
fn square_order_follows_the_orientation() {
    let white = square_order(false);
    assert_eq!(white.len(), 64);
    assert_eq!(white[0], square(0, 7)); // a8 top left
    assert_eq!(white[7], square(7, 7));
    assert_eq!(white[63], square(7, 0)); // h1 bottom right
    let black = square_order(true);
    assert_eq!(black[0], square(7, 0)); // h1 top left
    assert_eq!(black[63], square(0, 7));
    let mut sorted = white.clone();
    sorted.sort();
    assert_eq!(sorted, (0..64u8).collect::<Vec<_>>());
}

#[test]
fn slide_offsets_point_back_to_the_origin() {
    let e2 = square(4, 1);
    let e4 = square(4, 3);
    assert_eq!(slide_offset(e4, Some((e2, e4)), false), Some((0, 200)));
    assert_eq!(slide_offset(e4, Some((e2, e4)), true), Some((0, -200)));
    let g1 = square(6, 0);
    let f3 = square(5, 2);
    assert_eq!(slide_offset(f3, Some((g1, f3)), false), Some((100, 200)));
    assert_eq!(slide_offset(f3, Some((g1, f3)), true), Some((-100, -200)));
    assert_eq!(slide_offset(e2, Some((e2, e4)), false), None);
    assert_eq!(slide_offset(e4, None, false), None);
}

#[test]
fn coordinates_sit_on_the_visual_edges() {
    assert_eq!(file_label(square(2, 0), false), Some('c'));
    assert_eq!(file_label(square(2, 7), false), None);
    assert_eq!(file_label(square(2, 7), true), Some('c'));
    assert_eq!(rank_label(square(0, 4), false), Some('5'));
    assert_eq!(rank_label(square(7, 4), true), Some('5'));
    assert_eq!(rank_label(square(7, 4), false), None);
}

#[test]
fn square_view_combines_the_overlays() {
    let sq = square(3, 4);
    let dests = 1u64 << sq;
    let v = square_view(sq, Some(sq), (dests, dests), Some((square(3, 3), sq)), None);
    assert_eq!(v, SquareView { selected: true, dest: true, capture: true, last_move: true, check: false });
    let v = square_view(sq, None, (0, 0), None, Some(sq));
    assert_eq!(v, SquareView { selected: false, dest: false, capture: false, last_move: false, check: true });
}

#[test]
fn king_of_needs_exactly_one_king() {
    let board = Board::new();
    assert_eq!(king_of(&board, Color::White), Some(square(4, 0)));
    assert_eq!(king_of(&board, Color::Black), Some(square(4, 7)));
    assert_eq!(king_of(&Board::empty(), Color::White), None);
    let mut two = Board::new();
    two.set_piece_at(square(0, 3), Piece { color: Color::White, role: Role::King });
    assert_eq!(king_of(&two, Color::White), None);
}

#[test]
fn piece_names_and_sprites() {
    let knight = Piece { color: Color::White, role: Role::Knight };
    assert_eq!(piece_asset(knight), "assets/pieces/wN.svg");
    assert_eq!(piece_asset(Piece { color: Color::Black, role: Role::King }), "assets/pieces/bK.svg");
    assert_eq!(piece_label(knight), "white knight");
    assert_eq!(color_name(Color::Black), "Black");
    assert_eq!(role_name(Role::Bishop), "bishop");
}

#[test]
fn status_and_engine_texts() {
    assert_eq!(status_text(GameStatus::Turn(Color::White)), "White to move");
    assert_eq!(status_text(GameStatus::Check(Color::Black)), "Black to move \u{2014} check!");
    assert_eq!(status_text(GameStatus::Checkmate(Color::Black)), "Checkmate \u{2014} Black wins");
    assert_eq!(status_text(GameStatus::Stalemate), "Stalemate \u{2014} draw");
    assert_eq!(status_text(GameStatus::InsufficientMaterial), "Draw \u{2014} insufficient material");
    let cfg = EngineConfig { enabled: true, plays: EngineSide::Both, level: Level::Hard };
    assert_eq!(engine_caption(cfg), "Hard \u{2014} engine plays itself, sit back");
    let cfg = EngineConfig { plays: EngineSide::White, ..cfg };
    assert_eq!(engine_caption(cfg), "Hard \u{2014} alpha-beta search, written in Rust");
    assert_eq!(side_title(EngineSide::Black), "Engine plays the black pieces");
    assert_eq!(EngineSide::Both.label(), "Both");
}

#[test]
fn shortcuts_depend_on_the_mode() {
    assert_eq!(shortcut("ArrowLeft", AppMode::Play), Some(Shortcut::NavPrev));
    assert_eq!(shortcut("ArrowLeft", AppMode::Setup), None);
    assert_eq!(shortcut("ArrowRight", AppMode::Play), Some(Shortcut::NavNext));
    assert_eq!(shortcut("Home", AppMode::Play), Some(Shortcut::NavFirst));
    assert_eq!(shortcut("End", AppMode::Play), Some(Shortcut::NavLast));
    assert_eq!(shortcut("Escape", AppMode::Setup), Some(Shortcut::Escape));
    assert_eq!(shortcut("F", AppMode::Setup), Some(Shortcut::Flip));
    assert_eq!(shortcut("h", AppMode::Play), Some(Shortcut::ToggleSuggestions));
    assert_eq!(shortcut("x", AppMode::Play), None);
    assert!(Shortcut::NavPrev.prevents_default());
    assert!(!Shortcut::Flip.prevents_default());
}

#[test]
fn store_view_helpers() {
    let mut store = Store::new();
    assert_eq!(store.hints(), (0, 0));
    store.click_square(square(6, 0)); // Ng1
    let (all, captures) = store.hints();
    assert_eq!(all, (1u64 << square(5, 2)) | (1u64 << square(7, 2)));
    assert_eq!(captures, 0);
    store.click_square(square(5, 2));
    assert_eq!(store.highlighted_move(), Some((square(6, 0), square(5, 2))));
    assert_eq!(store.check_square(), None);
    assert_eq!(store.shown_board().piece_at(square(5, 2)), Some(Piece { color: Color::White, role: Role::Knight }));
    store.apply_shortcut(Shortcut::NavPrev);
    assert_eq!(store.game.cursor(), 0);
    assert_eq!(store.highlighted_move(), None);
    store.apply_shortcut(Shortcut::Flip);
    assert!(store.flipped);
    store.set_mode(AppMode::Setup);
    store.click_square(square(0, 0));
    assert_eq!(store.carry_from(), Some(square(0, 0)));
    assert_eq!(store.highlighted_move(), None);
}

#[test]
fn check_square_marks_the_king_in_check() {
    let mut store = Store::new();
    store.fen_draft = "rnb1kbnr/pppp1ppp/8/4p3/6Pq/5P2/PPPPP2P/RNBQKBNR w KQkq - 1 3".to_string();
    store.load_fen();
    assert_eq!(store.check_square(), Some(square(4, 0)));
}
