use rustchess::board::{set_contains, Board};
use rustchess::rules::move_san;
use rustchess::state::{
    click_moves, destinations, detect_castling_rights, display_squares, game_status, move_rows,
    parse_fen_position, parse_fen_setup, position_fen, promotion_roles, setup_fen, setup_position,
    Game, GameStatus,
};
use rustchess::types::{square, Color, Piece, Role};

const START_FEN: &str = "rnbqkbnr/pppppppp/8/8/8/8/PPPPPPPP/RNBQKBNR w KQkq - 0 1";

fn bare(san: &str) -> &str {
    san.trim_end_matches(|c| c == '+' || c == '#')
}

fn play_san(game: &mut Game, san: &str) {
    let pos = &game.displayed().pos;
    let m = pos.legal_moves()
        .into_iter()
        .find(|&m| bare(&move_san(pos, m).unwrap()) == bare(san))
        .expect("legal move");
    assert!(game.play(m), "move {san} should be accepted");
}

#[test]
fn starting_fen_round_trips() {
    let game = Game::default();
    assert_eq!(position_fen(&game.displayed().pos), START_FEN);
    let parsed = parse_fen_position(START_FEN).unwrap();
    assert_eq!(position_fen(&parsed), START_FEN);
}

#[test]
fn plays_moves_and_records_san() {
    let mut game = Game::default();
    play_san(&mut game, "e4");
    play_san(&mut game, "e5");
    play_san(&mut game, "Nf3");
    assert_eq!(game.history().len(), 4);
    assert_eq!(game.cursor(), 3);
    let sans: Vec<_> = game.history().iter().filter_map(|p| p.san.clone()).collect();
    assert_eq!(sans, ["e4", "e5", "Nf3"]);
}

#[test]
fn branching_truncates_the_future() {
    let mut game = Game::default();
    play_san(&mut game, "e4");
    play_san(&mut game, "e5");
    play_san(&mut game, "Nf3");
    game.goto(1); // back to the position after 1. e4
    play_san(&mut game, "c5"); // new branch: Sicilian
    assert_eq!(game.history().len(), 3);
    assert!(game.at_latest());
    assert_eq!(game.displayed().san.as_deref(), Some("c5"));
}

#[test]
fn navigation_is_clamped() {
    let mut game = Game::default();
    play_san(&mut game, "d4");
    game.prev();
    game.prev();
    assert!(game.at_start());
    game.next();
    game.next();
    assert!(game.at_latest());
    game.goto(999);
    assert_eq!(game.cursor(), 1);
}

#[test]
fn castling_is_matched_on_king_target_and_displayed_normalised() {
    let pos = parse_fen_position("r3k2r/8/8/8/8/8/8/R3K2R w KQkq - 0 1").unwrap();
    let short = click_moves(&pos, square(4, 0), square(6, 0));
    assert_eq!(short.len(), 1);
    assert_eq!(display_squares(short[0]), (square(4, 0), square(6, 0)));
    let long = click_moves(&pos, square(4, 0), square(2, 0));
    assert_eq!(long.len(), 1);
    assert_eq!(display_squares(long[0]), (square(4, 0), square(2, 0)));
}

#[test]
fn promotion_clicks_offer_four_roles() {
    let pos = parse_fen_position("8/P7/8/8/8/8/k6K/8 w - - 0 1").unwrap();
    let moves = click_moves(&pos, square(0, 6), square(0, 7));
    assert_eq!(moves.len(), 4);
    assert_eq!(
        promotion_roles(&moves),
        vec![Role::Queen, Role::Rook, Role::Bishop, Role::Knight]
    );
}

#[test]
fn fools_mate_is_checkmate_for_black() {
    let mut game = Game::default();
    for san in ["f3", "e5", "g4", "Qh4#"] {
        play_san(&mut game, san);
    }
    assert_eq!(game_status(&game.displayed().pos), GameStatus::Checkmate(Color::Black));
    assert_eq!(game.displayed().san.as_deref(), Some("Qh4#"));
}

#[test]
fn move_rows_handle_black_to_move_roots() {
    let root =
        parse_fen_position("rnbqkbnr/pppppppp/8/8/4P3/8/PPPPPPPP/RNBQKBNR b KQkq - 0 1").unwrap();
    let mut game = Game::new(root);
    play_san(&mut game, "e5");
    play_san(&mut game, "Nf3");
    let rows = move_rows(game.history());
    assert_eq!(rows.len(), 2);
    assert_eq!(rows[0].number, 1);
    assert!(rows[0].white.is_none());
    assert_eq!(rows[0].black.as_ref().unwrap().1, "e5");
    assert_eq!(rows[1].number, 2);
    assert_eq!(rows[1].white.as_ref().unwrap().1, "Nf3");
}

#[test]
fn castling_rights_are_detected_from_home_squares() {
    let start = Board::new();
    let rights = detect_castling_rights(&start);
    for corner in [square(0, 0), square(7, 0), square(0, 7), square(7, 7)] {
        assert!(set_contains(rights, corner));
    }
    // Move the white king off e1: white loses both rights.
    let mut board = Board::new();
    board.discard_piece_at(square(4, 0));
    board.set_piece_at(square(3, 2), Piece { color: Color::White, role: Role::King });
    let rights = detect_castling_rights(&board);
    assert!(!set_contains(rights, square(0, 0)));
    assert!(!set_contains(rights, square(7, 0)));
    assert!(set_contains(rights, square(0, 7)));
}

#[test]
fn setup_fen_reflects_editor_state() {
    assert_eq!(setup_fen(&Board::empty(), Color::White), "8/8/8/8/8/8/8/8 w - - 0 1");
    assert_eq!(setup_fen(&Board::new(), Color::White), START_FEN);
}

#[test]
fn setup_position_rejects_missing_kings_with_friendly_message() {
    let err = setup_position(&Board::empty(), Color::White).unwrap_err();
    assert!(err.contains("king") || err.contains("empty"));
    let ok = setup_position(&Board::new(), Color::Black).unwrap();
    assert_eq!(ok.turn(), Color::Black);
}

#[test]
fn invalid_fen_is_a_friendly_error() {
    assert!(parse_fen_position("definitely not a fen").is_err());
    assert!(parse_fen_setup("also/not/valid").is_err());
}

#[test]
fn en_passant_and_capture_hints() {
    // After 1. e4 d5: the e4 pawn can capture on d5.
    let mut game = Game::default();
    play_san(&mut game, "e4");
    play_san(&mut game, "d5");
    let (all, captures) = destinations(&game.displayed().pos, square(4, 3));
    assert!(set_contains(all, square(4, 4)));
    assert!(set_contains(all, square(3, 4)));
    assert!(set_contains(captures, square(3, 4)));
    assert!(!set_contains(captures, square(4, 4)));
}

#[test]
fn any_run_of_timeline_operations_keeps_the_root() {
    let mut game = Game::new(parse_fen_position(START_FEN).unwrap());
    let check = |g: &Game| {
        assert!(!g.history().is_empty());
        assert!(g.cursor() < g.history().len());
        assert_eq!(position_fen(&g.history()[0].pos), START_FEN);
        assert_eq!(g.history()[0].san, None);
    };
    check(&game);
    play_san(&mut game, "e4");
    check(&game);
    play_san(&mut game, "e5");
    game.first();
    check(&game);
    play_san(&mut game, "d4");
    check(&game);
    assert_eq!(game.history().len(), 2);
    game.goto(99);
    game.next();
    check(&game);
    game.prev();
    game.prev();
    game.prev();
    check(&game);
    assert_eq!(game.cursor(), 0);
    game.last();
    play_san(&mut game, "d5");
    check(&game);
    assert_eq!(game.history().len(), 3);
    assert_eq!(game.cursor(), 2);
}
