use rustchess::board::Board;
use rustchess::engine::{position_hash, xorshift, Level, Search};
use rustchess::eval::evaluate;
use rustchess::rules::{is_checkmate, is_stalemate, legal_index, move_san};
use rustchess::state::{
    click_moves, destinations, friendly_position_error, game_status, move_rows, parse_fen_position,
    parse_fen_setup, position_fen, setup_fen, setup_position, Game, GameStatus,
};
use rustchess::rules::PositionFailure;
use rustchess::board::set_contains;
use rustchess::types::{square, Color, Move, Piece, Role};

const START_FEN: &str = "rnbqkbnr/pppppppp/8/8/8/8/PPPPPPPP/RNBQKBNR w KQkq - 0 1";

fn play(game: &mut Game, from: u8, to: u8) {
    let m = click_moves(&game.displayed().pos, from, to)[0];
    assert!(game.play(m));
}

#[test]
fn the_start_position_has_twenty_moves_and_no_captures() {
    let pos = parse_fen_position(START_FEN).unwrap();
    assert_eq!(pos.legal_moves().len(), 20);
    assert!(pos.legal_moves().iter().all(|m| m.capture().is_none()));
    assert_eq!(pos.turn(), Color::White);
    assert_eq!(pos.board().piece_at(square(3, 0)), Some(Piece { color: Color::White, role: Role::Queen }));
    assert_eq!(game_status(&pos), GameStatus::Turn(Color::White));
}

#[test]
fn fen_input_is_trimmed_and_normalised() {
    let pos = parse_fen_position("   k7/8/8/8/8/8/8/KQ6 b - - 3 40 \n").unwrap();
    assert_eq!(position_fen(&pos), "k7/8/8/8/8/8/8/KQ6 b - - 3 40");
    assert_eq!(pos.turn(), Color::Black);
    let pos = parse_fen_position("\u{a0}\u{3000}k7/8/8/8/8/8/8/KQ6 w - - 0 1\u{2003}\r").unwrap();
    assert_eq!(position_fen(&pos), "k7/8/8/8/8/8/8/KQ6 w - - 0 1");
    // An impossible en passant square is dropped rather than refused.
    let pos = parse_fen_position("4k3/8/8/8/8/8/8/4K3 w - e6 0 1").unwrap();
    assert_eq!(position_fen(&pos), "4k3/8/8/8/8/8/8/4K3 w - - 0 1");
}

#[test]
fn position_errors_have_friendly_messages() {
    assert_eq!(parse_fen_position("").unwrap_err(), "Invalid FEN: could not parse the string");
    assert_eq!(parse_fen_position("8/8/8/8/8/8/8/8 w - - 0 1").unwrap_err(), "The board is empty");
    assert_eq!(parse_fen_position("4k3/8/8/8/8/8/8/8 w - - 0 1").unwrap_err(), "Each side needs exactly one king");
    assert_eq!(parse_fen_position("4k3/8/8/8/8/8/8/2K1K3 w - - 0 1").unwrap_err(), "Each side may only have one king");
    assert_eq!(parse_fen_position("4k3/8/8/8/8/8/8/P3K3 w - - 0 1").unwrap_err(), "Pawns cannot stand on the first or eighth rank");
    assert_eq!(parse_fen_position("4k3/8/8/8/8/8/4R3/4K3 w - - 0 1").unwrap_err(), "The side not to move is in check");
    let generic = friendly_position_error(&PositionFailure { kinds: 16, display: "odd".to_string() });
    assert_eq!(generic, "Illegal position: odd");
}

#[test]
fn setup_conversions() {
    let (board, turn) = parse_fen_setup(" 4k3/8/8/8/8/8/8/4K3 b - - 0 1").unwrap();
    assert_eq!(turn, Color::Black);
    assert_eq!(board.piece_at(square(4, 7)), Some(Piece { color: Color::Black, role: Role::King }));
    assert_eq!(setup_fen(&board, turn), "4k3/8/8/8/8/8/8/4K3 b - - 0 1");
    let pos = setup_position(&board, Color::White).unwrap();
    assert_eq!(position_fen(&pos), "4k3/8/8/8/8/8/8/4K3 w - - 0 1");
    assert_eq!(game_status(&pos), GameStatus::InsufficientMaterial);
    // Too much material is accepted in the sandbox.
    let mut crowded = Board::empty();
    crowded.set_piece_at(square(4, 0), Piece { color: Color::White, role: Role::King });
    crowded.set_piece_at(square(4, 7), Piece { color: Color::Black, role: Role::King });
    for f in 0..8u8 {
        crowded.set_piece_at(square(f, 2), Piece { color: Color::White, role: Role::Knight });
    }
    for f in 0..3u8 {
        crowded.set_piece_at(square(f, 3), Piece { color: Color::White, role: Role::Knight });
    }
    assert!(setup_position(&crowded, Color::White).is_ok());
}

#[test]
fn status_detects_stalemate_and_check() {
    let stale = parse_fen_position("7k/5Q2/6K1/8/8/8/8/8 b - - 0 1").unwrap();
    assert!(is_stalemate(&stale));
    assert!(!is_checkmate(&stale));
    assert_eq!(game_status(&stale), GameStatus::Stalemate);
    let check = parse_fen_position("4k3/8/8/8/8/8/4R3/4K3 b - - 0 1").unwrap();
    assert_eq!(game_status(&check), GameStatus::Check(Color::Black));
}

#[test]
fn hints_match_clicks_everywhere() {
    let mut game = Game::default();
    play(&mut game, square(4, 1), square(4, 3));
    play(&mut game, square(3, 6), square(3, 4));
    let pos = &game.displayed().pos;
    for from in 0..64u8 {
        let (all, captures) = destinations(pos, from);
        for to in 0..64u8 {
            let clicks = click_moves(pos, from, to);
            assert_eq!(set_contains(all, to), !clicks.is_empty());
            if set_contains(captures, to) {
                assert!(set_contains(all, to));
            }
        }
    }
}

#[test]
fn stepping_back_after_a_move_shows_the_old_position() {
    let mut game = Game::default();
    play(&mut game, square(6, 0), square(5, 2));
    assert!(game.at_latest());
    assert_eq!(game.displayed().last_move, Some((square(6, 0), square(5, 2))));
    game.prev();
    assert_eq!(position_fen(&game.displayed().pos), START_FEN);
    game.first();
    game.last();
    assert_eq!(game.cursor(), 1);
}

#[test]
fn illegal_moves_are_refused() {
    let mut game = Game::default();
    let m = Move::Normal { role: Role::Pawn, from: square(4, 1), capture: None, to: square(4, 4), promotion: None };
    assert!(!game.play(m));
    assert_eq!(game.history().len(), 1);
    assert_eq!(legal_index(&game.displayed().pos, m), None);
    assert_eq!(move_san(&game.displayed().pos, m), None);
}

#[test]
fn move_list_holds_every_move_in_order() {
    let mut game = Game::default();
    play(&mut game, square(4, 1), square(4, 3));
    play(&mut game, square(4, 6), square(4, 4));
    play(&mut game, square(6, 0), square(5, 2));
    let rows = move_rows(game.history());
    assert_eq!(rows.len(), 2);
    assert_eq!(rows[0].white, Some((1, "e4".to_string())));
    assert_eq!(rows[0].black, Some((2, "e5".to_string())));
    assert_eq!(rows[1].white, Some((3, "Nf3".to_string())));
    assert_eq!(rows[1].black, None);
    assert_eq!(rows[1].number, 2);
}

#[test]
fn castling_king_side_is_played_by_king_target() {
    let mut game = Game::new(parse_fen_position("r3k2r/8/8/8/8/8/8/R3K2R w KQkq - 0 1").unwrap());
    play(&mut game, square(4, 0), square(6, 0));
    assert_eq!(game.displayed().san.as_deref(), Some("O-O"));
    assert_eq!(game.displayed().last_move, Some((square(4, 0), square(6, 0))));
    assert_eq!(position_fen(&game.displayed().pos), "r3k2r/8/8/8/8/8/8/R4RK1 b kq - 1 1");
}

#[test]
fn hashes_and_evaluation_distinguish_positions() {
    let a = parse_fen_position(START_FEN).unwrap();
    let b = parse_fen_position("rnbqkbnr/pppppppp/8/8/4P3/8/PPPP1PPP/RNBQKBNR b KQkq - 0 1").unwrap();
    assert_ne!(position_hash(&a), position_hash(&b));
    assert_eq!(position_hash(&a), position_hash(&parse_fen_position(START_FEN).unwrap()));
    let up_a_queen = parse_fen_position("k7/8/8/8/8/8/8/KQ6 w - - 0 1").unwrap();
    assert!(evaluate(&up_a_queen) > 800);
    let down_a_queen = parse_fen_position("k7/8/8/8/8/8/8/KQ6 b - - 0 1").unwrap();
    assert_eq!(evaluate(&down_a_queen), -evaluate(&up_a_queen));
}

#[test]
fn xorshift_steps_and_never_hits_zero() {
    let mut state = 1u64;
    let first = xorshift(&mut state);
    assert_eq!(first, state);
    assert_ne!(first, 0);
    assert_eq!(first, 1082269761);
    for _ in 0..1000 {
        assert_ne!(xorshift(&mut state), 0);
    }
}

#[test]
fn without_noise_the_best_scored_move_is_played() {
    let pos = parse_fen_position("r1bqkbnr/pppp1ppp/2n5/4p3/2B1P3/5N2/PPPP1PPP/RNBQK2R w KQkq - 4 3").unwrap();
    let mut search = Search::new(&pos, Vec::new(), Level::Medium, 5);
    while !search.step(100_000) {}
    let (line_move, _, depth) = search.current_best_line().unwrap();
    assert!(depth >= 1);
    assert_eq!(search.take_best(), Some(line_move));
}

#[test]
fn trimmed_input_reads_like_the_input() {
    let raw = " \t k7/8/8/8/8/8/8/KQ6 w - - 0 1 \n";
    let once = parse_fen_position(raw).unwrap();
    let twice = parse_fen_position(raw.trim()).unwrap();
    assert_eq!(position_fen(&once), position_fen(&twice));
}

#[test]
fn tolerated_position_errors_are_let_go() {
    // Castling rights without king and rooks are dropped.
    let pos = parse_fen_position("4k3/8/8/8/8/8/8/4K3 w KQkq - 0 1").unwrap();
    assert_eq!(position_fen(&pos), "4k3/8/8/8/8/8/8/4K3 w - - 0 1");
    // More queens than promotions could make is accepted.
    let pos = parse_fen_position("4k3/8/8/8/8/8/PPPPPPPP/QQQQKQQQ w - - 0 1").unwrap();
    assert_eq!(position_fen(&pos), "4k3/8/8/8/8/8/PPPPPPPP/QQQQKQQQ w - - 0 1");
    // A tolerated kind beside one that is not still fails on the latter.
    assert_eq!(
        parse_fen_position("8/8/8/8/8/8/PPPPPPPP/QQQQKQQQ w KQ - 0 1").unwrap_err(),
        "Each side needs exactly one king"
    );
}
