use rustchess::board::Board;
use rustchess::engine::{Level, Search};
use rustchess::rules::move_san;
use rustchess::state::{position_fen, AppMode, SetupTool};
use rustchess::store::{
    search_seed, think_pause_ms, white_eval, ChunkOutcome, EngineSide, EvalDisplay, Store,
};
use rustchess::types::{square, Color, Piece, Role};

const START_FEN: &str = "rnbqkbnr/pppppppp/8/8/8/8/PPPPPPPP/RNBQKBNR w KQkq - 0 1";

fn shown_fen(store: &Store) -> String {
    position_fen(&store.game.displayed().pos)
}

fn load(store: &mut Store, fen: &str) {
    store.fen_draft = fen.to_string();
    store.load_fen();
    assert!(store.error.is_none(), "{fen} should load");
}

#[test]
fn new_store_starts_a_game_in_play_mode() {
    let store = Store::new();
    assert_eq!(store.mode, AppMode::Play);
    assert_eq!(shown_fen(&store), START_FEN);
    assert_eq!(store.current_fen(), START_FEN);
    assert_eq!(store.search_gen, 0);
    assert!(!store.engine.enabled);
    assert_eq!(store.engine.plays, EngineSide::Black);
    assert_eq!(store.engine.level, Level::Medium);
}

#[test]
fn clicking_selects_then_moves() {
    let mut store = Store::new();
    store.click_square(square(4, 1)); // e2
    assert_eq!(store.selected, Some(square(4, 1)));
    store.click_square(square(4, 3)); // e4
    assert_eq!(store.selected, None);
    assert_eq!(store.game.history().len(), 2);
    assert_eq!(store.game.displayed().san.as_deref(), Some("e4"));
    assert_eq!(store.search_gen, 1, "a move makes running searches stale");
}

#[test]
fn clicking_an_empty_square_without_selection_does_nothing() {
    let mut store = Store::new();
    store.click_square(square(4, 4));
    assert_eq!(store.selected, None);
    assert_eq!(store.search_gen, 0);
}

#[test]
fn clicking_the_selected_square_deselects() {
    let mut store = Store::new();
    store.click_square(square(6, 0));
    store.click_square(square(6, 0));
    assert_eq!(store.selected, None);
}

#[test]
fn illegal_target_reselects_own_piece() {
    let mut store = Store::new();
    store.click_square(square(4, 1)); // e2
    store.click_square(square(3, 1)); // d2: own pawn, not a target
    assert_eq!(store.selected, Some(square(3, 1)));
    store.click_square(square(3, 6)); // d7: enemy pawn, not a target
    assert_eq!(store.selected, None);
}

#[test]
fn engine_side_pieces_cannot_be_clicked() {
    let mut store = Store::new();
    store.set_engine_side(EngineSide::White);
    store.set_engine_enabled(true);
    store.click_square(square(4, 1));
    assert_eq!(store.selected, None);
}

#[test]
fn promotion_flow_asks_then_plays_the_chosen_piece() {
    let mut store = Store::new();
    load(&mut store, "8/P7/8/8/8/8/k6K/8 w - - 0 1");
    store.click_square(square(0, 6));
    store.click_square(square(0, 7));
    let pending = store.promo.expect("picker should open");
    assert_eq!((pending.from, pending.to, pending.color), (square(0, 6), square(0, 7), Color::White));
    store.choose_promotion(Role::Knight);
    assert!(store.promo.is_none());
    assert_eq!(store.game.displayed().san.as_deref(), Some("a8=N"));
}

#[test]
fn clicks_are_ignored_while_the_picker_is_open() {
    let mut store = Store::new();
    load(&mut store, "8/P7/8/8/8/8/k6K/8 w - - 0 1");
    store.click_square(square(0, 6));
    store.click_square(square(0, 7));
    let gen = store.search_gen;
    store.click_square(square(7, 1));
    assert!(store.promo.is_some());
    assert_eq!(store.search_gen, gen);
    store.escape();
    assert!(store.promo.is_none());
}

#[test]
fn setup_pointer_moves_a_piece() {
    let mut store = Store::new();
    store.set_mode(AppMode::Setup);
    assert_eq!(store.tool, SetupTool::Pointer);
    store.click_square(square(4, 1)); // pick up e2
    assert_eq!(store.tool, SetupTool::Carry { piece: Piece { color: Color::White, role: Role::Pawn }, from: square(4, 1) });
    store.click_square(square(4, 3)); // drop on e4
    assert_eq!(store.tool, SetupTool::Pointer);
    assert_eq!(store.setup_board.piece_at(square(4, 1)), None);
    assert_eq!(store.setup_board.piece_at(square(4, 3)), Some(Piece { color: Color::White, role: Role::Pawn }));
}

#[test]
fn setup_stamp_twice_erases() {
    let mut store = Store::new();
    store.set_mode(AppMode::Setup);
    let queen = Piece { color: Color::Black, role: Role::Queen };
    store.toggle_place_tool(queen);
    store.click_square(square(3, 3));
    assert_eq!(store.setup_board.piece_at(square(3, 3)), Some(queen));
    store.click_square(square(3, 3));
    assert_eq!(store.setup_board.piece_at(square(3, 3)), None);
    store.toggle_place_tool(queen);
    assert_eq!(store.tool, SetupTool::Pointer);
}

#[test]
fn right_click_erases_in_setup_and_deselects_in_play() {
    let mut store = Store::new();
    store.click_square(square(4, 1));
    store.right_click_square(square(4, 1));
    assert_eq!(store.selected, None);
    store.set_mode(AppMode::Setup);
    store.right_click_square(square(0, 0));
    assert_eq!(store.setup_board.piece_at(square(0, 0)), None);
}

#[test]
fn setup_round_trip_plays_from_the_editor() {
    let mut store = Store::new();
    store.set_mode(AppMode::Setup);
    store.clear_board();
    assert!(store.setup_validity().is_err());
    store.play_from_setup();
    assert_eq!(store.error.as_deref(), Some("The board is empty"));
    assert_eq!(store.mode, AppMode::Setup);
    store.starting_position();
    store.setup_turn = Color::Black;
    assert!(store.setup_validity().is_ok());
    store.play_from_setup();
    assert_eq!(store.mode, AppMode::Play);
    assert!(store.error.is_none());
    assert_eq!(shown_fen(&store), "rnbqkbnr/pppppppp/8/8/8/8/PPPPPPPP/RNBQKBNR b KQkq - 0 1");
}

#[test]
fn entering_setup_copies_the_displayed_position() {
    let mut store = Store::new();
    store.click_square(square(4, 1));
    store.click_square(square(4, 3));
    store.set_mode(AppMode::Setup);
    assert_eq!(store.setup_turn, Color::Black);
    assert_eq!(store.setup_board.piece_at(square(4, 3)), Some(Piece { color: Color::White, role: Role::Pawn }));
    assert_eq!(store.current_fen(), "rnbqkbnr/pppppppp/8/8/4P3/8/PPPP1PPP/RNBQKBNR b KQkq - 0 1");
}

#[test]
fn load_fen_reports_errors_without_changing_the_game() {
    let mut store = Store::new();
    store.fen_draft = "definitely not a fen".to_string();
    store.load_fen();
    assert_eq!(store.error.as_deref(), Some("Invalid FEN: could not parse the string"));
    assert_eq!(shown_fen(&store), START_FEN);
    store.set_mode(AppMode::Setup);
    store.fen_draft = "  8/8/8/8/8/8/8/8 b - - 0 1  ".to_string();
    store.load_fen();
    assert!(store.error.is_none());
    assert_eq!(store.setup_turn, Color::Black);
    assert_eq!(store.setup_board.piece_at(square(4, 0)), None);
}

#[test]
fn navigation_actions_move_the_cursor_and_bump_the_generation() {
    let mut store = Store::new();
    store.click_square(square(4, 1));
    store.click_square(square(4, 3));
    store.click_square(square(4, 6));
    store.click_square(square(4, 4));
    let gen = store.search_gen;
    store.nav_prev();
    assert_eq!(store.game.cursor(), 1);
    store.nav_first();
    assert_eq!(store.game.cursor(), 0);
    store.nav_next();
    assert_eq!(store.game.cursor(), 1);
    store.nav_last();
    assert_eq!(store.game.cursor(), 2);
    store.goto(0);
    assert_eq!(store.game.cursor(), 0);
    assert_eq!(store.search_gen, gen + 5);
    assert_eq!(store.progress(), (0, 2));
}

#[test]
fn flipping_twice_restores_the_orientation() {
    let mut store = Store::new();
    store.flip();
    assert!(store.flipped);
    store.flip();
    assert!(!store.flipped);
}

#[test]
fn engine_should_move_only_on_its_turn() {
    let mut store = Store::new();
    assert!(!store.engine_should_move());
    store.set_engine_enabled(true);
    store.set_engine_side(EngineSide::White);
    assert!(store.engine_should_move());
    store.thinking = true;
    assert!(!store.engine_should_move());
    store.thinking = false;
    store.set_engine_side(EngineSide::Black);
    assert!(!store.engine_should_move());
}

#[test]
fn engine_stops_at_the_fifty_move_rule_and_at_mate() {
    let mut store = Store::new();
    store.set_engine_enabled(true);
    store.set_engine_side(EngineSide::Both);
    load(&mut store, "k7/8/8/8/8/8/8/KQ6 w - - 100 80");
    assert!(!store.engine_should_move());
    load(&mut store, "rnb1kbnr/pppp1ppp/8/4p3/6Pq/5P2/PPPPP2P/RNBQKBNR w KQkq - 1 3");
    assert!(!store.engine_should_move());
}

#[test]
fn engine_search_round_trip_plays_a_move() {
    let mut store = Store::new();
    store.set_engine_enabled(true);
    store.set_engine_side(EngineSide::White);
    store.set_engine_level(Level::Beginner);
    let req = store.begin_engine_search().expect("search should start");
    assert!(store.thinking);
    assert!(store.begin_engine_search().is_none(), "only one search at a time");
    assert_eq!(req.level, Level::Beginner);
    assert_eq!(req.prior.len(), 1);
    let mut search = Search::new(&req.pos, req.prior, req.level, search_seed(1000, req.gen));
    let mut chunks = 0;
    while store.engine_chunk(&mut search, req.gen, req.level, 0) == ChunkOutcome::Continue {
        chunks += 1;
        assert!(chunks < 1000);
    }
    let best = search.take_best();
    assert!(best.is_some());
    store.finish_engine_search(best, req.gen);
    assert!(!store.thinking);
    assert_eq!(store.game.history().len(), 2);
}

#[test]
fn stale_engine_search_never_moves() {
    let mut store = Store::new();
    store.set_engine_enabled(true);
    store.set_engine_side(EngineSide::White);
    let req = store.begin_engine_search().unwrap();
    let mut search = Search::new(&req.pos, req.prior, Level::Beginner, 7);
    store.flip();
    store.nav_first(); // the user interacts: the search is stale now
    assert_eq!(store.engine_chunk(&mut search, req.gen, req.level, 0), ChunkOutcome::Stale);
    assert!(!store.thinking);
    let best = search.take_best();
    store.thinking = true;
    store.finish_engine_search(best, req.gen);
    assert!(!store.thinking);
    assert_eq!(store.game.history().len(), 1, "a stale search must not play");
}

#[test]
fn engine_chunk_finishes_when_out_of_time() {
    let mut store = Store::new();
    let req = store.begin_engine_search().unwrap();
    let mut search = Search::new(&req.pos, req.prior, Level::Max, 3);
    assert_eq!(store.engine_chunk(&mut search, req.gen, Level::Max, 2800), ChunkOutcome::Finished);
}

#[test]
fn analysis_publishes_a_suggestion() {
    let mut store = Store::new();
    store.toggle_suggestions();
    assert!(store.suggestions_wanted());
    assert!(store.analysis_due());
    let req = store.begin_analysis().expect("analysis should start");
    assert!(store.analyzing);
    assert_eq!(store.analyzed_gen, Some(req.gen));
    assert!(!store.analysis_due(), "already running");
    let mut search = Search::new(&req.pos, req.prior, req.level, 11);
    let mut best = None;
    loop {
        match store.analysis_chunk(&mut search, req.gen, 0) {
            rustchess::store::AnalysisStep::Stale => panic!("nothing changed"),
            rustchess::store::AnalysisStep::Progress { best: b, finished } => {
                best = b.or(best);
                if finished {
                    break;
                }
            }
        }
    }
    let (m, _) = best.expect("a best move");
    store.offer_suggestion(req.gen, &req.pos, m, "+0.3".to_string());
    let s = store.suggestion.clone().expect("published");
    assert_eq!(s.san, move_san(&req.pos, m).unwrap());
    assert_eq!(s.eval, "+0.3");
    assert_eq!(store.arrow(), Some((s.from, s.to)));
    store.end_analysis();
    assert!(!store.analyzing);
    store.toggle_suggestions();
    assert!(!store.analysis_due());
    assert!(store.suggestion.is_none(), "suggestions off drops the old one");
}

#[test]
fn stale_suggestions_are_not_published() {
    let mut store = Store::new();
    store.show_suggestions = true;
    let req = store.begin_analysis().unwrap();
    let m = req.pos.legal_moves()[0];
    store.flip();
    store.nav_last();
    store.offer_suggestion(req.gen, &req.pos, m, "+0.1".to_string());
    assert!(store.suggestion.is_none());
}

#[test]
fn white_eval_reads_scores_from_whites_side() {
    assert_eq!(white_eval(35, Color::White), EvalDisplay::Centipawns(35));
    assert_eq!(white_eval(35, Color::Black), EvalDisplay::Centipawns(-35));
    assert_eq!(white_eval(30_000 - 1, Color::White), EvalDisplay::Mate { white_mates: true, moves: 1 });
    assert_eq!(white_eval(30_000 - 3, Color::Black), EvalDisplay::Mate { white_mates: false, moves: 2 });
    assert_eq!(white_eval(-(30_000 - 4), Color::White), EvalDisplay::Mate { white_mates: false, moves: 2 });
    assert_eq!(white_eval(30_001, Color::White), EvalDisplay::Mate { white_mates: true, moves: 0 });
    assert_eq!(white_eval(29_799, Color::White), EvalDisplay::Centipawns(29_799));
}

#[test]
fn driver_timing_helpers() {
    assert_eq!(think_pause_ms(100), 250);
    assert_eq!(think_pause_ms(350), 0);
    assert_eq!(think_pause_ms(5000), 0);
    assert_eq!(search_seed(5, 0), 5);
    assert_eq!(search_seed(0, 1), 0x9E37_79B9_7F4A_7C15);
    assert_eq!(search_seed(0, 2), 0x9E37_79B9_7F4A_7C15u64.wrapping_mul(2));
}

#[test]
fn new_game_resets_to_the_start() {
    let mut store = Store::new();
    store.click_square(square(4, 1));
    store.click_square(square(4, 3));
    store.set_mode(AppMode::Setup);
    store.new_game();
    assert_eq!(store.mode, AppMode::Play);
    assert_eq!(store.game.history().len(), 1);
    assert_eq!(shown_fen(&store), START_FEN);
}

#[test]
fn default_store_equals_a_new_one() {
    let a = Store::default();
    assert_eq!(a.mode, AppMode::Play);
    assert_eq!(a.current_fen(), START_FEN);
    let _ = Board::empty();
}
