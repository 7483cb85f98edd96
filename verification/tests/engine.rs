use rustchess::engine::{Level, Search, MATE};
use rustchess::eval::evaluate;
use rustchess::rules::move_san;
use rustchess::state::parse_fen_position;
use rustchess::types::{square, Move};

/// Drive a search to completion the way the async driver does.
fn best_move(fen: &str, level: Level) -> (Option<Move>, Search) {
    let pos = parse_fen_position(fen).expect("valid test FEN");
    let mut search = Search::new(&pos, Vec::new(), level, 0xC0FFEE);
    let mut steps = 0;
    while !search.step(200_000) {
        steps += 1;
        assert!(steps < 500, "search failed to converge");
    }
    (search.take_best(), search)
}

fn san_of(fen: &str, m: Move) -> String {
    let pos = parse_fen_position(fen).unwrap();
    move_san(&pos, m).unwrap()
}

#[test]
fn finds_mate_in_one() {
    let fen = "6k1/5ppp/8/8/8/8/5PPP/R5K1 w - - 0 1";
    let (best, search) = best_move(fen, Level::Medium);
    assert_eq!(san_of(fen, best.unwrap()), "Ra8#");
    assert!(search.score().unwrap() >= MATE - 100);
}

#[test]
fn finds_forced_mate_in_two() {
    // Ladder mate: 1. Rb7+ Kg8 2. Ra8#
    let fen = "8/6k1/R7/1R6/8/8/8/K7 w - - 0 1";
    let (best, search) = best_move(fen, Level::Hard);
    assert!(search.score().unwrap() >= MATE - 100, "should see the mate");
    let san = san_of(fen, best.unwrap());
    assert!(san.starts_with("Rb7+") || san.starts_with("Ra7+"), "got {san}");
}

#[test]
fn grabs_a_hanging_queen() {
    let fen = "k7/8/8/3q4/4P3/8/8/7K w - - 0 1";
    let (best, _) = best_move(fen, Level::Easy);
    assert_eq!(best.unwrap().to(), square(3, 4), "must capture the queen");
}

#[test]
fn single_legal_move_returns_instantly() {
    // White king a1 boxed in by the f2 queen: only Kb1 is legal.
    let fen = "k7/8/8/8/8/8/5q2/K7 w - - 0 1";
    let pos = parse_fen_position(fen).unwrap();
    assert_eq!(pos.legal_moves().len(), 1);
    let mut search = Search::new(&pos, Vec::new(), Level::Max, 1);
    assert!(search.step(1), "should be done without searching");
    assert!(search.take_best().is_some());
}

#[test]
fn beginner_noise_still_plays_legal_moves() {
    let fen = "rnbqkbnr/pppppppp/8/8/8/8/PPPPPPPP/RNBQKBNR w KQkq - 0 1";
    let pos = parse_fen_position(fen).unwrap();
    for seed in 1..6u64 {
        let mut search = Search::new(&pos, Vec::new(), Level::Beginner, seed);
        while !search.step(50_000) {}
        let m = search.take_best().unwrap();
        assert!(pos.legal_moves().contains(&m), "noisy move must still be legal");
    }
}

#[test]
fn does_not_walk_into_repetition_when_winning() {
    // Up a queen: the best line should never be scored as a draw-by-
    // repetition shuffle. Just sanity-check score stays clearly winning.
    let fen = "k7/8/8/8/8/8/8/KQ6 w - - 0 1";
    let (_, search) = best_move(fen, Level::Medium);
    assert!(search.score().unwrap() > 500);
}

#[test]
fn chunked_stepping_matches_time_slicing() {
    // Many tiny steps must converge to a finished search.
    let fen = "r1bqkbnr/pppp1ppp/2n5/4p3/2B1P3/5N2/PPPP1PPP/RNBQK2R w KQkq - 4 3";
    let pos = parse_fen_position(fen).unwrap();
    let mut search = Search::new(&pos, Vec::new(), Level::Medium, 42);
    let mut steps = 0;
    while !search.step(5_000) {
        steps += 1;
        assert!(steps < 2_000, "must converge with tiny chunks");
    }
    assert!(search.take_best().is_some());
    assert!(search.depth_completed() >= 3);
    assert!(search.nodes() > 5_000, "should have searched a real tree");
}

#[test]
fn evaluation_is_symmetric() {
    let start = parse_fen_position("rnbqkbnr/pppppppp/8/8/8/8/PPPPPPPP/RNBQKBNR w KQkq - 0 1")
        .unwrap();
    assert_eq!(evaluate(&start), 0, "start position must be balanced");
    let mirrored =
        parse_fen_position("rnbqkbnr/pppppppp/8/8/8/8/PPPPPPPP/RNBQKBNR b KQkq - 0 1").unwrap();
    assert_eq!(evaluate(&start), evaluate(&mirrored));
}

#[test]
fn zero_budget_changes_nothing_and_any_budget_is_accepted() {
    let pos = parse_fen_position("r1bqkbnr/pppp1ppp/2n5/4p3/2B1P3/5N2/PPPP1PPP/RNBQK2R w KQkq - 4 3").unwrap();
    let mut search = Search::new(&pos, Vec::new(), Level::Easy, 9);
    assert!(!search.step(0));
    assert_eq!(search.nodes(), 0);
    assert_eq!(search.depth_completed(), 0);
    assert!(search.step(u64::MAX), "an unbounded chunk finishes the search");
    assert_eq!(search.depth_completed(), 2);
    let nodes = search.nodes();
    let best = search.take_best();
    assert!(best.is_some());
    assert_eq!(search.nodes(), nodes);
    assert!(search.step(1_000));
    assert_eq!(search.take_best(), best);
}

#[test]
fn a_mate_in_one_scores_one_ply_short_of_mate() {
    let fen = "6k1/5ppp/8/8/8/8/5PPP/R5K1 w - - 0 1";
    let (best, search) = best_move(fen, Level::Medium);
    assert_eq!(search.score(), Some(MATE - 1));
    let (m, score, depth) = search.current_best_line().unwrap();
    assert_eq!(Some(m), best);
    assert_eq!(score, MATE - 1);
    assert_eq!(depth, 1);
}

#[test]
fn mate_found_at_every_level_scores_the_same() {
    let fen = "6k1/5ppp/8/8/8/8/5PPP/R5K1 w - - 0 1";
    for level in [Level::Easy, Level::Hard] {
        let (best, search) = best_move(fen, level);
        assert_eq!(san_of(fen, best.unwrap()), "Ra8#");
        assert_eq!(search.score(), Some(MATE - 1));
    }
}

#[test]
fn a_capture_into_dead_material_scores_exactly_zero() {
    // Bxb2 leaves king and bishop against a bare king: a draw, scored 0,
    // which beats every other move.
    let fen = "7k/8/8/8/8/8/1q6/B6K w - - 0 1";
    let (best, search) = best_move(fen, Level::Easy);
    assert_eq!(san_of(fen, best.unwrap()), "Bxb2+");
    assert_eq!(search.score(), Some(0));
}
