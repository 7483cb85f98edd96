//! A chunked, resumable game-tree search: iterative-deepening negamax with
//! alpha-beta pruning, quiescence search, a transposition table, MVV-LVA and
//! killer-move ordering and check extensions.
//!
//! The search is driven through [`Search::step`] in bounded node-count
//! chunks so that a caller can yield between chunks.

use vstd::prelude::*;
use crate::eval::{evaluate, role_index, spec_evaluate, spec_role_index, ORDER_WEIGHT};
use crate::rules::{
    halfmoves, is_capture, is_check, is_insufficient_material, legal_moves, play_nth, spec_board,
    spec_halfmoves, spec_is_check, spec_is_insufficient_material, spec_legal_moves, spec_play_nth, spec_turn,
    spec_zobrist, zobrist, Position,
};
use crate::types::{Move, Role};

verus! {

pub const MATE: i32 = 30_000;

pub const INF: i32 = 31_000;

pub const MAX_PLY: usize = 64;

/// Number of transposition-table entries (a power of two).
pub const TT_SIZE: usize = 131_072;

/// Every score the search computes lies within this bound.
pub const SCORE_BOUND: i32 = 100_000;

/// Deepest iteration any level asks for.
pub const DEEPEST: u8 = 18;

/// Engine strength presets.
#[derive(Clone, Copy, PartialEq, Eq, Debug, Structural)]
pub enum Level {
    Beginner,
    Easy,
    Medium,
    Hard,
    Max,
}

impl Level {
    pub const ALL: [Level; 5] = [Level::Beginner, Level::Easy, Level::Medium, Level::Hard, Level::Max];

    pub open spec fn spec_label(self) -> Seq<char> {
        match self {
            Level::Beginner => "Beginner"@,
            Level::Easy => "Easy"@,
            Level::Medium => "Medium"@,
            Level::Hard => "Hard"@,
            Level::Max => "Max"@,
        }
    }

    pub fn label(self) -> (r: &'static str)
        ensures
            r@ == self.spec_label(),
    {
        match self {
            Level::Beginner => "Beginner",
            Level::Easy => "Easy",
            Level::Medium => "Medium",
            Level::Hard => "Hard",
            Level::Max => "Max",
        }
    }

    pub open spec fn spec_max_depth(self) -> u8 {
        match self {
            Level::Beginner => 1,
            Level::Easy => 2,
            Level::Medium => 4,
            Level::Hard => 6,
            Level::Max => 18,
        }
    }

    /// Maximum iterative-deepening depth.
    #[verifier::when_used_as_spec(spec_max_depth)]
    pub fn max_depth(self) -> (r: u8)
        ensures
            r == self.spec_max_depth(),
            1 <= r <= DEEPEST,
    {
        match self {
            Level::Beginner => 1,
            Level::Easy => 2,
            Level::Medium => 4,
            Level::Hard => 6,
            Level::Max => 18,
        }
    }

    pub open spec fn spec_time_budget_ms(self) -> u64 {
        match self {
            Level::Beginner => 150,
            Level::Easy => 250,
            Level::Medium => 700,
            Level::Hard => 1400,
            Level::Max => 2800,
        }
    }

    /// Wall-clock budget, in milliseconds, that a driver should allow.
    #[verifier::when_used_as_spec(spec_time_budget_ms)]
    pub fn time_budget_ms(self) -> (r: u64)
        ensures
            r == self.spec_time_budget_ms(),
    {
        match self {
            Level::Beginner => 150,
            Level::Easy => 250,
            Level::Medium => 700,
            Level::Hard => 1400,
            Level::Max => 2800,
        }
    }

    pub open spec fn spec_noise_cp(self) -> i32 {
        match self {
            Level::Beginner => 150,
            Level::Easy => 75,
            _ => 0,
        }
    }

    /// Sloppiness: pick randomly among root moves within this margin
    /// (centipawns) of the best. 0 = always the best move found.
    #[verifier::when_used_as_spec(spec_noise_cp)]
    pub fn noise_cp(self) -> (r: i32)
        ensures
            r == self.spec_noise_cp(),
            0 <= r <= 150,
    {
        match self {
            Level::Beginner => 150,
            Level::Easy => 75,
            _ => 0,
        }
    }
}

/// Stable 64-bit hash of a position (Zobrist).
pub fn position_hash(pos: &Position) -> (h: u64)
    ensures
        h == spec_zobrist(pos@),
{
    zobrist(pos)
}

pub open spec fn spec_xorshift(x: u64) -> u64 {
    let a = x ^ (x << 13u64);
    let b = a ^ (a >> 7u64);
    b ^ (b << 17u64)
}

/// One step of the xorshift64 generator: updates `state` and returns it.
pub fn xorshift(state: &mut u64) -> (r: u64)
    ensures
        r == spec_xorshift(*old(state)),
        *final(state) == r,
{
    let mut x = *state;
    x = x ^ (x << 13u64);
    x = x ^ (x >> 7u64);
    x = x ^ (x << 17u64);
    *state = x;
    x
}

/// The generator never reaches the all-zero state from a nonzero one, so
/// a nonzero seed keeps producing fresh values.
pub proof fn lemma_xorshift_nonzero(x: u64)
    by (bit_vector)
    requires
        x != 0,
    ensures
        (x ^ (x << 13u64)) ^ ((x ^ (x << 13u64)) >> 7u64) ^ (((x ^ (x << 13u64)) ^ ((x ^ (x << 13u64)) >> 7u64)) << 17u64) != 0,
{
}

pub open spec fn is_killer(killers: [Option<Move>; 2], m: Move) -> bool {
    killers[0] == Some(m) || killers[1] == Some(m)
}

pub open spec fn spec_order_score(m: Move, tt_move: Option<Move>, killers: [Option<Move>; 2]) -> int {
    if tt_move == Some(m) {
        1_000_000
    } else if m.spec_capture() is Some {
        100_000 + ORDER_WEIGHT[spec_role_index(m.spec_capture()->0)] * 16 - ORDER_WEIGHT[spec_role_index(
            m.spec_role(),
        )]
    } else if m.spec_promotion() == Some(Role::Queen) {
        90_000
    } else if is_killer(killers, m) {
        80_000
    } else {
        0
    }
}

fn same_move(a: Option<Move>, m: Move) -> (b: bool)
    ensures
        b == (a == Some(m)),
{
    match a {
        Some(x) => x == m,
        None => false,
    }
}

/// MVV-LVA-ish ordering score for a move.
pub fn order_score(m: Move, tt_move: Option<Move>, killers: &[Option<Move>; 2]) -> (r: i32)
    ensures
        r == spec_order_score(m, tt_move, *killers),
{
    if same_move(tt_move, m) {
        return 1_000_000;
    }
    if let Some(victim) = m.capture() {
        let attacker = ORDER_WEIGHT[role_index(m.role())];
        return 100_000 + ORDER_WEIGHT[role_index(victim)] * 16 - attacker;
    }
    if m.promotion() == Some(Role::Queen) {
        return 90_000;
    }
    if same_move(killers[0], m) || same_move(killers[1], m) {
        return 80_000;
    }
    0
}

pub open spec fn sorted_desc<T>(s: Seq<(T, i32)>) -> bool {
    forall|i: int, j: int| 0 <= i < j < s.len() ==> s[i].1 >= s[j].1
}

/// Stable sort by descending score. Beside the sorted items it gives, for
/// each of them, its position in `items`: items of equal score keep their
/// order.
fn sort_desc<T: Copy>(items: &Vec<(T, i32)>) -> (res: (Vec<(T, i32)>, Ghost<Seq<int>>))
    ensures
        res.0@.to_multiset() == items@.to_multiset(),
        res.0@.len() == items@.len(),
        sorted_desc(res.0@),
        res.1@.len() == items@.len(),
        forall|i: int| 0 <= i < res.0@.len() ==> 0 <= #[trigger] res.1@[i] < items@.len() && res.0@[i] == items@[res.1@[i]],
        forall|i: int, j: int|
            0 <= i < j < res.0@.len() && res.0@[i].1 == res.0@[j].1 ==> #[trigger] res.1@[i] < #[trigger] res.1@[j],
{
    broadcast use vstd::seq_lib::group_to_multiset_ensures;

    let mut r: Vec<(T, i32)> = Vec::new();
    let ghost mut src: Seq<int> = Seq::empty();
    let mut k: usize = 0;
    while k < items.len()
        invariant
            k <= items@.len(),
            r@.to_multiset() == items@.subrange(0, k as int).to_multiset(),
            r@.len() == k,
            sorted_desc(r@),
            src.len() == k,
            forall|i: int| 0 <= i < k ==> 0 <= #[trigger] src[i] < k && r@[i] == items@[src[i]],
            forall|i: int, j: int| 0 <= i < j < k && r@[i].1 == r@[j].1 ==> #[trigger] src[i] < #[trigger] src[j],
        decreases items@.len() - k,
    {
        let x = items[k];
        let mut p: usize = 0;
        while p < r.len() && r[p].1 >= x.1
            invariant
                p <= r@.len(),
                forall|i: int| 0 <= i < p ==> r@[i].1 >= x.1,
            decreases r@.len() - p,
        {
            p = p + 1;
        }
        proof {
            assert forall|i: int| p <= i < r@.len() implies r@[i].1 < x.1 by {
                if p < r@.len() {
                    assert(r@[p as int].1 < x.1);
                }
            }
            assert(items@.subrange(0, k + 1) =~= items@.subrange(0, k as int).push(x));
        }
        let ghost before = r@;
        let ghost before_src = src;
        r.insert(p, x);
        proof {
            src = before_src.insert(p as int, k as int);
            assert forall|i: int| 0 <= i < k + 1 implies 0 <= #[trigger] src[i] < k + 1 && r@[i] == items@[src[i]] by {
                if i > p {
                    assert(src[i] == before_src[i - 1] && r@[i] == before[i - 1]);
                } else if i < p {
                    assert(src[i] == before_src[i] && r@[i] == before[i]);
                }
            }
            assert forall|i: int, j: int| 0 <= i < j < k + 1 && r@[i].1 == r@[j].1 implies #[trigger] src[i] < #[trigger] src[j] by {
                if i < p && j < p {
                    assert(src[i] == before_src[i] && src[j] == before_src[j]);
                    assert(r@[i] == before[i] && r@[j] == before[j]);
                } else if i < p && j == p {
                    assert(src[i] == before_src[i]);
                } else if i < p {
                    assert(src[i] == before_src[i] && src[j] == before_src[j - 1]);
                    assert(r@[i] == before[i] && r@[j] == before[j - 1]);
                } else if i == p {
                    assert(r@[j] == before[j - 1]);
                } else {
                    assert(src[i] == before_src[i - 1] && src[j] == before_src[j - 1]);
                    assert(r@[i] == before[i - 1] && r@[j] == before[j - 1]);
                }
            }
            assert(r@ == before.insert(p as int, x));
            vstd::seq_lib::to_multiset_insert(before, p as int, x);
            vstd::seq_lib::to_multiset_build(items@.subrange(0, k as int), x);
            assert forall|i: int, j: int| 0 <= i < j < r@.len() implies r@[i].1 >= r@[j].1 by {
                if i < p && j < p {
                    assert(r@[i] == before[i] && r@[j] == before[j]);
                } else if i < p && j == p {
                } else if i < p {
                    assert(r@[j] == before[j - 1]);
                    assert(r@[i] == before[i]);
                } else if i == p {
                    assert(r@[j] == before[j - 1]);
                } else {
                    assert(r@[j] == before[j - 1] && r@[i] == before[i - 1]);
                }
            }
        }
        k = k + 1;
    }
    assert(items@.subrange(0, items@.len() as int) =~= items@);
    (r, Ghost(src))
}

/// Candidate move indices paired with the ordering scores of their moves.
fn scored_indices(moves: &Vec<Move>, cands: &Vec<usize>, tt_move: Option<Move>, killers: &[Option<Move>; 2]) -> (r: Vec<(usize, i32)>)
    requires
        forall|i: int| 0 <= i < cands@.len() ==> #[trigger] cands@[i] < moves@.len(),
    ensures
        r@.len() == cands@.len(),
        forall|i: int| 0 <= i < r@.len() ==> (#[trigger] r@[i]).0 == cands@[i] && r@[i].1 == spec_order_score(moves@[cands@[i] as int], tt_move, *killers),
{
    let mut r: Vec<(usize, i32)> = Vec::new();
    let mut i: usize = 0;
    while i < cands.len()
        invariant
            i <= cands@.len(),
            r@.len() == i,
            forall|k: int| 0 <= k < cands@.len() ==> #[trigger] cands@[k] < moves@.len(),
            forall|k: int| 0 <= k < i ==> (#[trigger] r@[k]).0 == cands@[k] && r@[k].1 == spec_order_score(moves@[cands@[k] as int], tt_move, *killers),
        decreases cands@.len() - i,
    {
        let c = cands[i];
        r.push((c, order_score(moves[c], tt_move, killers)));
        i = i + 1;
    }
    r
}

/// First components of a sequence of pairs.
pub open spec fn firsts<T>(s: Seq<(T, i32)>) -> Seq<T> {
    s.map_values(|p: (T, i32)| p.0)
}

fn firsts_of(pairs: &Vec<(usize, i32)>) -> (r: Vec<usize>)
    ensures
        r@ == firsts(pairs@),
{
    let mut r: Vec<usize> = Vec::new();
    let mut i: usize = 0;
    while i < pairs.len()
        invariant
            i <= pairs@.len(),
            r@ == firsts(pairs@.subrange(0, i as int)),
        decreases pairs@.len() - i,
    {
        r.push(pairs[i].0);
        proof {
            assert(pairs@.subrange(0, i + 1) =~= pairs@.subrange(0, i as int).push(pairs@[i as int]));
            assert(firsts(pairs@.subrange(0, i + 1)) =~= firsts(pairs@.subrange(0, i as int)).push(pairs@[i as int].0));
        }
        i = i + 1;
    }
    assert(pairs@.subrange(0, pairs@.len() as int) =~= pairs@);
    r
}

/// Index into a best-first `pool` of the move to play: the first without
/// noise; with noise, a pseudo-random one among those scored within `noise`
/// of the best.
fn pick_index(rng: &mut u64, noise: i32, pool: &Vec<(usize, i32)>) -> (j: usize)
    requires
        pool@.len() > 0,
        0 <= noise <= 150,
        forall|i: int| 0 <= i < pool@.len() ==> bounded((#[trigger] pool@[i]).1 as int),
    ensures
        j < pool@.len(),
        noise == 0 ==> j == 0,
        pool@[j as int].1 >= pool@[0].1 - noise,
{
    if noise == 0 {
        return 0;
    }
    let best = pool[0].1;
    let mut cands: Vec<usize> = Vec::new();
    let mut i: usize = 0;
    while i < pool.len()
        invariant
            i <= pool@.len(),
            pool@.len() > 0,
            best == pool@[0].1,
            0 < noise <= 150,
            bounded(best as int),
            forall|k: int| 0 <= k < pool@.len() ==> bounded((#[trigger] pool@[k]).1 as int),
            i > 0 ==> cands@.len() > 0,
            forall|k: int| 0 <= k < cands@.len() ==> #[trigger] cands@[k] < i && pool@[cands@[k] as int].1 >= best - noise,
        decreases pool@.len() - i,
    {
        if pool[i].1 >= best - noise {
            cands.push(i);
        }
        i = i + 1;
    }
    let pick = (xorshift(rng) % cands.len() as u64) as usize;
    cands[pick]
}

/// A pick from a best-first permutation of `pool` is a pick from `pool`.
proof fn lemma_pick_from_permutation(sorted: Seq<(usize, i32)>, pool: Seq<(usize, i32)>, moves: Seq<Move>, noise: i32, j: int)
    requires
        sorted.to_multiset() == pool.to_multiset(),
        sorted_desc(sorted),
        0 <= j < sorted.len(),
        noise == 0 ==> j == 0,
        sorted[j].1 >= sorted[0].1 - noise,
    ensures
        picked_from(Some(moves[sorted[j].0 as int]), pool, moves, noise),
{
    broadcast use vstd::seq_lib::group_to_multiset_ensures;

    lemma_sorted_member(sorted, pool, j);
    let t = choose|t: int| 0 <= t < pool.len() && pool[t] == sorted[j];
    assert forall|i: int| 0 <= i < pool.len() implies #[trigger] pool[i].1 <= sorted[0].1 by {
        lemma_sorted_covers(sorted, pool, i);
        let k = choose|k: int| 0 <= k < sorted.len() && sorted[k] == pool[i];
        if k > 0 {
            assert(sorted[0].1 >= sorted[k].1);
        }
    }
    assert(pool[t].0 == sorted[j].0);
    assert forall|i: int| 0 <= i < pool.len() implies pool[t].1 >= #[trigger] pool[i].1 - noise by {
        assert(pool[i].1 <= sorted[0].1);
    }
}

/// Everything in a sorted copy comes from the unsorted input.
proof fn lemma_sorted_member<T>(sorted: Seq<(T, i32)>, orig: Seq<(T, i32)>, i: int)
    requires
        sorted.to_multiset() == orig.to_multiset(),
        0 <= i < sorted.len(),
    ensures
        exists|j: int| 0 <= j < orig.len() && orig[j] == sorted[i],
{
    broadcast use vstd::seq_lib::group_to_multiset_ensures;

    assert(sorted.contains(sorted[i]));
    assert(orig.to_multiset().count(sorted[i]) > 0);
    assert(orig.contains(sorted[i]));
}

/// Everything in the unsorted input is somewhere in a sorted copy.
proof fn lemma_sorted_covers<T>(sorted: Seq<(T, i32)>, orig: Seq<(T, i32)>, j: int)
    requires
        sorted.to_multiset() == orig.to_multiset(),
        0 <= j < orig.len(),
    ensures
        exists|i: int| 0 <= i < sorted.len() && sorted[i] == orig[j],
{
    broadcast use vstd::seq_lib::group_to_multiset_ensures;

    assert(orig.contains(orig[j]));
    assert(sorted.to_multiset().count(orig[j]) > 0);
    assert(sorted.contains(orig[j]));
}

/// Candidate indices ordered best-first by the [`order_score`] of their
/// moves (stable).
fn order_moves(moves: &Vec<Move>, cands: &Vec<usize>, tt_move: Option<Move>, killers: &[Option<Move>; 2]) -> (r: Vec<usize>)
    requires
        forall|i: int| 0 <= i < cands@.len() ==> #[trigger] cands@[i] < moves@.len(),
    ensures
        r@.len() == cands@.len(),
        forall|i: int| 0 <= i < r@.len() ==> cands@.contains(#[trigger] r@[i]),
        forall|i: int| 0 <= i < r@.len() ==> #[trigger] r@[i] < moves@.len(),
        forall|i: int, j: int| 0 <= i < j < r@.len() ==> spec_order_score(moves@[#[trigger] r@[i] as int], tt_move, *killers)
            >= spec_order_score(moves@[#[trigger] r@[j] as int], tt_move, *killers),
        forall|t: int| 0 <= t < cands@.len() ==> r@.contains(#[trigger] cands@[t]),
        // Increasing candidates of equal order score stay increasing.
        (forall|a: int, b: int| 0 <= a < b < cands@.len() ==> #[trigger] cands@[a] < #[trigger] cands@[b]) ==> forall|i: int, j: int|
            0 <= i < j < r@.len() && spec_order_score(moves@[#[trigger] r@[i] as int], tt_move, *killers)
                == spec_order_score(moves@[#[trigger] r@[j] as int], tt_move, *killers) ==> r@[i] < r@[j],
{
    let scored = scored_indices(moves, cands, tt_move, killers);
    let (sorted, src) = sort_desc(&scored);
    let r = firsts_of(&sorted);
    proof {
        assert forall|i: int| 0 <= i < r@.len() implies cands@.contains(#[trigger] r@[i]) && r@[i] < moves@.len()
            && sorted@[i].1 == spec_order_score(moves@[r@[i] as int], tt_move, *killers) by {
            lemma_sorted_member(sorted@, scored@, i);
            let j = choose|j: int| 0 <= j < scored@.len() && scored@[j] == sorted@[i];
            assert(scored@[j].0 == cands@[j]);
        }
        assert forall|i: int, j: int| 0 <= i < j < r@.len() implies spec_order_score(moves@[#[trigger] r@[i] as int], tt_move, *killers)
            >= spec_order_score(moves@[#[trigger] r@[j] as int], tt_move, *killers) by {
            assert(sorted@[i].1 >= sorted@[j].1);
        }
        assert forall|t: int| 0 <= t < cands@.len() implies r@.contains(#[trigger] cands@[t]) by {
            lemma_sorted_covers(sorted@, scored@, t);
            let i = choose|i: int| 0 <= i < sorted@.len() && sorted@[i] == scored@[t];
            assert(r@[i] == cands@[t]);
        }
        if forall|a: int, b: int| 0 <= a < b < cands@.len() ==> #[trigger] cands@[a] < #[trigger] cands@[b] {
            assert forall|i: int, j: int|
                0 <= i < j < r@.len() && spec_order_score(moves@[#[trigger] r@[i] as int], tt_move, *killers)
                    == spec_order_score(moves@[#[trigger] r@[j] as int], tt_move, *killers) implies r@[i] < r@[j] by {
                assert(sorted@[i] == scored@[src@[i]] && sorted@[j] == scored@[src@[j]]);
                assert(r@[i] == sorted@[i].0 && r@[j] == sorted@[j].0);
                assert(src@[i] < src@[j]);
                assert(cands@[src@[i]] < cands@[src@[j]]);
            }
        }
    }
    r
}

/// The indices `0..n`.
fn all_indices(n: usize) -> (r: Vec<usize>)
    ensures
        r@.len() == n,
        forall|i: int| 0 <= i < n ==> #[trigger] r@[i] == i,
{
    let mut r: Vec<usize> = Vec::new();
    let mut i: usize = 0;
    while i < n
        invariant
            i <= n,
            r@.len() == i,
            forall|k: int| 0 <= k < i ==> #[trigger] r@[k] == k,
        decreases n - i,
    {
        r.push(i);
        i = i + 1;
    }
    r
}

/// Positions, in increasing order, of the capturing moves among the first
/// `n` of `moves`.
pub open spec fn capture_positions(moves: Seq<Move>, n: int) -> Seq<usize>
    decreases n,
{
    if n <= 0 {
        Seq::empty()
    } else {
        let rest = capture_positions(moves, n - 1);
        if is_capture(moves[n - 1]) {
            rest.push((n - 1) as usize)
        } else {
            rest
        }
    }
}

/// Indices of the capturing moves, in order.
fn capture_indices(moves: &Vec<Move>) -> (r: Vec<usize>)
    ensures
        r@ == capture_positions(moves@, moves@.len() as int),
        forall|i: int| 0 <= i < r@.len() ==> #[trigger] r@[i] < moves@.len(),
        forall|i: int| 0 <= i < r@.len() ==> is_capture(moves@[#[trigger] r@[i] as int]),
{
    let mut r: Vec<usize> = Vec::new();
    let mut i: usize = 0;
    while i < moves.len()
        invariant
            i <= moves@.len(),
            r@ == capture_positions(moves@, i as int),
            forall|k: int| 0 <= k < r@.len() ==> #[trigger] r@[k] < i,
            forall|k: int| 0 <= k < r@.len() ==> is_capture(moves@[#[trigger] r@[k] as int]),
        decreases moves@.len() - i,
    {
        if moves[i].capture().is_some() {
            r.push(i);
        }
        i = i + 1;
    }
    r
}

const FLAG_EXACT: u8 = 0;

const FLAG_LOWER: u8 = 1;

const FLAG_UPPER: u8 = 2;

#[derive(Clone, Copy)]
struct TtEntry {
    key: u64,
    depth: i8,
    flag: u8,
    score: i32,
    best: Option<Move>,
}

/// A chunked, resumable game-tree search for one position.
pub struct Search {
    root: Position,
    /// Legal moves of the root, in the rules engine's order.
    moves: Vec<Move>,
    max_depth: u8,
    noise: i32,
    rng: u64,
    /// Zobrist keys of the actual game so far (draw-by-repetition awareness).
    prior: Vec<u64>,
    /// Zobrist keys along the current search line.
    path: Vec<u64>,
    tt: Vec<Option<TtEntry>>,
    killers: Vec<[Option<Move>; 2]>,
    nodes: u64,
    node_limit: u64,
    aborted: bool,
    // Iterative-deepening state.
    depth: u8,
    /// Root moves (indices into `moves`) in the order they are searched.
    root_moves: Vec<usize>,
    iter_scores: Vec<Option<i32>>,
    iter_best: i32,
    idx: usize,
    retries: u32,
    /// Scores of the last fully completed iteration, sorted best-first.
    last_scores: Vec<(usize, i32)>,
    depth_completed: u8,
    chosen: Option<Move>,
    done: bool,
}

/// How a choice relates to a pool of `(root index, score)` pairs: without
/// noise it is a best-scored move of the pool; with noise some move of the
/// pool scored within `noise` of every other.
pub open spec fn picked_from(chosen: Option<Move>, pool: Seq<(usize, i32)>, moves: Seq<Move>, noise: i32) -> bool {
    pool.len() > 0 ==> {
        &&& (noise == 0 ==> exists|j: int|
            0 <= j < pool.len() && chosen == Some(moves[pool[j].0 as int]) && forall|i: int|
                0 <= i < pool.len() ==> #[trigger] pool[i].1 <= pool[j].1)
        &&& exists|j: int|
            0 <= j < pool.len() && chosen == Some(moves[pool[j].0 as int]) && forall|i: int|
                0 <= i < pool.len() ==> pool[j].1 >= #[trigger] pool[i].1 - noise
    }
}

/// When a stepped search stops: it has completed its deepest iteration,
/// found a mate score (within 200 of [`MATE`]), or given up after more than
/// six chunks in a row ran out of budget inside one root move.
pub open spec fn search_complete(s: Search) -> bool {
    ||| s.spec_depth_completed() == s.spec_max_depth()
    ||| (s.spec_last_scores().len() > 0 && s.spec_last_scores()[0].1 >= MATE - 200)
    ||| s.spec_retries() > 6
}

/// How the final move relates to the scores of the last completed
/// iteration (best first): without noise it is the best-scored move; with
/// noise it is some move scored within `noise` of the best.
pub open spec fn picked(chosen: Option<Move>, scores: Seq<(Move, i32)>, noise: i32) -> bool {
    scores.len() > 0 ==> {
        &&& (noise == 0 ==> chosen == Some(scores[0].0))
        &&& exists|k: int| 0 <= k < scores.len() && chosen == Some(scores[k].0) && scores[k].1 >= scores[0].1 - noise
    }
}

pub open spec fn bounded(s: int) -> bool {
    -SCORE_BOUND <= s <= SCORE_BOUND
}

/// Some position with legal moves has the Zobrist key `key`.
pub open spec fn key_of_playable(key: u64) -> bool {
    exists|f: Seq<char>| #[trigger] spec_zobrist(f) == key && spec_legal_moves(f).len() > 0
}

/// `fen` is checkmate, and the search sees it as such when it reaches it
/// along `path` in a game with history `prior`: neither the fifty-move
/// rule, dead material nor a repetition makes it a draw, and no position
/// with legal moves shares its Zobrist key.
pub open spec fn cleanly_mated(fen: Seq<char>, path: Seq<u64>, prior: Seq<u64>) -> bool {
    &&& spec_is_check(fen)
    &&& spec_legal_moves(fen).len() == 0
    &&& spec_halfmoves(fen) < 100
    &&& !spec_is_insufficient_material(fen)
    &&& !spec_repetition(path, prior, spec_zobrist(fen), spec_halfmoves(fen) as int)
    &&& !key_of_playable(spec_zobrist(fen))
}

/// The score a root move into `fen` gets from the rules alone, in a game
/// with history `prior`: a draw by the fifty-move rule, dead material or a
/// repetition of the game scores 0, and a checkmate the search sees as
/// such scores mate in one.
pub open spec fn root_move_value(fen: Seq<char>, prior: Seq<u64>) -> Option<i32> {
    if spec_halfmoves(fen) >= 100 || spec_is_insufficient_material(fen) || spec_repetition(
        Seq::empty(),
        prior,
        spec_zobrist(fen),
        spec_halfmoves(fen) as int,
    ) {
        Some(0i32)
    } else if cleanly_mated(fen, Seq::empty(), prior) {
        Some((MATE - 1) as i32)
    } else {
        None
    }
}

/// The static evaluation of `fen`, and of every position reached from it
/// by legal moves before the search's ply limit, lies within `MATE`.
pub open spec fn evals_within_mate(fen: Seq<char>, ply: int) -> bool
    decreases MAX_PLY - ply,
{
    let e = spec_evaluate(spec_board(fen), spec_turn(fen));
    &&& -MATE <= e <= MATE
    &&& if ply < MAX_PLY {
        forall|i: int|
            0 <= i < spec_legal_moves(fen).len() ==> evals_within_mate(#[trigger] spec_play_nth(fen, i), ply + 1)
    } else {
        true
    }
}

impl Search {
    /// Legal moves of the searched position.
    pub closed spec fn legal(&self) -> Seq<Move> {
        spec_legal_moves(self.root@)
    }

    /// FEN of the searched position.
    pub closed spec fn root_fen(&self) -> Seq<char> {
        self.root@
    }

    pub closed spec fn is_done(&self) -> bool {
        self.done
    }

    pub closed spec fn spec_chosen(&self) -> Option<Move> {
        self.chosen
    }

    pub closed spec fn spec_nodes(&self) -> u64 {
        self.nodes
    }

    /// Margin (centipawns) within which the final choice may fall short of
    /// the best score.
    pub closed spec fn spec_noise(&self) -> i32 {
        self.noise
    }

    /// Deepest iteration this search runs.
    pub closed spec fn spec_max_depth(&self) -> u8 {
        self.max_depth
    }

    /// Zobrist keys of the game positions that count for repetition.
    pub closed spec fn spec_prior(&self) -> Seq<u64> {
        self.prior@
    }

    /// Consecutive chunks that ran out of budget inside one root move.
    pub closed spec fn spec_retries(&self) -> u32 {
        self.retries
    }

    pub closed spec fn spec_depth_completed(&self) -> u8 {
        self.depth_completed
    }

    /// `(move, score)` of the last completed iteration, best first.
    pub closed spec fn spec_last_scores(&self) -> Seq<(Move, i32)> {
        self.last_scores@.map_values(|p: (usize, i32)| (self.moves@[p.0 as int], p.1))
    }

    /// Root moves in the order the next iteration searches them.
    pub closed spec fn spec_root_moves(&self) -> Seq<Move> {
        self.root_moves@.map_values(|i: usize| self.moves@[i as int])
    }

    /// The same root moves, as positions among the legal moves.
    pub closed spec fn spec_root_order(&self) -> Seq<usize> {
        self.root_moves@
    }

    /// Well-formedness kept by every operation.
    pub closed spec fn wf(&self) -> bool {
        &&& self.wf_base()
        &&& !self.done ==> self.retries <= 6
        &&& !self.done ==> self.idx < self.root_moves@.len()
        &&& !self.done ==> self.depth_completed < self.depth
        &&& !self.done ==> !(self.last_scores@.len() > 0 && self.last_scores@[0].1 >= MATE - 200)
    }

    spec fn wf_base(&self) -> bool {
        &&& self.wf_core()
        // This iteration scores root moves into draws and checkmates as
        // the rules say.
        &&& !self.done ==> forall|i: int|
            0 <= i < self.idx && root_move_value(spec_play_nth(self.root@, #[trigger] self.root_moves@[i] as int), self.prior@)
                is Some ==> self.iter_scores@[i] == root_move_value(
                spec_play_nth(self.root@, self.root_moves@[i] as int),
                self.prior@,
            )
    }

    spec fn wf_core(&self) -> bool {
        let n = self.moves@.len();
        &&& self.moves@ == spec_legal_moves(self.root@)
        &&& self.tt@.len() == TT_SIZE
        &&& self.killers@.len() == MAX_PLY
        &&& forall|i: int|
            0 <= i < self.tt@.len() ==> (#[trigger] self.tt@[i] matches Some(e) ==> -(MATE - 500)
                < e.score < MATE - 500 && key_of_playable(e.key))
        &&& 1 <= self.max_depth <= DEEPEST
        &&& 1 <= self.depth <= self.max_depth
        &&& self.depth_completed <= self.depth
        &&& 0 <= self.noise <= 150
        &&& self.root_moves@.len() == n
        &&& forall|i: int| 0 <= i < self.root_moves@.len() ==> #[trigger] self.root_moves@[i] < n
        &&& forall|k: usize| k < n ==> #[trigger] self.root_moves@.contains(k)
        &&& self.iter_scores@.len() == n
        &&& self.idx <= n
        &&& !self.done ==> self.chosen is None
        &&& forall|i: int| 0 <= i < self.idx ==> (#[trigger] self.iter_scores@[i]) is Some
        &&& forall|i: int|
            0 <= i < self.iter_scores@.len() ==> (#[trigger] self.iter_scores@[i] matches Some(s)
                ==> bounded(s as int))
        &&& bounded(self.iter_best as int)
        &&& forall|i: int|
            0 <= i < self.last_scores@.len() ==> (#[trigger] self.last_scores@[i]).0 < n
                && bounded(self.last_scores@[i].1 as int)
        &&& sorted_desc(self.last_scores@)
        &&& (self.chosen matches Some(m) ==> self.moves@.contains(m))
        &&& (self.done && n > 0 ==> self.chosen is Some)
        &&& self.nodes <= self.node_limit + 1
        &&& (self.done ==> picked(self.chosen, self.spec_last_scores(), self.noise))
        // The last completed iteration scored root moves into draws and
        // checkmates as the rules say.
        &&& forall|t: int|
            0 <= t < self.last_scores@.len() && root_move_value(
                spec_play_nth(self.root@, (#[trigger] self.last_scores@[t]).0 as int),
                self.prior@,
            ) is Some ==> self.last_scores@[t].1 == root_move_value(
                spec_play_nth(self.root@, self.last_scores@[t].0 as int),
                self.prior@,
            )->0
        &&& self.last_scores@.len() > 0 ==> self.root_moves@ == firsts(self.last_scores@)
    }

    /// The transposition table holds an entry for `key`.
    spec fn tt_knows(&self, key: u64) -> bool {
        self.tt@[((key as usize) & 131071usize) as int] matches Some(e) && e.key == key
    }

    /// The table holds entries only for keys of positions with legal moves.
    proof fn lemma_unplayable_unknown(&self, key: u64)
        requires
            self.wf_base(),
            !key_of_playable(key),
        ensures
            !self.tt_knows(key),
    {
        lemma_mask_below(key as usize);
        let idx = ((key as usize) & 131071usize) as int;
        if let Some(e) = self.tt@[idx] {
            assert(self.tt@[idx] matches Some(e) ==> key_of_playable(e.key));
        }
    }

    /// Fields that the tree search below the root leaves alone.
    spec fn same_frame(&self, other: &Search) -> bool {
        &&& self.root@ == other.root@
        &&& self.moves@ == other.moves@
        &&& self.max_depth == other.max_depth
        &&& self.noise == other.noise
        &&& self.rng == other.rng
        &&& self.prior@ == other.prior@
        &&& self.node_limit == other.node_limit
        &&& self.depth == other.depth
        &&& self.root_moves@ == other.root_moves@
        &&& self.iter_scores@ == other.iter_scores@
        &&& self.iter_best == other.iter_best
        &&& self.idx == other.idx
        &&& self.retries == other.retries
        &&& self.last_scores@ == other.last_scores@
        &&& self.depth_completed == other.depth_completed
        &&& self.chosen == other.chosen
        &&& self.done == other.done
    }
}

/// Whether `key` occurs among the last `relevant` keys of the search line
/// followed by the game's own history (the line first, newest first).
pub open spec fn spec_repetition(path: Seq<u64>, prior: Seq<u64>, key: u64, relevant: int) -> bool {
    let n1 = if relevant < path.len() { relevant } else { path.len() as int };
    let rest = if relevant > path.len() { relevant - path.len() } else { 0 };
    let n2 = if rest < prior.len() { rest } else { prior.len() as int };
    (exists|j: int| path.len() - n1 <= j < path.len() && path[j] == key) || (exists|j: int|
        prior.len() - n2 <= j < prior.len() && prior[j] == key)
}

fn occurs_in_tail(keys: &Vec<u64>, n: usize, key: u64) -> (b: bool)
    requires
        n <= keys@.len(),
    ensures
        b == (exists|j: int| keys@.len() - n <= j < keys@.len() && keys@[j] == key),
{
    let mut j: usize = keys.len() - n;
    while j < keys.len()
        invariant
            keys@.len() - n <= j <= keys@.len(),
            forall|k: int| keys@.len() - n <= k < j ==> keys@[k] != key,
        decreases keys@.len() - j,
    {
        if keys[j] == key {
            return true;
        }
        j = j + 1;
    }
    false
}

impl Search {
    fn is_repetition(&self, key: u64, relevant: usize) -> (b: bool)
        ensures
            b == spec_repetition(self.path@, self.prior@, key, relevant as int),
    {
        let plen = self.path.len();
        let n1 = if relevant < plen { relevant } else { plen };
        if occurs_in_tail(&self.path, n1, key) {
            return true;
        }
        let rest = relevant.saturating_sub(plen);
        let n2 = if rest < self.prior.len() { rest } else { self.prior.len() };
        occurs_in_tail(&self.prior, n2, key)
    }

    fn quiescence(&mut self, pos: &Position, alpha: i32, beta: i32, ply: usize) -> (r: i32)
        requires
            old(self).wf(),
            !old(self).aborted,
            old(self).nodes <= old(self).node_limit,
            old(self).node_limit < u64::MAX,
            bounded(alpha as int),
            bounded(beta as int),
        ensures
            final(self).wf(),
            final(self).same_frame(old(self)),
            final(self).path@ == old(self).path@,
            final(self).nodes > old(self).nodes,
            final(self).aborted <==> final(self).nodes > final(self).node_limit,
            final(self).aborted ==> r == 0,
            bounded(r as int),
            // Checkmated: the mate score, nearer mates scoring higher.
            !final(self).aborted && ply < MAX_PLY && spec_is_check(pos@) && spec_legal_moves(pos@).len() == 0
                ==> r == -(MATE - ply),
            // Not in check: never below the stand-pat evaluation, and exactly
            // the evaluation once that reaches `beta`.
            !final(self).aborted && !spec_is_check(pos@) ==> r >= spec_evaluate(spec_board(pos@), spec_turn(pos@)),
            !final(self).aborted && !spec_is_check(pos@) && spec_evaluate(spec_board(pos@), spec_turn(pos@)) >= beta
                ==> r == spec_evaluate(spec_board(pos@), spec_turn(pos@)),
            // With every evaluation below within the mate score, so is the result.
            !final(self).aborted && evals_within_mate(pos@, ply as int) ==> -MATE <= r <= MATE,
        decreases MAX_PLY - ply,
    {
        self.nodes = self.nodes + 1;
        if self.nodes > self.node_limit {
            self.aborted = true;
            return 0;
        }
        if ply >= MAX_PLY {
            return evaluate(pos);
        }
        let mut alpha = alpha;
        let in_check = is_check(pos);
        let moves = legal_moves(pos);
        let cands: Vec<usize>;
        let mut best: i32;
        if in_check {
            // In check: search every evasion (stand-pat would be illegal).
            if moves.len() == 0 {
                return -(MATE - ply as i32);
            }
            best = -INF;
            cands = all_indices(moves.len());
        } else {
            let stand_pat = evaluate(pos);
            if stand_pat >= beta {
                return stand_pat;
            }
            if stand_pat > alpha {
                alpha = stand_pat;
            }
            best = stand_pat;
            // The legal captures, in the order of the legal moves.
            cands = capture_indices(&moves);
        }
        let order = order_moves(&moves, &cands, None, &[None, None]);
        let mut i: usize = 0;
        while i < order.len()
            invariant
                self.wf(),
                self.same_frame(old(self)),
                self.path@ == old(self).path@,
                self.nodes > old(self).nodes,
                !self.aborted,
                self.nodes <= self.node_limit,
                self.node_limit < u64::MAX,
                ply < MAX_PLY,
                i <= order@.len(),
                moves@ == spec_legal_moves(pos@),
                forall|k: int| 0 <= k < order@.len() ==> #[trigger] order@[k] < moves@.len(),
                bounded(alpha as int),
                bounded(beta as int),
                bounded(best as int),
                !in_check ==> best >= spec_evaluate(spec_board(pos@), spec_turn(pos@)),
                in_check == spec_is_check(pos@),
                in_check ==> order@.len() == moves@.len() && moves@.len() > 0,
                evals_within_mate(pos@, ply as int) ==> (-MATE <= best <= MATE || (best == -INF && i == 0 && in_check)),
            ensures
                i == order@.len() || (evals_within_mate(pos@, ply as int) ==> -MATE <= best <= MATE),
            decreases order@.len() - i,
        {
            let child = play_nth(pos, order[i]);
            proof {
                if evals_within_mate(pos@, ply as int) {
                    assert(evals_within_mate(spec_play_nth(pos@, order@[i as int] as int), ply + 1));
                }
            }
            let score = -self.quiescence(&child, -beta, -alpha, ply + 1);
            if self.aborted {
                return 0;
            }
            if score > best {
                best = score;
                if score > alpha {
                    alpha = score;
                }
            }
            if alpha >= beta {
                break;
            }
            i = i + 1;
        }
        best
    }

    fn alpha_beta(&mut self, pos: &Position, depth: i32, alpha: i32, beta: i32, ply: usize) -> (r: i32)
        requires
            old(self).wf(),
            !old(self).aborted,
            old(self).nodes <= old(self).node_limit,
            old(self).node_limit < u64::MAX,
            0 <= depth < DEEPEST,
            bounded(alpha as int),
            bounded(beta as int),
        ensures
            final(self).wf(),
            final(self).same_frame(old(self)),
            final(self).path@ == old(self).path@,
            final(self).nodes > old(self).nodes,
            final(self).aborted <==> final(self).nodes > final(self).node_limit,
            final(self).aborted ==> r == 0,
            bounded(r as int),
            // Fifty-move rule and dead material score as draws.
            ply < MAX_PLY && (spec_halfmoves(pos@) >= 100 || spec_is_insufficient_material(pos@)) ==> r == 0,
            // So does a repetition of a position of the search line or of the
            // game since the last irreversible move.
            ply < MAX_PLY && spec_repetition(old(self).path@, old(self).prior@, spec_zobrist(pos@), spec_halfmoves(pos@) as int)
                ==> r == 0,
            // Without a draw and a table entry for the position, a position
            // without legal moves scores as checkmate (nearer mates scoring
            // higher) or, searched to depth, as stalemate.
            ply < MAX_PLY && !final(self).aborted && spec_halfmoves(pos@) < 100 && !spec_is_insufficient_material(pos@)
                && !spec_repetition(old(self).path@, old(self).prior@, spec_zobrist(pos@), spec_halfmoves(pos@) as int)
                && !old(self).tt_knows(spec_zobrist(pos@)) && spec_legal_moves(pos@).len() == 0 ==> {
                &&& spec_is_check(pos@) ==> r == -(MATE - ply)
                &&& !spec_is_check(pos@) && depth >= 1 ==> r == 0
            },
            // A move into checkmate is found: searched to depth, without a
            // draw and a table entry for the position, the result reaches the
            // mate-in-one score unless the window cuts the search off.
            ply + 1 < MAX_PLY && !final(self).aborted && depth >= 1 && spec_halfmoves(pos@) < 100
                && !spec_is_insufficient_material(pos@)
                && !spec_repetition(old(self).path@, old(self).prior@, spec_zobrist(pos@), spec_halfmoves(pos@) as int)
                && !old(self).tt_knows(spec_zobrist(pos@)) && (exists|k: int|
                0 <= k < spec_legal_moves(pos@).len() && cleanly_mated(
                    #[trigger] spec_play_nth(pos@, k),
                    old(self).path@.push(spec_zobrist(pos@)),
                    old(self).prior@,
                )) ==> r >= MATE - (ply + 1) || r >= beta || alpha >= beta,
            // With every evaluation below within the mate score, so is the result.
            !final(self).aborted && evals_within_mate(pos@, ply as int) ==> -MATE <= r <= MATE,
        decreases MAX_PLY - ply,
    {
        self.nodes = self.nodes + 1;
        if self.nodes > self.node_limit {
            self.aborted = true;
            return 0;
        }
        if ply >= MAX_PLY {
            return evaluate(pos);
        }
        // Draw detection: fifty-move rule, dead material, repetition of any
        // position along the search line or the played game.
        if halfmoves(pos) >= 100 || is_insufficient_material(pos) {
            return 0;
        }
        let key = position_hash(pos);
        let relevant = halfmoves(pos) as usize;
        if self.is_repetition(key, relevant) {
            return 0;
        }
        let in_check = is_check(pos);
        let depth = if in_check { depth + 1 } else { depth };  // check extension
        if depth <= 0 {
            return self.quiescence(pos, alpha, beta, ply);
        }
        // Transposition table probe.
        let tt_idx = (key as usize) & (TT_SIZE - 1);
        proof {
            lemma_mask_below(key as usize);
        }
        let mut tt_move: Option<Move> = None;
        if let Some(entry) = self.tt[tt_idx] {
            if entry.key == key {
                tt_move = entry.best;
                if entry.depth as i32 >= depth {
                    if entry.flag == FLAG_EXACT {
                        return entry.score;
                    } else if entry.flag == FLAG_LOWER && entry.score >= beta {
                        return entry.score;
                    } else if entry.flag == FLAG_UPPER && entry.score <= alpha {
                        return entry.score;
                    }
                }
            }
        }
        let moves = legal_moves(pos);
        if moves.len() == 0 {
            return if in_check {
                -(MATE - ply as i32)
            } else {
                0
            };
        }
        let killers = self.killers[ply];
        let every = all_indices(moves.len());
        let order = order_moves(&moves, &every, tt_move, &killers);
        assert forall|t: usize| t < moves@.len() implies #[trigger] order@.contains(t) by {
            assert(every@[t as int] == t);
        }

        let alpha_orig = alpha;
        let mut alpha = alpha;
        let mut best_score = -INF;
        let mut best_move: Option<Move> = None;
        self.path.push(key);
        let mut i: usize = 0;
        while i < order.len()
            invariant
                self.wf(),
                self.same_frame(old(self)),
                self.path@ == old(self).path@.push(key),
                self.nodes > old(self).nodes,
                !self.aborted,
                self.nodes <= self.node_limit,
                self.node_limit < u64::MAX,
                ply < MAX_PLY,
                1 <= depth <= DEEPEST,
                i <= order@.len(),
                moves@ == spec_legal_moves(pos@),
                forall|k: int| 0 <= k < order@.len() ==> #[trigger] order@[k] < moves@.len(),
                bounded(alpha as int),
                bounded(beta as int),
                bounded(best_score as int),
                key == spec_zobrist(pos@),
                order@.len() == moves@.len(),
                forall|t: usize| t < moves@.len() ==> #[trigger] order@.contains(t),
                alpha >= alpha_orig,
                alpha == alpha_orig || alpha == best_score,
                ply + 1 < MAX_PLY ==> forall|k: int|
                    0 <= k < i && cleanly_mated(
                        spec_play_nth(pos@, #[trigger] order@[k] as int),
                        old(self).path@.push(key),
                        old(self).prior@,
                    ) ==> best_score >= MATE - (ply + 1),
                evals_within_mate(pos@, ply as int) ==> (-MATE <= best_score <= MATE || (best_score == -INF && i == 0)),
            ensures
                i == order@.len() || (alpha >= beta && (evals_within_mate(pos@, ply as int) ==> -MATE <= best_score <= MATE)),
            decreases order@.len() - i,
        {
            let m = moves[order[i]];
            let child = play_nth(pos, order[i]);
            proof {
                if evals_within_mate(pos@, ply as int) {
                    assert(evals_within_mate(spec_play_nth(pos@, order@[i as int] as int), ply + 1));
                }
                if cleanly_mated(child@, self.path@, self.prior@) {
                    self.lemma_unplayable_unknown(spec_zobrist(child@));
                }
            }
            let score = -self.alpha_beta(&child, depth - 1, -beta, -alpha, ply + 1);
            if self.aborted {
                self.path.pop();
                return 0;
            }
            if score > best_score {
                best_score = score;
                best_move = Some(m);
                if score > alpha {
                    alpha = score;
                }
            }
            if alpha >= beta {
                // Remember quiet cutoff moves as killers for this ply.
                if m.capture().is_none() && m.promotion().is_none() {
                    let ks = self.killers[ply];
                    if !same_move(ks[0], m) {
                        self.killers.set(ply, [Some(m), ks[0]]);
                    }
                }
                break;
            }
            i = i + 1;
        }
        self.path.pop();
        proof {
            if ply + 1 < MAX_PLY && i == order@.len() {
                assert forall|k: int|
                    0 <= k < moves@.len() && cleanly_mated(
                        #[trigger] spec_play_nth(pos@, k),
                        old(self).path@.push(key),
                        old(self).prior@,
                    ) implies best_score >= MATE - (ply + 1) by {
                    assert(order@.contains(k as usize));
                    let t = choose|t: int| 0 <= t < order@.len() && order@[t] == k as usize;
                    assert(order@[t] as int == k);
                }
            }
        }
        // Store in the TT (skip unstable mate-range scores).
        if best_score < MATE - 500 && best_score > -(MATE - 500) {
            let flag = if best_score <= alpha_orig {
                FLAG_UPPER
            } else if best_score >= beta {
                FLAG_LOWER
            } else {
                FLAG_EXACT
            };
            proof {
                assert(spec_zobrist(pos@) == key && spec_legal_moves(pos@).len() > 0);
            }
            self.tt.set(
                tt_idx,
                Some(TtEntry { key, depth: depth as i8, flag, score: best_score, best: best_move }),
            );
        }
        best_score
    }
}

proof fn lemma_mask_below(x: usize)
    by (bit_vector)
    ensures
        x & 131071usize < 131072usize,
{
}

/// `(root index, score)` for every root move that has a score, in root order.
pub open spec fn scored_pairs(order: Seq<usize>, scores: Seq<Option<i32>>, n: int) -> Seq<(usize, i32)>
    decreases n,
{
    if n <= 0 {
        Seq::empty()
    } else {
        let rest = scored_pairs(order, scores, n - 1);
        match scores[n - 1] {
            Some(s) => rest.push((order[n - 1], s)),
            None => rest,
        }
    }
}

proof fn lemma_scored_pairs_full(order: Seq<usize>, scores: Seq<Option<i32>>, n: int)
    requires
        0 <= n <= order.len(),
        n <= scores.len(),
        forall|i: int| 0 <= i < n ==> (#[trigger] scores[i]) is Some,
    ensures
        scored_pairs(order, scores, n).len() == n,
        forall|t: int| 0 <= t < n ==> (#[trigger] scored_pairs(order, scores, n)[t]).0 == order[t]
            && Some(scored_pairs(order, scores, n)[t].1) == scores[t],
    decreases n,
{
    if n > 0 {
        lemma_scored_pairs_full(order, scores, n - 1);
        let rest = scored_pairs(order, scores, n - 1);
        assert(scored_pairs(order, scores, n) == rest.push((order[n - 1], scores[n - 1]->0)));
        assert forall|t: int| 0 <= t < n implies (#[trigger] scored_pairs(order, scores, n)[t]).0 == order[t]
            && Some(scored_pairs(order, scores, n)[t].1) == scores[t] by {
            if t < n - 1 {
                assert(scored_pairs(order, scores, n)[t] == rest[t]);
            }
        }
    }
}

fn none_scores(n: usize) -> (r: Vec<Option<i32>>)
    ensures
        r@.len() == n,
        forall|i: int| 0 <= i < n ==> #[trigger] r@[i] == None::<i32>,
{
    let mut r: Vec<Option<i32>> = Vec::new();
    let mut i: usize = 0;
    while i < n
        invariant
            i <= n,
            r@.len() == i,
            forall|k: int| 0 <= k < i ==> #[trigger] r@[k] == None::<i32>,
        decreases n - i,
    {
        r.push(None);
        i = i + 1;
    }
    r
}

impl Search {
    /// Root moves paired with their scores of the current iteration.
    fn paired_scores(&self) -> (r: Vec<(usize, i32)>)
        requires
            self.wf_core(),
        ensures
            r@ == scored_pairs(self.root_moves@, self.iter_scores@, self.root_moves@.len() as int),
            forall|i: int| 0 <= i < r@.len() ==> (#[trigger] r@[i]).0 < self.moves@.len() && bounded(r@[i].1 as int),
    {
        let mut r: Vec<(usize, i32)> = Vec::new();
        let mut i: usize = 0;
        while i < self.root_moves.len()
            invariant
                self.wf_core(),
                i <= self.root_moves@.len(),
                r@ == scored_pairs(self.root_moves@, self.iter_scores@, i as int),
                forall|k: int| 0 <= k < r@.len() ==> (#[trigger] r@[k]).0 < self.moves@.len() && bounded(r@[k].1 as int),
            decreases self.root_moves@.len() - i,
        {
            if let Some(s) = self.iter_scores[i] {
                r.push((self.root_moves[i], s));
            }
            i = i + 1;
        }
        r
    }

    fn finalize(&mut self)
        requires
            old(self).wf_core(),
        ensures
            final(self).wf(),
            final(self).done,
            final(self).root@ == old(self).root@,
            final(self).moves@ == old(self).moves@,
            final(self).nodes == old(self).nodes,
            final(self).node_limit == old(self).node_limit,
            final(self).aborted == old(self).aborted,
            final(self).noise == old(self).noise,
            final(self).depth_completed == old(self).depth_completed,
            final(self).last_scores@ == old(self).last_scores@,
            final(self).retries == old(self).retries,
            final(self).max_depth == old(self).max_depth,
            final(self).root_moves@ == old(self).root_moves@,
            final(self).prior@ == old(self).prior@,
            old(self).chosen is Some ==> final(self).chosen == old(self).chosen,
            // Without a completed iteration the choice comes from the scores
            // of the current one, and without any score from the move order.
            old(self).chosen is None && old(self).last_scores@.len() == 0 ==> picked_from(
                final(self).chosen,
                scored_pairs(old(self).root_moves@, old(self).iter_scores@, old(self).root_moves@.len() as int),
                old(self).moves@,
                old(self).noise,
            ),
            old(self).chosen is None && old(self).last_scores@.len() == 0 && scored_pairs(
                old(self).root_moves@,
                old(self).iter_scores@,
                old(self).root_moves@.len() as int,
            ).len() == 0 ==> final(self).chosen == (if old(self).root_moves@.len() > 0 {
                Some(old(self).moves@[old(self).root_moves@[0] as int])
            } else {
                None
            }),
    {
        if self.chosen.is_none() {
            // Prefer results of the freshest iteration; fall back to partial
            // scores of the current one, then to the move ordering itself.
            let ghost partial_seq = scored_pairs(self.root_moves@, self.iter_scores@, self.root_moves@.len() as int);
            let ghost n = self.moves@.len();
            let pool: Vec<(usize, i32)> = if self.last_scores.len() > 0 {
                let mut copy: Vec<(usize, i32)> = Vec::new();
                let mut i: usize = 0;
                while i < self.last_scores.len()
                    invariant
                        i <= self.last_scores@.len(),
                        copy@ == self.last_scores@.subrange(0, i as int),
                    decreases self.last_scores@.len() - i,
                {
                    copy.push(self.last_scores[i]);
                    proof {
                        assert(self.last_scores@.subrange(0, i + 1) =~= self.last_scores@.subrange(0, i as int).push(self.last_scores@[i as int]));
                    }
                    i = i + 1;
                }
                assert(self.last_scores@.subrange(0, self.last_scores@.len() as int) =~= self.last_scores@);
                copy
            } else {
                let partial = self.paired_scores();
                let (sorted, _) = sort_desc(&partial);
                proof {
                    assert forall|i: int| 0 <= i < sorted@.len() implies (#[trigger] sorted@[i]).0 < self.moves@.len() && bounded(sorted@[i].1 as int) by {
                        lemma_sorted_member(sorted@, partial@, i);
                        let j = choose|j: int| 0 <= j < partial@.len() && partial@[j] == sorted@[i];
                        assert(partial@[j] == sorted@[i]);
                    }
                }
                sorted
            };
            assert(forall|i: int| 0 <= i < pool@.len() ==> (#[trigger] pool@[i]).0 < n && bounded(pool@[i].1 as int));
            assert(self.last_scores@.len() == 0 ==> pool@.to_multiset() == partial_seq.to_multiset());
            self.chosen = if pool.len() == 0 {
                if self.root_moves.len() > 0 {
                    Some(self.moves[self.root_moves[0]])
                } else {
                    None
                }
            } else {
                let j = pick_index(&mut self.rng, self.noise, &pool);
                proof {
                    if self.last_scores@.len() > 0 {
                        assert(self.spec_last_scores()[j as int].0 == self.moves@[pool@[j as int].0 as int]);
                    } else {
                        lemma_pick_from_permutation(pool@, partial_seq, self.moves@, self.noise, j as int);
                    }
                }
                Some(self.moves[pool[j].0])
            };
            proof {
                broadcast use vstd::seq_lib::group_to_multiset_ensures;

                if self.last_scores@.len() == 0 {
                    assert(pool@.len() == partial_seq.len());
                }
            }
        }
        self.done = true;
    }

    fn complete_iteration(&mut self)
        requires
            old(self).wf_base(),
            !old(self).done,
            old(self).retries <= 6,
            !old(self).aborted,
            old(self).root_moves@.len() > 0,
            old(self).idx == old(self).root_moves@.len(),
        ensures
            final(self).wf(),
            final(self).root@ == old(self).root@,
            final(self).moves@ == old(self).moves@,
            final(self).nodes == old(self).nodes,
            final(self).node_limit == old(self).node_limit,
            !final(self).aborted,
            final(self).depth_completed == old(self).depth,
            final(self).retries == old(self).retries,
            final(self).max_depth == old(self).max_depth,
            final(self).noise == old(self).noise,
            final(self).prior@ == old(self).prior@,
            final(self).done ==> search_complete(*final(self)),
            // The scored root moves, sorted best first, become the last
            // iteration's scores and the next iteration's move order.
            final(self).last_scores@.to_multiset() == scored_pairs(
                old(self).root_moves@,
                old(self).iter_scores@,
                old(self).root_moves@.len() as int,
            ).to_multiset(),
            final(self).last_scores@.len() == old(self).root_moves@.len(),
            sorted_desc(final(self).last_scores@),
            // Root moves of equal score keep the order they were searched in.
            forall|i: int, j: int|
                0 <= i < j < final(self).last_scores@.len() && (#[trigger] final(self).last_scores@[i]).1
                    == (#[trigger] final(self).last_scores@[j]).1 ==> exists|a: int, b: int|
                    0 <= a < b < old(self).root_moves@.len() && old(self).root_moves@[a] == final(self).last_scores@[i].0
                        && old(self).root_moves@[b] == final(self).last_scores@[j].0,
            final(self).root_moves@ == firsts(final(self).last_scores@),
            // Finished at the deepest iteration or on a mate score.
            final(self).done == (old(self).depth >= old(self).max_depth || final(self).last_scores@[0].1 >= MATE - 200),
            // Otherwise the next depth starts from its first root move.
            !final(self).done ==> final(self).depth == old(self).depth + 1 && final(self).idx == 0
                && final(self).iter_scores@.len() == old(self).root_moves@.len()
                && forall|i: int| 0 <= i < final(self).iter_scores@.len() ==> (#[trigger] final(self).iter_scores@[i]) is None,
    {
        let paired = self.paired_scores();
        proof {
            lemma_scored_pairs_full(self.root_moves@, self.iter_scores@, self.root_moves@.len() as int);
        }
        let (sorted, src) = sort_desc(&paired);
        proof {
            assert forall|i: int| 0 <= i < sorted@.len() implies (#[trigger] sorted@[i]).0 < self.moves@.len() && bounded(sorted@[i].1 as int) by {
                lemma_sorted_member(sorted@, paired@, i);
                let j = choose|j: int| 0 <= j < paired@.len() && paired@[j] == sorted@[i];
                assert(paired@[j] == sorted@[i]);
            }
        }
        let ghost old_root = self.root_moves@;
        let ghost old_scores = self.iter_scores@;
        proof {
            assert forall|i: int, j: int|
                0 <= i < j < sorted@.len() && (#[trigger] sorted@[i]).1 == (#[trigger] sorted@[j]).1 implies exists|a: int, b: int|
                0 <= a < b < old_root.len() && old_root[a] == sorted@[i].0 && old_root[b] == sorted@[j].0 by {
                assert(sorted@[i] == paired@[src@[i]] && sorted@[j] == paired@[src@[j]]);
                assert(paired@[src@[i]].0 == old_root[src@[i]] && paired@[src@[j]].0 == old_root[src@[j]]);
                assert(src@[i] < src@[j]);
            }
        }
        self.last_scores = sorted;
        self.depth_completed = self.depth;
        self.root_moves = firsts_of(&self.last_scores);
        proof {
            assert forall|k: usize| k < self.moves@.len() implies #[trigger] self.root_moves@.contains(k) by {
                assert(old_root.contains(k));
                let t = choose|t: int| 0 <= t < old_root.len() && old_root[t] == k;
                assert(paired@[t].0 == old_root[t]);
                lemma_sorted_covers(sorted@, paired@, t);
                let i = choose|i: int| 0 <= i < sorted@.len() && sorted@[i] == paired@[t];
                assert(self.root_moves@[i] == k);
            }
            assert forall|t: int|
                0 <= t < self.last_scores@.len() && root_move_value(
                    spec_play_nth(self.root@, (#[trigger] self.last_scores@[t]).0 as int),
                    self.prior@,
                ) is Some implies self.last_scores@[t].1 == root_move_value(
                    spec_play_nth(self.root@, self.last_scores@[t].0 as int),
                    self.prior@,
                )->0 by {
                lemma_sorted_member(sorted@, paired@, t);
                let j = choose|j: int| 0 <= j < paired@.len() && paired@[j] == sorted@[t];
                assert(paired@[j].0 == old_root[j] && Some(paired@[j].1) == old_scores[j]);
            }
        }
        let best = if self.last_scores.len() > 0 {
            self.last_scores[0].1
        } else {
            -INF
        };
        if self.depth >= self.max_depth || best >= MATE - 200 {
            self.finalize();
        } else {
            self.depth = self.depth + 1;
            self.idx = 0;
            self.iter_best = -INF;
            self.iter_scores = none_scores(self.root_moves.len());
        }
    }

    /// A search of `pos` at `level`; `prior_hashes` are the Zobrist keys
    /// of the game positions that still count for repetition, `seed` seeds
    /// the choice among near-equal moves.
    pub fn new(pos: &Position, prior_hashes: Vec<u64>, level: Level, seed: u64) -> (s: Search)
        ensures
            s.wf(),
            s.root_fen() == pos@,
            s.legal() == spec_legal_moves(pos@),
            s.spec_root_moves().len() == s.legal().len(),
            forall|i: int| 0 <= i < s.spec_root_moves().len() ==> s.legal().contains(#[trigger] s.spec_root_moves()[i]),
            // The first iteration tries captures and promotions first.
            forall|i: int, j: int| 0 <= i < j < s.spec_root_moves().len() ==> spec_order_score(#[trigger] s.spec_root_moves()[i], None, [None, None])
                >= spec_order_score(#[trigger] s.spec_root_moves()[j], None, [None, None]),
            // Moves of equal order score keep the rules engine's order.
            s.spec_root_order().len() == s.legal().len(),
            forall|i: int| 0 <= i < s.spec_root_order().len() ==> #[trigger] s.spec_root_moves()[i] == s.legal()[s.spec_root_order()[i] as int],
            forall|i: int, j: int| 0 <= i < j < s.spec_root_order().len() && spec_order_score(s.legal()[#[trigger] s.spec_root_order()[i] as int], None, [None, None])
                == spec_order_score(s.legal()[#[trigger] s.spec_root_order()[j] as int], None, [None, None])
                ==> s.spec_root_order()[i] < s.spec_root_order()[j],
            s.is_done() == (s.legal().len() <= 1),
            s.spec_chosen() == (if s.legal().len() == 1 {
                Some(s.legal()[0])
            } else {
                None
            }),
            s.spec_nodes() == 0,
            s.spec_depth_completed() == 0,
            s.spec_last_scores().len() == 0,
            s.spec_noise() == level.spec_noise_cp(),
            s.spec_max_depth() == level.spec_max_depth(),
            s.spec_retries() == 0,
            s.spec_prior() == prior_hashes@,
    {
        let moves = legal_moves(pos);
        // Cheap first-iteration ordering: captures and promotions up front.
        let every = all_indices(moves.len());
        let root_moves = order_moves(&moves, &every, None, &[None, None]);
        assert forall|k: usize| k < moves@.len() implies #[trigger] root_moves@.contains(k) by {
            assert(every@[k as int] == k);
        }
        assert forall|a: int, b: int| 0 <= a < b < every@.len() implies #[trigger] every@[a] < #[trigger] every@[b] by {
            assert(every@[a] == a && every@[b] == b);
        }
        let mut tt: Vec<Option<TtEntry>> = Vec::new();
        let mut i: usize = 0;
        while i < TT_SIZE
            invariant
                i <= TT_SIZE,
                tt@.len() == i,
                forall|k: int| 0 <= k < i ==> #[trigger] tt@[k] is None,
            decreases TT_SIZE - i,
        {
            tt.push(None);
            i = i + 1;
        }
        let mut killers: Vec<[Option<Move>; 2]> = Vec::new();
        let mut i: usize = 0;
        while i < MAX_PLY
            invariant
                i <= MAX_PLY,
                killers@.len() == i,
            decreases MAX_PLY - i,
        {
            killers.push([None, None]);
            i = i + 1;
        }
        let n = moves.len();
        let mut search = Search {
            root: pos.duplicate(),
            moves,
            max_depth: level.max_depth(),
            noise: level.noise_cp(),
            rng: seed | 1,
            prior: prior_hashes,
            path: Vec::with_capacity(MAX_PLY + 8),
            tt,
            killers,
            nodes: 0,
            node_limit: 0,
            aborted: false,
            depth: 1,
            iter_scores: none_scores(n),
            iter_best: -INF,
            idx: 0,
            retries: 0,
            last_scores: Vec::new(),
            depth_completed: 0,
            chosen: None,
            done: false,
            root_moves,
        };
        // Trivial positions need no search at all.
        if n == 0 {
            search.done = true;
        } else if n == 1 {
            search.chosen = Some(search.moves[search.root_moves[0]]);
            search.done = true;
        }
        proof {
            assert forall|i: int| 0 <= i < search.spec_root_moves().len() implies search.legal().contains(#[trigger] search.spec_root_moves()[i]) by {
                assert(search.spec_root_moves()[i] == search.moves@[search.root_moves@[i] as int]);
            }
            assert forall|i: int| 0 <= i < search.spec_root_order().len() implies #[trigger] search.spec_root_moves()[i] == search.legal()[search.spec_root_order()[i] as int] by {
                assert(search.spec_root_moves()[i] == search.moves@[search.root_moves@[i] as int]);
            }
            assert forall|i: int, j: int| 0 <= i < j < search.spec_root_moves().len() implies spec_order_score(#[trigger] search.spec_root_moves()[i], None, [None, None])
                >= spec_order_score(#[trigger] search.spec_root_moves()[j], None, [None, None]) by {
                assert(search.spec_root_moves()[i] == search.moves@[search.root_moves@[i] as int]);
                assert(search.spec_root_moves()[j] == search.moves@[search.root_moves@[j] as int]);
            }
        }
        search
    }

    /// Nodes visited so far.
    pub fn nodes(&self) -> (n: u64)
        ensures
            n == self.spec_nodes(),
    {
        self.nodes
    }

    /// Depth of the last fully completed iteration (0 before the first).
    pub fn depth_completed(&self) -> (d: u8)
        ensures
            d == self.spec_depth_completed(),
    {
        self.depth_completed
    }

    /// Best score (centipawns, side to move) of the last completed iteration.
    pub fn score(&self) -> (r: Option<i32>)
        ensures
            r == (if self.spec_last_scores().len() > 0 {
                Some(self.spec_last_scores()[0].1)
            } else {
                None
            }),
    {
        if self.last_scores.len() > 0 {
            Some(self.last_scores[0].1)
        } else {
            None
        }
    }

    /// Best `(move, score, depth)` found so far, readable mid-search without
    /// finalizing.
    pub fn current_best_line(&self) -> (r: Option<(Move, i32, u8)>)
        requires
            self.wf(),
        ensures
            r == (if self.spec_last_scores().len() > 0 {
                Some((self.spec_last_scores()[0].0, self.spec_last_scores()[0].1, self.spec_depth_completed()))
            } else {
                None
            }),
            r matches Some((m, _, _)) ==> self.legal().contains(m),
    {
        if self.last_scores.len() > 0 {
            Some((self.moves[self.last_scores[0].0], self.last_scores[0].1, self.depth_completed))
        } else {
            None
        }
    }

    /// Runs roughly `node_budget` more nodes (the node counter stops at
    /// `u64::MAX - 1`). Returns `true` once the search has finished (max
    /// depth reached, mate found, trivial position, or given up).
    pub fn step(&mut self, node_budget: u64) -> (finished: bool)
        requires
            old(self).wf(),
        ensures
            final(self).wf(),
            finished == final(self).is_done(),
            final(self).root_fen() == old(self).root_fen(),
            final(self).legal() == old(self).legal(),
            final(self).spec_max_depth() == old(self).spec_max_depth(),
            final(self).spec_noise() == old(self).spec_noise(),
            final(self).spec_prior() == old(self).spec_prior(),
            old(self).is_done() ==> *final(self) == *old(self),
            old(self).spec_nodes() <= final(self).spec_nodes() <= old(self).spec_nodes() + node_budget + 1,
            // An unfinished search finishes exactly when it is complete.
            !old(self).is_done() ==> (finished <==> search_complete(*final(self))),
            // A chunk with budget spends nodes; one without changes nothing
            // that counts.
            !old(self).is_done() && node_budget > 0 && old(self).spec_nodes() < u64::MAX - 1
                ==> final(self).spec_nodes() > old(self).spec_nodes(),
            !old(self).is_done() && node_budget == 0 ==> !finished && final(self).spec_nodes() == old(self).spec_nodes()
                && final(self).spec_last_scores() == old(self).spec_last_scores()
                && final(self).spec_depth_completed() == old(self).spec_depth_completed(),
            old(self).spec_depth_completed() <= final(self).spec_depth_completed(),
    {
        if self.done {
            return true;
        }
        let sum = self.nodes.saturating_add(node_budget);
        self.node_limit = if sum < u64::MAX - 1 {
            sum
        } else {
            u64::MAX - 1
        };
        self.aborted = false;
        let ghost start = self.nodes;
        let ghost mut ran = false;
        while !self.done && self.nodes < self.node_limit
            invariant
                self.wf(),
                self.root@ == old(self).root@,
                self.moves@ == old(self).moves@,
                self.max_depth == old(self).max_depth,
                self.noise == old(self).noise,
                self.prior@ == old(self).prior@,
                !self.aborted,
                start == old(self).nodes,
                start <= self.nodes,
                ran ==> self.nodes <= self.node_limit,
                self.node_limit <= start + node_budget,
                self.node_limit == (if start + node_budget < u64::MAX - 1 { start + node_budget } else { u64::MAX - 1 }),
                self.node_limit < u64::MAX,
                !old(self).done,
                ran ==> self.nodes > start,
                !ran ==> self.nodes == start,
                node_budget == 0 ==> !ran,
                !ran ==> self.last_scores@ == old(self).last_scores@ && self.depth_completed == old(self).depth_completed
                    && !self.done,
                old(self).depth_completed <= self.depth_completed,
                self.done ==> search_complete(*self),
            decreases self.node_limit - self.nodes,
        {
            proof {
                ran = true;
            }
            let child = play_nth(&self.root, self.root_moves[self.idx]);
            self.path.clear();
            // Full-window search at noisy levels so every root score is exact
            // (needed for the "pick within a margin" selection).
            let alpha = if self.noise > 0 {
                -INF
            } else {
                self.iter_best
            };
            proof {
                if cleanly_mated(child@, self.path@, self.prior@) {
                    self.lemma_unplayable_unknown(spec_zobrist(child@));
                }
            }
            let score = -self.alpha_beta(&child, self.depth as i32 - 1, -INF, -alpha, 1);
            if self.aborted {
                // The chunk budget ran out mid-move. The transposition table
                // kept the work, so retrying this root move next step is
                // cheap. Bail out entirely if it keeps happening.
                self.retries = self.retries + 1;
                if self.retries > 6 {
                    self.finalize();
                }
                return self.done;
            }
            self.retries = 0;
            let ghost before = self.iter_scores@;
            self.iter_scores.set(self.idx, Some(score));
            if score > self.iter_best {
                self.iter_best = score;
            }
            let n = self.root_moves.len();
            self.idx = self.idx + 1;
            proof {
                assert forall|i: int| 0 <= i < self.idx implies (#[trigger] self.iter_scores@[i]) is Some by {
                    if i < self.idx - 1 {
                        assert(before[i] is Some);
                    }
                }
                assert forall|i: int|
                    0 <= i < self.idx && root_move_value(spec_play_nth(self.root@, #[trigger] self.root_moves@[i] as int), self.prior@)
                        is Some implies self.iter_scores@[i] == root_move_value(
                        spec_play_nth(self.root@, self.root_moves@[i] as int),
                        self.prior@,
                    ) by {
                    if i < self.idx - 1 {
                        assert(self.iter_scores@[i] == before[i]);
                    }
                }
                assert forall|i: int| 0 <= i < self.iter_scores@.len() implies (#[trigger] self.iter_scores@[i] matches Some(s) ==> bounded(s as int)) by {
                    if i != self.idx - 1 {
                        assert(self.iter_scores@[i] == before[i]);
                    }
                }
            }
            if self.idx == n {
                self.complete_iteration();
            }
        }
        self.done
    }

    /// Final best move; finalizes an unfinished search on the fly.
    pub fn take_best(&mut self) -> (best: Option<Move>)
        requires
            old(self).wf(),
        ensures
            final(self).wf(),
            final(self).is_done(),
            best == final(self).spec_chosen(),
            best is Some <==> final(self).legal().len() > 0,
            best matches Some(m) ==> final(self).legal().contains(m),
            final(self).root_fen() == old(self).root_fen(),
            final(self).legal() == old(self).legal(),
            final(self).spec_prior() == old(self).spec_prior(),
            old(self).is_done() ==> best == old(self).spec_chosen(),
            final(self).spec_last_scores() == old(self).spec_last_scores(),
            final(self).spec_noise() == old(self).spec_noise(),
            final(self).spec_nodes() == old(self).spec_nodes(),
            picked(best, final(self).spec_last_scores(), final(self).spec_noise()),
    {
        if !self.done {
            self.finalize();
        }
        self.chosen
    }
}

/// Every completed iteration scores a legal move as the rules do where
/// they decide (see [`root_move_value`]): a move into a draw by the
/// fifty-move rule, dead material or a repetition of the game scores 0, a
/// move into a checkmate the search sees as such scores mate in one.
pub proof fn lemma_root_scores_follow_rules(s: Search, i: int)
    requires
        s.wf(),
        0 <= i < s.legal().len(),
        s.spec_last_scores().len() > 0,
        root_move_value(spec_play_nth(s.root_fen(), i), s.spec_prior()) is Some,
    ensures
        s.spec_last_scores().contains((s.legal()[i], root_move_value(spec_play_nth(s.root_fen(), i), s.spec_prior())->0)),
{
    assert(s.moves@.len() == s.moves.len());
    let k = i as usize;
    assert(k as int == i);
    assert(s.root_moves@.contains(k));
    let u = choose|u: int| 0 <= u < s.root_moves@.len() && s.root_moves@[u] == k;
    assert(firsts(s.last_scores@)[u] == s.last_scores@[u].0);
    assert(s.last_scores@[u].0 == k);
    assert(s.spec_last_scores()[u] == (s.moves@[i], s.last_scores@[u].1));
}

/// A position counts as a repetition exactly when its key occurs among the
/// positions that still count: the last `relevant` keys of the search line
/// and, past the line, the last `relevant - path.len()` keys of the game.
pub proof fn lemma_repetition_reads_the_game(path: Seq<u64>, prior: Seq<u64>, key: u64, relevant: int)
    requires
        relevant >= 0,
    ensures
        spec_repetition(path, prior, key, relevant) <==> {
            ||| exists|j: int| 0 <= j < path.len() && path.len() - relevant <= j && path[j] == key
            ||| exists|j: int| 0 <= j < prior.len() && prior.len() - (relevant - path.len()) <= j && prior[j] == key
        },
{
}

/// A legal move into a position that the game has already seen since its
/// last irreversible move (its key is among the last `halfmoves` keys of
/// the game) is scored exactly 0 by every completed iteration.
pub proof fn lemma_repeating_the_game_scores_zero(s: Search, i: int, j: int)
    requires
        s.wf(),
        0 <= i < s.legal().len(),
        s.spec_last_scores().len() > 0,
        0 <= j < s.spec_prior().len(),
        s.spec_prior().len() - spec_halfmoves(spec_play_nth(s.root_fen(), i)) <= j,
        s.spec_prior()[j] == spec_zobrist(spec_play_nth(s.root_fen(), i)),
    ensures
        s.spec_last_scores().contains((s.legal()[i], 0i32)),
{
    let f = spec_play_nth(s.root_fen(), i);
    lemma_repetition_reads_the_game(Seq::empty(), s.spec_prior(), spec_zobrist(f), spec_halfmoves(f) as int);
    assert(s.spec_prior()[j] == spec_zobrist(f));
    assert(root_move_value(f, s.spec_prior()) == Some(0i32));
    lemma_root_scores_follow_rules(s, i);
}

/// A legal move into checkmate that the search sees as such (see
/// [`cleanly_mated`]) is scored as mate in one by every completed
/// iteration, so the best score of that iteration is at least `MATE - 1`.
pub proof fn lemma_mate_in_one_scores_mate(s: Search, i: int)
    requires
        s.wf(),
        0 <= i < s.legal().len(),
        s.spec_last_scores().len() > 0,
        cleanly_mated(spec_play_nth(s.root_fen(), i), Seq::empty(), s.spec_prior()),
    ensures
        s.spec_last_scores().contains((s.legal()[i], (MATE - 1) as i32)),
        s.spec_last_scores()[0].1 >= MATE - 1,
{
    assert(root_move_value(spec_play_nth(s.root_fen(), i), s.spec_prior()) == Some((MATE - 1) as i32));
    lemma_root_scores_follow_rules(s, i);
    let t = choose|t: int| 0 <= t < s.spec_last_scores().len() && s.spec_last_scores()[t] == (s.legal()[i], (MATE - 1) as i32);
    assert(s.spec_last_scores()[t].1 == s.last_scores@[t].1);
    assert(s.spec_last_scores()[0].1 == s.last_scores@[0].1);
    assert(s.last_scores@[0].1 >= s.last_scores@[t].1);
}

/// Every legal move of the searched position is among the root moves that
/// each iteration searches.
pub proof fn lemma_every_legal_move_is_searched(s: Search, m: Move)
    requires
        s.wf(),
        s.legal().contains(m),
    ensures
        s.spec_root_moves().contains(m),
{
    let i = choose|i: int| 0 <= i < s.legal().len() && s.legal()[i] == m;
    assert(s.moves@.len() == s.moves.len());
    let k = i as usize;
    assert(k as int == i);
    assert(s.root_moves@.contains(k));
    let t = choose|t: int| 0 <= t < s.root_moves@.len() && s.root_moves@[t] == k;
    assert(s.spec_root_moves()[t] == s.moves@[s.root_moves@[t] as int]);
    assert(s.moves@[i] == m);
}

} // verus!
