//! Static evaluation: material plus piece-square tables, with the king's
//! table tapered between middlegame and endgame by the material left.

use vstd::prelude::*;
use crate::board::Board;
use crate::rules::{board_of, spec_board, spec_turn, turn, Position};
use crate::types::{valid_square, Color, Piece, Role, Square};

verus! {

/// Material in centipawns (king excluded from material sums).
pub const MATERIAL: [i32; 6] = [100, 320, 330, 500, 900, 0];

/// Small per-role weights for MVV-LVA capture ordering.
pub const ORDER_WEIGHT: [i32; 6] = [1, 3, 3, 5, 9, 20];

/// Piece-square tables, written rank 8 first (as seen from White's side).
/// Indexed by role index for P, N, B, R, Q and the middlegame king.
pub const PST: [[i32; 64]; 6] = [
    // Pawn
    [
         0,  0,  0,  0,  0,  0,  0,  0,
        50, 50, 50, 50, 50, 50, 50, 50,
        10, 10, 20, 30, 30, 20, 10, 10,
         5,  5, 10, 25, 25, 10,  5,  5,
         0,  0,  0, 20, 20,  0,  0,  0,
         5, -5,-10,  0,  0,-10, -5,  5,
         5, 10, 10,-20,-20, 10, 10,  5,
         0,  0,  0,  0,  0,  0,  0,  0,
    ],
    // Knight
    [
       -50,-40,-30,-30,-30,-30,-40,-50,
       -40,-20,  0,  0,  0,  0,-20,-40,
       -30,  0, 10, 15, 15, 10,  0,-30,
       -30,  5, 15, 20, 20, 15,  5,-30,
       -30,  0, 15, 20, 20, 15,  0,-30,
       -30,  5, 10, 15, 15, 10,  5,-30,
       -40,-20,  0,  5,  5,  0,-20,-40,
       -50,-40,-30,-30,-30,-30,-40,-50,
    ],
    // Bishop
    [
       -20,-10,-10,-10,-10,-10,-10,-20,
       -10,  0,  0,  0,  0,  0,  0,-10,
       -10,  0,  5, 10, 10,  5,  0,-10,
       -10,  5,  5, 10, 10,  5,  5,-10,
       -10,  0, 10, 10, 10, 10,  0,-10,
       -10, 10, 10, 10, 10, 10, 10,-10,
       -10,  5,  0,  0,  0,  0,  5,-10,
       -20,-10,-10,-10,-10,-10,-10,-20,
    ],
    // Rook
    [
         0,  0,  0,  0,  0,  0,  0,  0,
         5, 10, 10, 10, 10, 10, 10,  5,
        -5,  0,  0,  0,  0,  0,  0, -5,
        -5,  0,  0,  0,  0,  0,  0, -5,
        -5,  0,  0,  0,  0,  0,  0, -5,
        -5,  0,  0,  0,  0,  0,  0, -5,
        -5,  0,  0,  0,  0,  0,  0, -5,
         0,  0,  0,  5,  5,  0,  0,  0,
    ],
    // Queen
    [
       -20,-10,-10, -5, -5,-10,-10,-20,
       -10,  0,  0,  0,  0,  0,  0,-10,
       -10,  0,  5,  5,  5,  5,  0,-10,
        -5,  0,  5,  5,  5,  5,  0, -5,
         0,  0,  5,  5,  5,  5,  0, -5,
       -10,  5,  5,  5,  5,  5,  0,-10,
       -10,  0,  5,  0,  0,  0,  0,-10,
       -20,-10,-10, -5, -5,-10,-10,-20,
    ],
    // King (middlegame)
    [
       -30,-40,-40,-50,-50,-40,-40,-30,
       -30,-40,-40,-50,-50,-40,-40,-30,
       -30,-40,-40,-50,-50,-40,-40,-30,
       -30,-40,-40,-50,-50,-40,-40,-30,
       -20,-30,-30,-40,-40,-30,-30,-20,
       -10,-20,-20,-20,-20,-20,-20,-10,
        20, 20,  0,  0,  0,  0, 20, 20,
        20, 30, 10,  0,  0, 10, 30, 20,
    ],
];

/// King endgame table (centralise the king once material comes off).
pub const KING_EG: [i32; 64] = [
   -50,-40,-30,-20,-20,-30,-40,-50,
   -30,-20,-10,  0,  0,-10,-20,-30,
   -30,-10, 20, 30, 30, 20,-10,-30,
   -30,-10, 30, 40, 40, 30,-10,-30,
   -30,-10, 30, 40, 40, 30,-10,-30,
   -30,-10, 20, 30, 30, 20,-10,-30,
   -30,-30,  0,  0,  0,  0,-30,-30,
   -50,-30,-30,-30,-30,-30,-30,-50,
];

/// Largest value one square can add to the evaluation.
pub open spec fn square_value_bound() -> int {
    950
}

pub open spec fn spec_role_index(role: Role) -> int {
    match role {
        Role::Pawn => 0,
        Role::Knight => 1,
        Role::Bishop => 2,
        Role::Rook => 3,
        Role::Queen => 4,
        Role::King => 5,
    }
}

/// Index of a role into the per-role tables.
pub fn role_index(role: Role) -> (i: usize)
    ensures
        i == spec_role_index(role),
        i < 6,
{
    match role {
        Role::Pawn => 0,
        Role::Knight => 1,
        Role::Bishop => 2,
        Role::Rook => 3,
        Role::Queen => 4,
        Role::King => 5,
    }
}

/// Sum of `f(k)` for `k` in `0..n`.
pub open spec fn sum(f: spec_fn(int) -> int, n: int) -> int
    decreases n,
{
    if n <= 0 {
        0
    } else {
        sum(f, n - 1) + f(n - 1)
    }
}

pub open spec fn has_role(s: Option<Piece>, role: Role) -> bool {
    match s {
        Some(p) => p.role == role,
        None => false,
    }
}

/// Number of pieces of `role` (either color) on the board.
pub open spec fn role_count(board: Seq<Option<Piece>>, role: Role) -> int {
    sum(|k: int| if has_role(board[k], role) { 1int } else { 0int }, 64)
}

/// Game phase in [0, 24]: 24 = full middlegame material, 0 = bare endgame.
pub open spec fn spec_game_phase(board: Seq<Option<Piece>>) -> int {
    let raw = role_count(board, Role::Knight) + role_count(board, Role::Bishop) + 2 * role_count(
        board,
        Role::Rook,
    ) + 4 * role_count(board, Role::Queen);
    if raw < 24 {
        raw
    } else {
        24
    }
}

/// Index into the rank-8-first tables for a piece of `color` on `sq`:
/// White reads the tables flipped.
pub open spec fn table_index(color: Color, sq: int) -> int {
    if color == Color::White {
        (7 - sq / 8) * 8 + sq % 8
    } else {
        (sq / 8) * 8 + sq % 8
    }
}

/// Integer division rounding toward zero, as machine division does.
pub open spec fn trunc_div(a: int, d: int) -> int {
    if a >= 0 {
        a / d
    } else {
        -((-a) / d)
    }
}

/// Material plus table value of `p` on `sq` at game phase `phase`.
pub open spec fn piece_square_value(p: Piece, sq: int, phase: int) -> int {
    let idx = table_index(p.color, sq);
    let pst = if p.role == Role::King {
        trunc_div(PST[5][idx] * phase + KING_EG[idx] * (24 - phase), 24)
    } else {
        PST[spec_role_index(p.role)][idx] as int
    };
    MATERIAL[spec_role_index(p.role)] + pst
}

/// Contribution of one square to the evaluation from White's side.
pub open spec fn square_score(s: Option<Piece>, sq: int, phase: int) -> int {
    match s {
        Some(p) => if p.color == Color::White {
            piece_square_value(p, sq, phase)
        } else {
            -piece_square_value(p, sq, phase)
        },
        None => 0,
    }
}

/// Evaluation from White's side.
pub open spec fn white_score(board: Seq<Option<Piece>>) -> int {
    let phase = spec_game_phase(board);
    sum(|k: int| square_score(board[k], k, phase), 64)
}

/// Static evaluation in centipawns from the side to move's perspective.
pub open spec fn spec_evaluate(board: Seq<Option<Piece>>, turn: Color) -> int {
    if turn == Color::White {
        white_score(board)
    } else {
        -white_score(board)
    }
}

/// The tables are written rank 8 first: a White piece on rank `rank`
/// (0 for the first rank) and file `file` reads row `7 - rank`, a Black
/// piece reads row `rank`; the king blends its middlegame and endgame rows
/// by the game phase. So a White pawn gains 20 on e4 and loses 20 on e2,
/// and a Black pawn gains 20 on e5.
pub proof fn lemma_tables_read_from_each_side(p: Piece, rank: int, file: int, phase: int)
    requires
        0 <= rank < 8,
        0 <= file < 8,
    ensures
        p.role != Role::King && p.color == Color::White ==> piece_square_value(p, rank * 8 + file, phase)
            == MATERIAL[spec_role_index(p.role)] + PST[spec_role_index(p.role)][(7 - rank) * 8 + file],
        p.role != Role::King && p.color == Color::Black ==> piece_square_value(p, rank * 8 + file, phase)
            == MATERIAL[spec_role_index(p.role)] + PST[spec_role_index(p.role)][rank * 8 + file],
        p.role == Role::King && p.color == Color::White ==> piece_square_value(p, rank * 8 + file, phase)
            == MATERIAL[5] + trunc_div(
            PST[5][(7 - rank) * 8 + file] * phase + KING_EG[(7 - rank) * 8 + file] * (24 - phase),
            24,
        ),
        p.role == Role::King && p.color == Color::Black ==> piece_square_value(p, rank * 8 + file, phase)
            == MATERIAL[5] + trunc_div(PST[5][rank * 8 + file] * phase + KING_EG[rank * 8 + file] * (24 - phase), 24),
        piece_square_value(Piece { color: Color::White, role: Role::Pawn }, 28, phase) == MATERIAL[0] + 20,
        piece_square_value(Piece { color: Color::White, role: Role::Pawn }, 12, phase) == MATERIAL[0] - 20,
        piece_square_value(Piece { color: Color::Black, role: Role::Pawn }, 36, phase) == MATERIAL[0] + 20,
{
    assert((rank * 8 + file) / 8 == rank && (rank * 8 + file) % 8 == file) by (nonlinear_arith)
        requires
            0 <= rank < 8,
            0 <= file < 8,
    ;
    assert(PST[0][36] == 20);
    assert(PST[0][52] == -20);
}

proof fn lemma_table_bounds(r: int, i: int)
    requires
        0 <= r < 6,
        0 <= i < 64,
    ensures
        -50 <= PST[r][i] <= 50,
        -50 <= KING_EG[i] <= 50,
        0 <= MATERIAL[r] <= 900,
        1 <= ORDER_WEIGHT[r] <= 20,
{
}

proof fn lemma_taper_bound(a: int, b: int, phase: int)
    by (nonlinear_arith)
    requires
        -50 <= a <= 50,
        -50 <= b <= 50,
        0 <= phase <= 24,
    ensures
        -1200 <= a * phase <= 1200,
        -1200 <= b * (24 - phase) <= 1200,
        -1200 <= a * phase + b * (24 - phase) <= 1200,
{
}

/// Material plus table value of a piece on a square.
fn piece_value(piece: Piece, sq: Square, phase: i32) -> (v: i32)
    requires
        valid_square(sq),
        0 <= phase <= 24,
    ensures
        v == piece_square_value(piece, sq as int, phase as int),
        0 <= v + 50 <= square_value_bound() + 50,
{
    let role = role_index(piece.role);
    let file = (sq % 8) as usize;
    let rank = (sq / 8) as usize;
    let idx = if piece.color.is_white() {
        (7 - rank) * 8 + file
    } else {
        rank * 8 + file
    };
    assert(idx == table_index(piece.color, sq as int));
    proof {
        lemma_table_bounds(role as int, idx as int);
        lemma_table_bounds(5, idx as int);
    }
    let pst = if role == 5 {
        proof {
            lemma_taper_bound(PST[5][idx as int] as int, KING_EG[idx as int] as int, phase as int);
        }
        let mixed = PST[5][idx] * phase + KING_EG[idx] * (24 - phase);
        let t = mixed / 24;
        assert(t == trunc_div(mixed as int, 24));
        t
    } else {
        PST[role][idx]
    };
    MATERIAL[role] + pst
}

/// Game phase of a board, see [`spec_game_phase`].
pub fn game_phase(board: &Board) -> (phase: i32)
    ensures
        phase == spec_game_phase(board@),
        0 <= phase <= 24,
{
    board.len_is_64();
    let mut knights: i32 = 0;
    let mut bishops: i32 = 0;
    let mut rooks: i32 = 0;
    let mut queens: i32 = 0;
    let mut sq: u8 = 0;
    while sq < 64
        invariant
            sq <= 64,
            board@.len() == 64,
            knights == sum(|k: int| if has_role(board@[k], Role::Knight) { 1int } else { 0int }, sq as int),
            bishops == sum(|k: int| if has_role(board@[k], Role::Bishop) { 1int } else { 0int }, sq as int),
            rooks == sum(|k: int| if has_role(board@[k], Role::Rook) { 1int } else { 0int }, sq as int),
            queens == sum(|k: int| if has_role(board@[k], Role::Queen) { 1int } else { 0int }, sq as int),
            0 <= knights <= sq,
            0 <= bishops <= sq,
            0 <= rooks <= sq,
            0 <= queens <= sq,
        decreases 64 - sq,
    {
        match board.piece_at(sq) {
            Some(p) => match p.role {
                Role::Knight => knights = knights + 1,
                Role::Bishop => bishops = bishops + 1,
                Role::Rook => rooks = rooks + 1,
                Role::Queen => queens = queens + 1,
                _ => {},
            },
            None => {},
        }
        sq = sq + 1;
    }
    let phase = knights + bishops + 2 * rooks + 4 * queens;
    if phase < 24 {
        phase
    } else {
        24
    }
}

/// Static evaluation in centipawns from the side to move's perspective.
pub fn evaluate(pos: &Position) -> (score: i32)
    ensures
        score == spec_evaluate(spec_board(pos@), spec_turn(pos@)),
        -64 * square_value_bound() <= score <= 64 * square_value_bound(),
{
    let board = board_of(pos);
    let phase = game_phase(&board);
    let mut white: i32 = 0;
    let mut sq: u8 = 0;
    while sq < 64
        invariant
            sq <= 64,
            board@.len() == 64,
            0 <= phase <= 24,
            phase == spec_game_phase(board@),
            white == sum(|k: int| square_score(board@[k], k, phase as int), sq as int),
            -950 * sq <= white <= 950 * sq,
        decreases 64 - sq,
    {
        match board.piece_at(sq) {
            Some(piece) => {
                let value = piece_value(piece, sq, phase);
                if piece.color.is_white() {
                    white = white + value;
                } else {
                    white = white - value;
                }
            },
            None => {},
        }
        sq = sq + 1;
    }
    assert(white == white_score(board@));
    if turn(pos).is_white() {
        white
    } else {
        -white
    }
}

/// Square `sq` seen from the other side of the board (rank r becomes 7 - r).
pub open spec fn flip_square(sq: int) -> int {
    (7 - sq / 8) * 8 + sq % 8
}

/// The same piece in the other color.
pub open spec fn flip_piece(s: Option<Piece>) -> Option<Piece> {
    match s {
        Some(p) => Some(Piece { color: p.color.spec_other(), role: p.role }),
        None => None,
    }
}

/// The board mirrored vertically with all piece colors swapped.
pub open spec fn mirror_board(board: Seq<Option<Piece>>) -> Seq<Option<Piece>> {
    Seq::new(64, |k: int| flip_piece(board[flip_square(k)]))
}

proof fn lemma_sum_split(f: spec_fn(int) -> int, n: int, m: int)
    requires
        0 <= n,
        0 <= m,
    ensures
        sum(f, n + m) == sum(f, n) + sum(|j: int| f(n + j), m),
    decreases m,
{
    if m > 0 {
        lemma_sum_split(f, n, m - 1);
    }
}

proof fn lemma_sum_ext(f: spec_fn(int) -> int, g: spec_fn(int) -> int, n: int)
    requires
        forall|k: int| 0 <= k < n ==> #[trigger] f(k) == g(k),
    ensures
        sum(f, n) == sum(g, n),
    decreases n,
{
    if n > 0 {
        lemma_sum_ext(f, g, n - 1);
    }
}

proof fn lemma_sum_neg(f: spec_fn(int) -> int, n: int)
    ensures
        sum(|k: int| -f(k), n) == -sum(f, n),
    decreases n,
{
    if n > 0 {
        lemma_sum_neg(f, n - 1);
    }
}

proof fn lemma_sum_reverse8(g: spec_fn(int) -> int)
    ensures
        sum(|r: int| g(7 - r), 8) == sum(g, 8),
{
    reveal_with_fuel(sum, 9);
}

proof fn lemma_square_coords(r: int, c: int)
    requires
        0 <= r < 8,
        0 <= c < 8,
    ensures
        (r * 8 + c) / 8 == r,
        (r * 8 + c) % 8 == c,
        flip_square(r * 8 + c) == (7 - r) * 8 + c,
        0 <= r * 8 + c < 64,
{
    vstd::arithmetic::div_mod::lemma_fundamental_div_mod_converse(r * 8 + c, 8, r, c);
}

/// A sum over the 64 squares taken rank by rank.
proof fn lemma_sum_by_ranks(f: spec_fn(int) -> int, k: int)
    requires
        0 <= k <= 8,
    ensures
        sum(f, 8 * k) == sum(|r: int| sum(|c: int| f(r * 8 + c), 8), k),
    decreases k,
{
    if k > 0 {
        lemma_sum_by_ranks(f, k - 1);
        lemma_sum_split(f, 8 * (k - 1), 8);
        let row = |c: int| f((k - 1) * 8 + c);
        lemma_sum_ext(|j: int| f(8 * (k - 1) + j), row, 8);
    }
}

/// Summing `f` over the squares of the mirrored board is summing it over
/// the squares in flipped order.
proof fn lemma_sum_flipped(f: spec_fn(int) -> int)
    ensures
        sum(|k: int| f(flip_square(k)), 64) == sum(f, 64),
{
    let g = |k: int| f(flip_square(k));
    let row_f = |r: int| sum(|c: int| f(r * 8 + c), 8);
    let row_g = |r: int| sum(|c: int| g(r * 8 + c), 8);
    lemma_sum_by_ranks(f, 8);
    lemma_sum_by_ranks(g, 8);
    assert forall|r: int| 0 <= r < 8 implies #[trigger] row_g(r) == row_f(7 - r) by {
        assert forall|c: int| 0 <= c < 8 implies #[trigger] g(r * 8 + c) == f((7 - r) * 8 + c) by {
            lemma_square_coords(r, c);
        }
        lemma_sum_ext(|c: int| g(r * 8 + c), |c: int| f((7 - r) * 8 + c), 8);
    }
    lemma_sum_ext(row_g, |r: int| row_f(7 - r), 8);
    lemma_sum_reverse8(row_f);
}

proof fn lemma_role_count_mirror(board: Seq<Option<Piece>>, role: Role)
    requires
        board.len() == 64,
    ensures
        role_count(mirror_board(board), role) == role_count(board, role),
{
    let f = |k: int| if has_role(board[k], role) { 1int } else { 0int };
    let m = mirror_board(board);
    assert forall|k: int| 0 <= k < 64 implies (if has_role(#[trigger] m[k], role) { 1int } else { 0int }) == f(
        flip_square(k),
    ) by {
        lemma_square_coords(k / 8, k % 8);
    }
    lemma_sum_ext(
        |k: int| if has_role(m[k], role) { 1int } else { 0int },
        |k: int| f(flip_square(k)),
        64,
    );
    lemma_sum_flipped(f);
}

/// Mirroring the board vertically, swapping all piece colors and the side
/// to move leaves the evaluation unchanged: the evaluation favours neither
/// color.
pub proof fn lemma_evaluate_mirror(board: Seq<Option<Piece>>, turn: Color)
    requires
        board.len() == 64,
    ensures
        spec_evaluate(mirror_board(board), turn.spec_other()) == spec_evaluate(board, turn),
{
    let m = mirror_board(board);
    lemma_role_count_mirror(board, Role::Knight);
    lemma_role_count_mirror(board, Role::Bishop);
    lemma_role_count_mirror(board, Role::Rook);
    lemma_role_count_mirror(board, Role::Queen);
    let phase = spec_game_phase(board);
    assert(spec_game_phase(m) == phase);
    let f = |k: int| square_score(board[k], k, phase);
    assert forall|k: int| 0 <= k < 64 implies square_score(#[trigger] m[k], k, phase) == -f(flip_square(k)) by {
        lemma_square_coords(k / 8, k % 8);
        lemma_square_coords(7 - k / 8, k % 8);
    }
    lemma_sum_ext(|k: int| square_score(m[k], k, phase), |k: int| -f(flip_square(k)), 64);
    let g = |k: int| f(flip_square(k));
    lemma_sum_neg(g, 64);
    lemma_sum_ext(|k: int| -f(flip_square(k)), |k: int| -g(k), 64);
    lemma_sum_flipped(f);
    assert(sum(|k: int| -f(flip_square(k)), 64) == -sum(f, 64));
    lemma_sum_ext(|k: int| square_score(m[k], k, spec_game_phase(m)), |k: int| square_score(m[k], k, phase), 64);
    assert(white_score(m) == -white_score(board));
}

/// The standard starting position is balanced: it evaluates to 0 for
/// either side to move.
pub proof fn lemma_start_position_balanced(turn: Color)
    ensures
        spec_evaluate(crate::board::start_board(), turn) == 0,
{
    let s = crate::board::start_board();
    assert forall|k: int| 0 <= k < 64 implies #[trigger] mirror_board(s)[k] == s[k] by {
        lemma_square_coords(k / 8, k % 8);
    }
    assert(mirror_board(s) =~= s);
    lemma_evaluate_mirror(s, turn);
    lemma_evaluate_mirror(s, turn.spec_other());
}

} // verus!
