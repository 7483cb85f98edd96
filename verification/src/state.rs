//! Game and editor logic: the game timeline, FEN in and out, click-to-move
//! matching, castling-rights detection, game status and the move list.

use vstd::prelude::*;
use crate::board::{set_insert, spec_contains, spec_pieces, Board, SquareSet};
use crate::rules::{
    first_index, legal_index, lemma_first_index, play_nth, san_nth, spec_play_nth, spec_san_nth,
    legal_moves, parse_fen_position_raw, parse_fen_setup_raw, setup_fen_raw, setup_position_raw,
    spec_legal_moves, spec_parse_fen_position, spec_parse_fen_setup, spec_setup_fen,
    spec_setup_position, spec_trim, trim, Position, PositionFailure, spec_position_error_text, is_checkmate, is_stalemate,
    is_insufficient_material, is_check, turn, spec_turn, spec_is_check,
    spec_is_insufficient_material, fullmoves, spec_fullmoves,
};
use crate::types::{square, valid_square, CastlingSide, Color, Move, Piece, Role, Square};

verus! {

/// Top-level UI mode.
#[derive(Clone, Copy, PartialEq, Eq, Debug, Structural)]
pub enum AppMode {
    /// Normal alternating-turn play with full rules enforcement.
    Play,
    /// Free board editor: stamp, move and erase pieces at will.
    Setup,
}

/// Active tool while in [`AppMode::Setup`].
#[derive(Clone, Copy, PartialEq, Eq, Debug, Structural)]
pub enum SetupTool {
    /// Default tool: click a board piece to pick it up, click again to drop it.
    Pointer,
    /// One-shot carry of a piece picked up from `from` (drop cancels back to Pointer).
    Carry { piece: Piece, from: Square },
    /// Sticky stamp of a palette piece onto any square.
    Place(Piece),
    /// Remove pieces from clicked squares.
    Erase,
}

pub open spec fn spec_castle_king_target(m: Move) -> Option<Square> {
    match m {
        Move::Castle { king, rook } => Some(
            ((king / 8) * 8 + if king < rook {
                6u8
            } else {
                2u8
            }) as u8,
        ),
        _ => None,
    }
}

/// The king's destination square for a castling move (standard chess:
/// g-file king side, c-file queen side, on the king's rank).
pub fn castle_king_target(m: Move) -> (r: Option<Square>)
    requires
        m.wf(),
    ensures
        r == spec_castle_king_target(m),
        r matches Some(s) ==> valid_square(s),
{
    match (m, m.castling_side()) {
        (Move::Castle { king, .. }, Some(side)) => {
            let file: u8 = match side {
                CastlingSide::KingSide => 6,
                CastlingSide::QueenSide => 2,
            };
            Some(square(file, king / 8))
        },
        _ => None,
    }
}

pub open spec fn spec_display_squares(m: Move) -> (Square, Square) {
    match m {
        Move::Castle { king, .. } => (king, spec_castle_king_target(m).unwrap()),
        _ => (
            match m.spec_from() {
                Some(f) => f,
                None => m.spec_to(),
            },
            m.spec_to(),
        ),
    }
}

/// Squares to highlight for a played move. Castling is shown as the king's
/// real from and to squares (the rules engine encodes it king to rook).
pub fn display_squares(m: Move) -> (r: (Square, Square))
    requires
        m.wf(),
    ensures
        r == spec_display_squares(m),
        valid_square(r.0) && valid_square(r.1),
{
    match m {
        Move::Castle { king, .. } => (king, match castle_king_target(m) {
            Some(t) => t,
            None => king,
        }),
        _ => (
            match m.from() {
                Some(f) => f,
                None => m.to(),
            },
            m.to(),
        ),
    }
}

/// Board-editor convention: castling rights belong exactly to the rooks
/// on their home corner squares while the king of that color stands on
/// its home square.
pub open spec fn spec_castling_right(board: Seq<Option<Piece>>, corner: Square) -> bool {
    let color = if corner < 32 {
        Color::White
    } else {
        Color::Black
    };
    let back: u8 = if corner < 32 {
        0
    } else {
        7
    };
    &&& (corner == 0 || corner == 7 || corner == 56 || corner == 63)
    &&& board[back * 8 + 4] == Some(Piece { color, role: Role::King })
    &&& board[corner as int] == Some(Piece { color, role: Role::Rook })
}

fn castling_right(board: &Board, color: Color, rook_file: u8) -> (b: bool)
    requires
        rook_file == 0 || rook_file == 7,
    ensures
        b == spec_castling_right(board@, square(rook_file, color.spec_backrank())),
{
    let back = color.backrank();
    board.piece_at(square(4, back)) == Some(Piece { color, role: Role::King }) && board.piece_at(
        square(rook_file, back),
    ) == Some(Piece { color, role: Role::Rook })
}

pub open spec fn add_if(set: u64, cond: bool, s: u64) -> u64 {
    if cond {
        set | (1u64 << s)
    } else {
        set
    }
}

/// The castling rights that the board editor grants, as a square set.
pub open spec fn spec_castling_rights(board: Seq<Option<Piece>>) -> SquareSet {
    add_if(
        add_if(
            add_if(add_if(0u64, spec_castling_right(board, 0), 0), spec_castling_right(board, 7), 7),
            spec_castling_right(board, 56),
            56,
        ),
        spec_castling_right(board, 63),
        63,
    )
}

/// Castling rights (as rook squares) that the board editor grants:
/// a corner is in the set exactly when it holds a rook whose king stands
/// on its home square.
pub fn detect_castling_rights(board: &Board) -> (rights: SquareSet)
    ensures
        rights == spec_castling_rights(board@),
        forall|s: Square| valid_square(s) ==> (spec_contains(rights, s) <==> spec_castling_right(board@, s)),
{
    let mut rights: SquareSet = 0;
    proof {
        assert forall|s: Square| valid_square(s) implies !spec_contains(rights, s) by {
            crate::board::lemma_empty_set(s as u64);
        }
    }
    let ghost mut granted: Set<Square> = Set::empty();
    if castling_right(board, Color::White, 0) {
        rights = set_insert(rights, 0);
        proof { granted = granted.insert(0); }
    }
    if castling_right(board, Color::White, 7) {
        rights = set_insert(rights, 7);
        proof { granted = granted.insert(7); }
    }
    if castling_right(board, Color::Black, 0) {
        rights = set_insert(rights, 56);
        proof { granted = granted.insert(56); }
    }
    if castling_right(board, Color::Black, 7) {
        rights = set_insert(rights, 63);
        proof { granted = granted.insert(63); }
    }
    proof {
        assert forall|s: Square| valid_square(s) implies (spec_contains(rights, s) <==> spec_castling_right(board@, s)) by {
            assert(spec_contains(rights, s) <==> granted.contains(s));
        }
    }
    rights
}

/// A square is a castling right exactly when it is a corner that holds a
/// rook of that corner's side while that side's king stands on e1 (White,
/// corners a1 and h1) or e8 (Black, corners a8 and h8).
pub proof fn lemma_castling_right_reads_the_corner(board: Seq<Option<Piece>>, s: Square)
    ensures
        spec_castling_right(board, s) <==> {
            ||| (s == 0 || s == 7) && board[s as int] == Some(Piece { color: Color::White, role: Role::Rook })
                && board[4] == Some(Piece { color: Color::White, role: Role::King })
            ||| (s == 56 || s == 63) && board[s as int] == Some(Piece { color: Color::Black, role: Role::Rook })
                && board[60] == Some(Piece { color: Color::Black, role: Role::King })
        },
{
}

/// The message for a position refused with these kinds of error (bits)
/// and the rules engine's description `display`.
pub open spec fn spec_kinds_message(kinds: u32, display: Seq<char>) -> Seq<char> {
    if kinds & 1 != 0 {
        "The board is empty"@
    } else if kinds & 2 != 0 {
        "Each side needs exactly one king"@
    } else if kinds & 4 != 0 {
        "Each side may only have one king"@
    } else if kinds & 8 != 0 {
        "Pawns cannot stand on the first or eighth rank"@
    } else if kinds & 64 != 0 {
        "The side not to move is in check"@
    } else {
        "Illegal position: "@ + display
    }
}

pub open spec fn spec_friendly_message(e: PositionFailure) -> Seq<char> {
    spec_kinds_message(e.kinds, e.display@)
}

/// The message for a position the rules engine refuses with these kinds
/// of error.
pub open spec fn spec_rejection_message(kinds: u32) -> Seq<char> {
    spec_kinds_message(kinds, spec_position_error_text(kinds))
}

/// A user-facing message for a setup that is not a playable position,
/// chosen by the most basic problem found.
pub fn friendly_position_error(e: &PositionFailure) -> (msg: String)
    ensures
        msg@ == spec_friendly_message(*e),
{
    if e.kinds & 1 != 0 {
        String::from_str("The board is empty")
    } else if e.kinds & 2 != 0 {
        String::from_str("Each side needs exactly one king")
    } else if e.kinds & 4 != 0 {
        String::from_str("Each side may only have one king")
    } else if e.kinds & 8 != 0 {
        String::from_str("Pawns cannot stand on the first or eighth rank")
    } else if e.kinds & 64 != 0 {
        String::from_str("The side not to move is in check")
    } else {
        String::from_str("Illegal position: ").concat(e.display.as_str())
    }
}

pub open spec fn invalid_fen_message() -> Seq<char> {
    "Invalid FEN: could not parse the string"@
}

/// Parses a pasted FEN into a playable position, relaxing the checks that
/// a sandbox reasonably may.
pub fn parse_fen_position(input: &str) -> (r: Result<Position, String>)
    ensures
        match spec_parse_fen_position(spec_trim(input@)) {
            Ok(fen) => r matches Ok(p) && p@ == fen,
            Err(None) => r matches Err(msg) && msg@ == invalid_fen_message(),
            Err(Some(k)) => r matches Err(msg) && msg@ == spec_rejection_message(k),
        },
{
    match parse_fen_position_raw(trim(input)) {
        Ok(p) => Ok(p),
        Err(None) => Err(String::from_str("Invalid FEN: could not parse the string")),
        Err(Some(e)) => Err(friendly_position_error(&e)),
    }
}

/// Parses a pasted FEN into raw editor state (no legality requirements
/// beyond FEN syntax itself).
pub fn parse_fen_setup(input: &str) -> (r: Result<(Board, Color), String>)
    ensures
        match spec_parse_fen_setup(spec_trim(input@)) {
            Some((b, c)) => r matches Ok((board, turn)) && board@ == b && turn == c,
            None => r matches Err(msg) && msg@ == invalid_fen_message(),
        },
{
    match parse_fen_setup_raw(trim(input)) {
        Some((board, turn)) => Ok((board, turn)),
        None => Err(String::from_str("Invalid FEN: could not parse the string")),
    }
}

/// FEN of the empty board with White to move.
pub open spec fn empty_fen() -> Seq<char> {
    "8/8/8/8/8/8/8/8 w - - 0 1"@
}

/// The FEN text the editor shows for a board and side to move.
pub open spec fn spec_setup_fen_text(board: Seq<Option<Piece>>, turn: Color) -> Seq<char> {
    match spec_setup_fen(spec_pieces(board), turn, spec_castling_rights(board)) {
        Some(f) => f,
        None => empty_fen(),
    }
}

/// FEN for an arbitrary (possibly illegal) editor position, castling rights
/// as the editor grants them.
pub fn setup_fen(board: &Board, turn: Color) -> (fen: String)
    ensures
        fen@ == spec_setup_fen_text(board@, turn),
{
    let castling = detect_castling_rights(board);
    match setup_fen_raw(&board.pieces(), turn, castling) {
        Some(fen) => fen,
        None => String::from_str("8/8/8/8/8/8/8/8 w - - 0 1"),
    }
}

/// What the rules engine makes of an editor board and side to move, with
/// the castling rights the editor grants.
pub open spec fn spec_setup_result(board: Seq<Option<Piece>>, turn: Color) -> Result<Seq<char>, u32> {
    spec_setup_position(spec_pieces(board), turn, spec_castling_rights(board))
}

/// Tries to make an editor position into a playable position, relaxing the
/// checks that a sandbox reasonably may (extra material, physically
/// impossible checks).
pub fn setup_position(board: &Board, turn: Color) -> (r: Result<Position, String>)
    ensures
        match spec_setup_result(board@, turn) {
            Ok(fen) => r matches Ok(p) && p@ == fen,
            Err(k) => r matches Err(msg) && msg@ == spec_rejection_message(k),
        },
{
    let castling = detect_castling_rights(board);
    match setup_position_raw(&board.pieces(), turn, castling) {
        Ok(p) => Ok(p),
        Err(e) => Err(friendly_position_error(&e)),
    }
}

/// Canonical FEN of a live position.
pub fn position_fen(pos: &Position) -> (fen: String)
    ensures
        fen@ == pos@,
{
    pos.fen()
}

/// One entry of the game timeline: the position *after* `san` was played.
#[derive(Debug)]
pub struct Ply {
    pub pos: Position,
    /// SAN of the move that led here (`None` for the root position).
    pub san: Option<String>,
    /// From/to squares to highlight (king from and to for castling).
    pub last_move: Option<(Square, Square)>,
}

/// A navigable game timeline. The history is never empty and the cursor
/// always points into it.
#[derive(Debug)]
pub struct Game {
    history: Vec<Ply>,
    cursor: usize,
}

pub open spec fn san_view(san: Option<String>) -> Option<Seq<char>> {
    match san {
        Some(s) => Some(s@),
        None => None,
    }
}

pub open spec fn spec_goto_cursor(len: int, ply: int) -> int {
    if ply < len - 1 {
        ply
    } else {
        len - 1
    }
}

pub open spec fn spec_prev_cursor(cursor: int) -> int {
    if cursor > 0 {
        cursor - 1
    } else {
        0
    }
}

pub open spec fn spec_next_cursor(len: int, cursor: int) -> int {
    if cursor + 1 < len - 1 {
        cursor + 1
    } else {
        len - 1
    }
}

/// One operation on a game timeline.
pub enum TimelineOp {
    Goto(usize),
    First,
    Prev,
    Next,
    Last,
    Play(Move),
}

/// What one timeline operation does, as the methods of [`Game`] state it.
pub open spec fn timeline_step(before: Game, op: TimelineOp, after: Game) -> bool {
    match op {
        TimelineOp::Goto(ply) => after.plies() == before.plies() && after.spec_cursor() == spec_goto_cursor(
            before.plies().len() as int,
            ply as int,
        ),
        TimelineOp::First => after.plies() == before.plies() && after.spec_cursor() == 0,
        TimelineOp::Prev => after.plies() == before.plies() && after.spec_cursor() == spec_prev_cursor(before.spec_cursor()),
        TimelineOp::Next => after.plies() == before.plies() && after.spec_cursor() == spec_next_cursor(
            before.plies().len() as int,
            before.spec_cursor(),
        ),
        TimelineOp::Last => after.plies() == before.plies() && after.spec_cursor() == before.plies().len() - 1,
        TimelineOp::Play(m) => if spec_legal_moves(before.shown().pos@).contains(m) {
            after.is_played(before, m, first_index(spec_legal_moves(before.shown().pos@), m))
        } else {
            after == before
        },
    }
}

/// A timeline that is not empty, with its cursor inside it.
pub open spec fn timeline_whole(g: Game) -> bool {
    g.plies().len() > 0 && 0 <= g.spec_cursor() < g.plies().len()
}

impl Game {
    #[verifier::type_invariant]
    spec fn inv(self) -> bool {
        &&& self.history@.len() > 0
        &&& self.cursor < self.history@.len()
    }

    /// The timeline, root first.
    pub closed spec fn plies(&self) -> Seq<Ply> {
        self.history@
    }

    /// Index of the displayed ply.
    pub closed spec fn spec_cursor(&self) -> int {
        self.cursor as int
    }

    /// The ply shown on the board.
    pub open spec fn shown(&self) -> Ply {
        self.plies()[self.spec_cursor()]
    }

    /// A played move as `play` records it: the history up to the shown ply,
    /// then the position after the move (legal move number `i` of the shown
    /// position), and the cursor on it.
    pub open spec fn is_played(&self, before: Game, m: Move, i: int) -> bool {
        let fen = before.shown().pos@;
        &&& 0 <= i < spec_legal_moves(fen).len()
        &&& spec_legal_moves(fen)[i] == m
        &&& self.plies().len() == before.spec_cursor() + 2
        &&& forall|k: int| 0 <= k <= before.spec_cursor() ==> #[trigger] self.plies()[k] == before.plies()[k]
        &&& self.plies()[before.spec_cursor() + 1].pos@ == spec_play_nth(fen, i)
        &&& san_view(self.plies()[before.spec_cursor() + 1].san) == Some(spec_san_nth(fen, i))
        &&& self.plies()[before.spec_cursor() + 1].last_move == Some(spec_display_squares(m))
        &&& self.spec_cursor() == before.spec_cursor() + 1
    }

    /// Facts every game value satisfies.
    pub fn well_formed(&self)
        ensures
            self.plies().len() > 0,
            0 <= self.spec_cursor() < self.plies().len(),
    {
        proof {
            use_type_invariant(self);
        }
    }

    /// A timeline holding only `root`.
    pub fn new(root: Position) -> (g: Game)
        ensures
            g.plies().len() == 1,
            g.plies()[0].pos@ == root@,
            g.plies()[0].san is None,
            g.plies()[0].last_move is None,
            g.spec_cursor() == 0,
    {
        let mut history: Vec<Ply> = Vec::new();
        history.push(Ply { pos: root, san: None, last_move: None });
        Game { history, cursor: 0 }
    }

    pub fn history(&self) -> (h: &[Ply])
        ensures
            h@ == self.plies(),
    {
        self.history.as_slice()
    }

    pub fn cursor(&self) -> (c: usize)
        ensures
            c == self.spec_cursor(),
    {
        self.cursor
    }

    /// The ply currently shown on the board.
    pub fn displayed(&self) -> (p: &Ply)
        ensures
            *p == self.shown(),
    {
        proof {
            use_type_invariant(self);
        }
        &self.history[self.cursor]
    }

    pub fn at_start(&self) -> (b: bool)
        ensures
            b == (self.spec_cursor() == 0),
    {
        self.cursor == 0
    }

    pub fn at_latest(&self) -> (b: bool)
        ensures
            b == (self.spec_cursor() + 1 == self.plies().len()),
    {
        proof {
            use_type_invariant(self);
        }
        self.cursor == self.history.len() - 1
    }

    /// Shows ply `ply`, or the latest ply if there are fewer.
    pub fn goto(&mut self, ply: usize)
        ensures
            final(self).plies() == old(self).plies(),
            final(self).spec_cursor() == spec_goto_cursor(old(self).plies().len() as int, ply as int),
            timeline_step(*old(self), TimelineOp::Goto(ply), *final(self)),
    {
        proof {
            use_type_invariant(&*self);
        }
        let last = self.history.len() - 1;
        self.cursor = if ply < last {
            ply
        } else {
            last
        };
    }

    pub fn first(&mut self)
        ensures
            final(self).plies() == old(self).plies(),
            final(self).spec_cursor() == 0,
            timeline_step(*old(self), TimelineOp::First, *final(self)),
    {
        proof {
            use_type_invariant(&*self);
        }
        self.cursor = 0;
    }

    pub fn prev(&mut self)
        ensures
            final(self).plies() == old(self).plies(),
            final(self).spec_cursor() == spec_prev_cursor(old(self).spec_cursor()),
            timeline_step(*old(self), TimelineOp::Prev, *final(self)),
    {
        proof {
            use_type_invariant(&*self);
        }
        self.cursor = self.cursor.saturating_sub(1);
    }

    pub fn next(&mut self)
        ensures
            final(self).plies() == old(self).plies(),
            final(self).spec_cursor() == spec_next_cursor(old(self).plies().len() as int, old(self).spec_cursor()),
            timeline_step(*old(self), TimelineOp::Next, *final(self)),
    {
        proof {
            use_type_invariant(&*self);
        }
        let last = self.history.len() - 1;
        let next = self.cursor + 1;
        self.cursor = if next < last {
            next
        } else {
            last
        };
    }

    pub fn last(&mut self)
        ensures
            final(self).plies() == old(self).plies(),
            final(self).spec_cursor() == old(self).plies().len() - 1,
            timeline_step(*old(self), TimelineOp::Last, *final(self)),
    {
        proof {
            use_type_invariant(&*self);
        }
        self.cursor = self.history.len() - 1;
    }

    /// Plays `m` from the *displayed* position. If the cursor sits in the
    /// middle of the timeline, all future plies are dropped first (a new
    /// branch overwrites the future). Returns `false`, changing nothing, for
    /// a move that is not legal there.
    pub fn play(&mut self, m: Move) -> (ok: bool)
        ensures
            ok == spec_legal_moves(old(self).shown().pos@).contains(m),
            ok ==> final(self).is_played(*old(self), m, first_index(spec_legal_moves(old(self).shown().pos@), m)),
            !ok ==> *final(self) == *old(self),
            timeline_step(*old(self), TimelineOp::Play(m), *final(self)),
    {
        proof {
            use_type_invariant(&*self);
        }
        let cursor = self.cursor;
        let idx = match legal_index(&self.history[cursor].pos, m) {
            Some(i) => i,
            None => return false,
        };
        let ghost fen = self.history@[cursor as int].pos@;
        proof {
            lemma_first_index(spec_legal_moves(fen), idx as int, m);
        }
        let moves = legal_moves(&self.history[cursor].pos);
        let san = san_nth(&self.history[cursor].pos, idx);
        let after = play_nth(&self.history[cursor].pos, idx);
        let shown = display_squares(moves[idx]);
        let ghost before = self.history@;
        // Take the timeline out, leaving a one-ply stand-in, so that the
        // game stays whole while the timeline is cut and extended.
        let mut timeline: Vec<Ply> = Vec::new();
        timeline.push(Ply { pos: self.history[cursor].pos.duplicate(), san: None, last_move: None });
        self.cursor = 0;
        std::mem::swap(&mut self.history, &mut timeline);
        assert(cursor < timeline.len());
        timeline.truncate(cursor + 1);
        timeline.push(Ply { pos: after, san: Some(san), last_move: Some(shown) });
        let latest = timeline.len() - 1;
        self.history = timeline;
        self.cursor = latest;
        proof {
            assert forall|k: int| 0 <= k <= cursor implies #[trigger] self.history@[k] == before[k] by {}
        }
        true
    }
}

impl Default for Game {
    fn default() -> (g: Game)
        ensures
            g.plies().len() == 1,
            g.plies()[0].pos@ == crate::rules::start_fen(),
            g.plies()[0].san is None,
            g.plies()[0].last_move is None,
            g.spec_cursor() == 0,
    {
        Game::new(Position::initial())
    }
}


/// Whether a click from `from` to `to` asks for move `m`. Castling is
/// matched on the king's destination square (g- or c-file).
pub open spec fn click_match(m: Move, from: Square, to: Square) -> bool {
    match m {
        Move::Castle { king, .. } => king == from && spec_castle_king_target(m) == Some(to),
        _ => m.spec_from() == Some(from) && m.spec_to() == to,
    }
}

/// The moves of `moves` that a click from `from` to `to` asks for, in order.
pub open spec fn spec_click_moves(moves: Seq<Move>, from: Square, to: Square) -> Seq<Move> {
    moves.filter(|m: Move| click_match(m, from, to))
}

fn is_click_match(m: Move, from: Square, to: Square) -> (b: bool)
    requires
        m.wf(),
    ensures
        b == click_match(m, from, to),
{
    match m {
        Move::Castle { king, .. } => king == from && match castle_king_target(m) {
            Some(t) => t == to,
            None => false,
        },
        _ => match m.from() {
            Some(f) => f == from && m.to() == to,
            None => false,
        },
    }
}

/// All legal moves that a click from `from` to `to` should trigger, in the
/// order of the legal moves. More than one match means the user must pick a
/// promotion piece.
pub fn click_moves(pos: &Position, from: Square, to: Square) -> (r: Vec<Move>)
    ensures
        r@ == spec_click_moves(spec_legal_moves(pos@), from, to),
{
    let all = legal_moves(pos);
    let mut r: Vec<Move> = Vec::new();
    let mut i: usize = 0;
    while i < all.len()
        invariant
            i <= all@.len(),
            all@ == spec_legal_moves(pos@),
            forall|k: int| 0 <= k < all@.len() ==> (#[trigger] all@[k]).wf(),
            r@ == spec_click_moves(all@.subrange(0, i as int), from, to),
        decreases all@.len() - i,
    {
        let m = all[i];
        proof {
            assert(all@.subrange(0, i + 1) =~= all@.subrange(0, i as int).push(m));
            all@.subrange(0, i as int).lemma_filter_push(m, |m: Move| click_match(m, from, to));
            assert(spec_click_moves(all@.subrange(0, i + 1), from, to) == spec_click_moves(all@.subrange(0, i as int).push(m), from, to));
        }
        if is_click_match(m, from, to) {
            r.push(m);
        }
        i = i + 1;
    }
    assert(all@.subrange(0, all@.len() as int) =~= all@);
    r
}

/// Some legal move among the first `n` leads from `from` to `s` (by the
/// click convention); with `capture`, one that also captures.
pub open spec fn reaches(moves: Seq<Move>, n: int, from: Square, s: Square, capture: bool) -> bool {
    exists|k: int|
        0 <= k < n && #[trigger] click_match(moves[k], from, s) && (capture ==> moves[k].spec_capture() is Some)
}

/// `(all destinations, capture destinations)` for the piece on `from`,
/// used to render move hints: a square is in the first set when a legal
/// move from `from` goes there (castling: the king's destination), and in
/// the second when such a move captures.
pub fn destinations(pos: &Position, from: Square) -> (r: (SquareSet, SquareSet))
    ensures
        forall|s: Square| valid_square(s) ==> (spec_contains(r.0, s) <==> reaches(spec_legal_moves(pos@), spec_legal_moves(pos@).len() as int, from, s, false)),
        forall|s: Square| valid_square(s) ==> (spec_contains(r.1, s) <==> reaches(spec_legal_moves(pos@), spec_legal_moves(pos@).len() as int, from, s, true)),
{
    let moves = legal_moves(pos);
    let ghost ms = moves@;
    let mut all: SquareSet = 0;
    let mut captures: SquareSet = 0;
    proof {
        assert forall|s: Square| valid_square(s) implies !spec_contains(0u64, s) by {
            crate::board::lemma_empty_set(s as u64);
        }
    }
    let mut i: usize = 0;
    while i < moves.len()
        invariant
            i <= ms.len(),
            ms == moves@,
            ms == spec_legal_moves(pos@),
            forall|k: int| 0 <= k < ms.len() ==> (#[trigger] ms[k]).wf(),
            forall|s: Square| valid_square(s) ==> (spec_contains(all, s) <==> reaches(ms, i as int, from, s, false)),
            forall|s: Square| valid_square(s) ==> (spec_contains(captures, s) <==> reaches(ms, i as int, from, s, true)),
        decreases ms.len() - i,
    {
        let m = moves[i];
        let target: Option<Square> = match m {
            Move::Castle { king, .. } => if king == from {
                castle_king_target(m)
            } else {
                None
            },
            _ => match m.from() {
                Some(f) => if f == from {
                    Some(m.to())
                } else {
                    None
                },
                None => None,
            },
        };
        let ghost old_all = all;
        let ghost old_captures = captures;
        match target {
            Some(t) => {
                all = set_insert(all, t);
                if m.capture().is_some() {
                    captures = set_insert(captures, t);
                }
            },
            None => {},
        }
        proof {
            assert forall|s: Square| valid_square(s) implies (click_match(m, from, s) <==> target == Some(s)) by {}
            assert forall|s: Square| valid_square(s) implies (spec_contains(all, s) <==> reaches(ms, i + 1, from, s, false)) by {
                if reaches(ms, i + 1, from, s, false) && !reaches(ms, i as int, from, s, false) {
                    let k = choose|k: int| 0 <= k < i + 1 && #[trigger] click_match(ms[k], from, s) && (false ==> ms[k].spec_capture() is Some);
                    assert(k == i);
                }
                if spec_contains(all, s) && !spec_contains(old_all, s) {
                    assert(click_match(ms[i as int], from, s));
                }
            }
            assert forall|s: Square| valid_square(s) implies (spec_contains(captures, s) <==> reaches(ms, i + 1, from, s, true)) by {
                if reaches(ms, i + 1, from, s, true) && !reaches(ms, i as int, from, s, true) {
                    let k = choose|k: int| 0 <= k < i + 1 && #[trigger] click_match(ms[k], from, s) && (true ==> ms[k].spec_capture() is Some);
                    assert(k == i);
                }
                if spec_contains(captures, s) && !spec_contains(old_captures, s) {
                    assert(click_match(ms[i as int], from, s));
                }
            }
        }
        i = i + 1;
    }
    (all, captures)
}

/// Some move in `moves` promotes to `role`.
pub open spec fn offers(moves: Seq<Move>, role: Role) -> bool {
    exists|k: int| 0 <= k < moves.len() && #[trigger] moves[k].spec_promotion() == Some(role)
}

pub open spec fn role_if(moves: Seq<Move>, role: Role) -> Seq<Role> {
    if offers(moves, role) {
        seq![role]
    } else {
        Seq::empty()
    }
}

/// The promotion roles offered by `moves`, in display order: queen, rook,
/// bishop, knight.
pub open spec fn spec_promotion_roles(moves: Seq<Move>) -> Seq<Role> {
    role_if(moves, Role::Queen) + role_if(moves, Role::Rook) + role_if(moves, Role::Bishop) + role_if(
        moves,
        Role::Knight,
    )
}

fn offers_exec(moves: &[Move], role: Role) -> (b: bool)
    ensures
        b == offers(moves@, role),
{
    let mut i: usize = 0;
    while i < moves.len()
        invariant
            i <= moves@.len(),
            forall|k: int| 0 <= k < i ==> (#[trigger] moves@[k]).spec_promotion() != Some(role),
        decreases moves@.len() - i,
    {
        if moves[i].promotion() == Some(role) {
            return true;
        }
        i = i + 1;
    }
    false
}

/// Promotion roles offered by a set of matching moves, in display order.
pub fn promotion_roles(moves: &[Move]) -> (r: Vec<Role>)
    ensures
        r@ == spec_promotion_roles(moves@),
{
    let mut r: Vec<Role> = Vec::new();
    if offers_exec(moves, Role::Queen) {
        r.push(Role::Queen);
    }
    let ghost r1 = r@;
    assert(r1 == role_if(moves@, Role::Queen));
    if offers_exec(moves, Role::Rook) {
        r.push(Role::Rook);
    }
    assert(r@ == r1 + role_if(moves@, Role::Rook));
    let ghost r2 = r@;
    if offers_exec(moves, Role::Bishop) {
        r.push(Role::Bishop);
    }
    assert(r@ == r2 + role_if(moves@, Role::Bishop));
    let ghost r3 = r@;
    if offers_exec(moves, Role::Knight) {
        r.push(Role::Knight);
    }
    assert(r@ == r3 + role_if(moves@, Role::Knight));
    r
}

/// Displayable game state of a position.
#[derive(Clone, Copy, PartialEq, Eq, Debug, Structural)]
pub enum GameStatus {
    /// Normal: given side to move.
    Turn(Color),
    /// Side to move is in check.
    Check(Color),
    /// Checkmate; the contained color is the *winner*.
    Checkmate(Color),
    Stalemate,
    /// Draw: neither side can possibly mate.
    InsufficientMaterial,
}

pub open spec fn spec_game_status(fen: Seq<char>) -> GameStatus {
    let turn = spec_turn(fen);
    let stuck = spec_legal_moves(fen).len() == 0;
    if spec_is_check(fen) && stuck {
        GameStatus::Checkmate(turn.spec_other())
    } else if stuck {
        GameStatus::Stalemate
    } else if spec_is_insufficient_material(fen) {
        GameStatus::InsufficientMaterial
    } else if spec_is_check(fen) {
        GameStatus::Check(turn)
    } else {
        GameStatus::Turn(turn)
    }
}

/// The game state of a position: checkmate first (naming the winner), then
/// stalemate, dead material, check, or simply whose turn it is.
pub fn game_status(pos: &Position) -> (st: GameStatus)
    ensures
        st == spec_game_status(pos@),
{
    if is_checkmate(pos) {
        GameStatus::Checkmate(turn(pos).other())
    } else if is_stalemate(pos) {
        GameStatus::Stalemate
    } else if is_insufficient_material(pos) {
        GameStatus::InsufficientMaterial
    } else if is_check(pos) {
        GameStatus::Check(turn(pos))
    } else {
        GameStatus::Turn(turn(pos))
    }
}

/// How the status follows from the rules: without a legal move the game is
/// checkmate (won by the side not to move) or stalemate; with legal moves,
/// dead material is a draw whether or not the king is in check, and
/// otherwise a check or simply the side to move is shown.
pub proof fn lemma_game_status_follows_the_rules(fen: Seq<char>)
    ensures
        spec_legal_moves(fen).len() == 0 && spec_is_check(fen) ==> spec_game_status(fen) == GameStatus::Checkmate(
            spec_turn(fen).spec_other(),
        ),
        spec_legal_moves(fen).len() == 0 && !spec_is_check(fen) ==> spec_game_status(fen) == GameStatus::Stalemate,
        spec_legal_moves(fen).len() > 0 && spec_is_insufficient_material(fen) ==> spec_game_status(fen)
            == GameStatus::InsufficientMaterial,
        spec_legal_moves(fen).len() > 0 && !spec_is_insufficient_material(fen) && spec_is_check(fen)
            ==> spec_game_status(fen) == GameStatus::Check(spec_turn(fen)),
        spec_legal_moves(fen).len() > 0 && !spec_is_insufficient_material(fen) && !spec_is_check(fen)
            ==> spec_game_status(fen) == GameStatus::Turn(spec_turn(fen)),
{
}

/// One numbered row of the move list.
#[derive(Clone, PartialEq, Eq, Debug)]
pub struct MoveRow {
    pub number: u32,
    /// `(ply index, SAN)` of White's move, if present in this row.
    pub white: Option<(usize, String)>,
    /// `(ply index, SAN)` of Black's move, if present in this row.
    pub black: Option<(usize, String)>,
}

/// Half of a move-list row, by value.
pub type HalfView = Option<(usize, Seq<char>)>;

pub open spec fn half_view(h: Option<(usize, String)>) -> HalfView {
    match h {
        Some((i, s)) => Some((i, s@)),
        None => None,
    }
}

/// A move-list row by value: number, White's half, Black's half.
pub open spec fn row_view(r: MoveRow) -> (u32, HalfView, HalfView) {
    (r.number, half_view(r.white), half_view(r.black))
}

/// A move list by value.
pub open spec fn rows_view(rows: Seq<MoveRow>) -> Seq<(u32, HalfView, HalfView)> {
    rows.map_values(|r: MoveRow| row_view(r))
}

/// The SAN text recorded in a ply (empty for the root).
pub open spec fn san_text(san: Option<String>) -> Seq<char> {
    match san {
        Some(s) => s@,
        None => Seq::empty(),
    }
}

/// The move list after adding ply `idx`: White's move opens a new row
/// numbered by the move number of the position before it; Black's move
/// completes the last row if that row has the same number and only White's
/// half, and otherwise opens a row with an empty White half.
pub open spec fn rows_step(rows: Seq<(u32, HalfView, HalfView)>, plies: Seq<Ply>, idx: int) -> Seq<(u32, HalfView, HalfView)> {
    let before = plies[idx - 1].pos@;
    let number = spec_fullmoves(before);
    let half: HalfView = Some((idx as usize, san_text(plies[idx].san)));
    if spec_turn(before) == Color::White {
        rows.push((number, half, None))
    } else if rows.len() > 0 && rows.last().0 == number && rows.last().2 is None && rows.last().1 is Some {
        rows.update(rows.len() - 1, (number, rows.last().1, half))
    } else {
        rows.push((number, None, half))
    }
}

/// The move list of the first `n` plies of a timeline (the root ply has no
/// move).
pub open spec fn spec_move_rows(plies: Seq<Ply>, n: int) -> Seq<(u32, HalfView, HalfView)>
    decreases n,
{
    if n <= 1 {
        Seq::empty()
    } else {
        rows_step(spec_move_rows(plies, n - 1), plies, n - 1)
    }
}

/// Folds the timeline into standard numbered SAN rows. A game whose root
/// position has Black to move (loaded from FEN) gets an empty White half
/// in its first row.
pub fn move_rows(history: &[Ply]) -> (rows: Vec<MoveRow>)
    ensures
        rows_view(rows@) == spec_move_rows(history@, history@.len() as int),
{
    let mut rows: Vec<MoveRow> = Vec::new();
    let mut idx: usize = 1;
    while idx < history.len()
        invariant
            1 <= idx,
            idx == 1 || idx <= history@.len(),
            rows_view(rows@) == spec_move_rows(history@, idx as int),
        decreases history@.len() - idx,
    {
        let ghost prev = rows@;
        let before = &history[idx - 1].pos;
        let number = fullmoves(before);
        let san = match &history[idx].san {
            Some(text) => text.clone(),
            None => String::new(),
        };
        let ghost half: HalfView = Some((idx, san@));
        let ghost want = spec_move_rows(history@, idx + 1);
        assert(want == rows_step(spec_move_rows(history@, idx as int), history@, idx as int));
        if turn(before) == Color::White {
            rows.push(MoveRow { number, white: Some((idx, san)), black: None });
            assert(rows_view(rows@) =~= rows_view(prev).push((number, half, None)));
        } else {
            match rows.pop() {
                Some(row) => {
                    if row.number == number && row.black.is_none() && row.white.is_some() {
                        let ghost w = half_view(row.white);
                        rows.push(MoveRow { number: row.number, white: row.white, black: Some((idx, san)) });
                        assert(rows_view(rows@) =~= rows_view(prev).update(prev.len() - 1, (number, w, half)));
                    } else {
                        rows.push(row);
                        rows.push(MoveRow { number, white: None, black: Some((idx, san)) });
                        assert(rows_view(rows@) =~= rows_view(prev).push((number, None, half)));
                    }
                },
                None => {
                    rows.push(MoveRow { number, white: None, black: Some((idx, san)) });
                    assert(rows_view(rows@) =~= rows_view(prev).push((number, None, half)));
                },
            }
        }
        idx = idx + 1;
    }
    proof {
        if history@.len() == 0 {
            assert(spec_move_rows(history@, 1) =~= Seq::empty());
            assert(spec_move_rows(history@, 0) =~= Seq::empty());
        }
    }
    rows
}

/// Move hints and clicks agree: a square is shown as a destination of the
/// piece on `from` exactly when a click from `from` to it triggers at least
/// one legal move.
pub proof fn lemma_hints_match_clicks(moves: Seq<Move>, from: Square, to: Square)
    ensures
        reaches(moves, moves.len() as int, from, to, false) <==> spec_click_moves(moves, from, to).len() > 0,
{
    let pred = |m: Move| click_match(m, from, to);
    if reaches(moves, moves.len() as int, from, to, false) {
        let k = choose|k: int| 0 <= k < moves.len() && #[trigger] click_match(moves[k], from, to) && (false ==> moves[k].spec_capture() is Some);
        moves.lemma_filter_contains(pred, k);
    }
    if spec_click_moves(moves, from, to).len() > 0 {
        let first = moves.filter(pred)[0];
        moves.lemma_filter_pred(pred, 0);
        moves.lemma_filter_contains_rev(pred, first);
        let k = choose|k: int| 0 <= k < moves.len() && moves[k] == first;
        assert(click_match(moves[k], from, to));
    }
}

/// Every capture hint is also a destination hint.
pub proof fn lemma_capture_hints_are_destinations(moves: Seq<Move>, from: Square, s: Square)
    ensures
        reaches(moves, moves.len() as int, from, s, true) ==> reaches(moves, moves.len() as int, from, s, false),
{
    if reaches(moves, moves.len() as int, from, s, true) {
        let k = choose|k: int| 0 <= k < moves.len() && #[trigger] click_match(moves[k], from, s) && (true ==> moves[k].spec_capture() is Some);
        assert(click_match(moves[k], from, s) && (false ==> moves[k].spec_capture() is Some));
    }
}

/// After a move is played the game shows its latest ply, and stepping back
/// once shows again the position the move was played from, with the
/// timeline up to it unchanged.
pub proof fn lemma_prev_undoes_play(before: Game, after: Game, m: Move, i: int)
    requires
        after.is_played(before, m, i),
    ensures
        after.spec_cursor() == after.plies().len() - 1,
        after.plies()[spec_prev_cursor(after.spec_cursor())] == before.shown(),
        spec_prev_cursor(after.spec_cursor()) == before.spec_cursor(),
        forall|k: int| 0 <= k <= spec_prev_cursor(after.spec_cursor()) ==> #[trigger] after.plies()[k] == before.plies()[k],
{
    assert(after.plies()[before.spec_cursor()] == before.plies()[before.spec_cursor()]);
}

/// The entry of a half row, as a one-element or empty sequence.
pub open spec fn half_entries(h: HalfView) -> Seq<(usize, Seq<char>)> {
    match h {
        Some(e) => seq![e],
        None => Seq::empty(),
    }
}

/// The entries `(ply index, SAN)` of a move list, row by row, White's half
/// before Black's.
pub open spec fn row_entries(rows: Seq<(u32, HalfView, HalfView)>) -> Seq<(usize, Seq<char>)>
    decreases rows.len(),
{
    if rows.len() == 0 {
        Seq::empty()
    } else {
        row_entries(rows.drop_last()) + half_entries(rows.last().1) + half_entries(rows.last().2)
    }
}

/// The move list holds every move of the timeline exactly once, in order:
/// read row by row, its entries are the plies `1..n` with their SAN.
pub proof fn lemma_move_rows_list_every_move(plies: Seq<Ply>, n: int)
    requires
        1 <= n <= plies.len(),
        plies.len() <= usize::MAX,
    ensures
        row_entries(spec_move_rows(plies, n)) == Seq::new(
            (n - 1) as nat,
            |k: int| ((k + 1) as usize, san_text(plies[k + 1].san)),
        ),
    decreases n,
{
    if n == 1 {
        assert(row_entries(spec_move_rows(plies, 1)) =~= Seq::empty());
        assert(Seq::new(0nat, |k: int| ((k + 1) as usize, san_text(plies[k + 1].san))) =~= Seq::<(usize, Seq<char>)>::empty());
    } else {
        lemma_move_rows_list_every_move(plies, n - 1);
        let rows = spec_move_rows(plies, n - 1);
        let idx = n - 1;
        let entry = (idx as usize, san_text(plies[idx].san));
        let next = rows_step(rows, plies, idx);
        assert(spec_move_rows(plies, n) == next);
        let before = plies[idx - 1].pos@;
        let number = spec_fullmoves(before);
        let half: HalfView = Some(entry);
        if spec_turn(before) == Color::White {
            assert(next.drop_last() =~= rows);
        } else if rows.len() > 0 && rows.last().0 == number && rows.last().2 is None && rows.last().1 is Some {
            assert(next.drop_last() =~= rows.drop_last());
            assert(row_entries(rows) == row_entries(rows.drop_last()) + half_entries(rows.last().1) + half_entries(rows.last().2));
            assert(half_entries(rows.last().2) =~= Seq::<(usize, Seq<char>)>::empty());
        } else {
            assert(next.drop_last() =~= rows);
        }
        assert(row_entries(next) =~= row_entries(rows).push(entry));
        assert(row_entries(next) =~= Seq::new((n - 1) as nat, |k: int| ((k + 1) as usize, san_text(plies[k + 1].san))));
    }
}

/// One timeline operation keeps a whole timeline whole and keeps its root.
proof fn lemma_step_keeps_root(before: Game, op: TimelineOp, after: Game)
    requires
        timeline_whole(before),
        timeline_step(before, op, after),
    ensures
        timeline_whole(after),
        after.plies()[0] == before.plies()[0],
{
    match op {
        TimelineOp::Play(m) => {
            if spec_legal_moves(before.shown().pos@).contains(m) {
                assert(after.plies()[0] == before.plies()[0]);
            }
        },
        _ => {},
    }
}

/// Any run of timeline operations from a whole timeline keeps it whole
/// (never empty, the cursor inside it) and keeps its root ply.
pub proof fn lemma_timeline_keeps_root(games: Seq<Game>, ops: Seq<TimelineOp>)
    requires
        games.len() == ops.len() + 1,
        timeline_whole(games[0]),
        forall|i: int| 0 <= i < ops.len() ==> timeline_step(games[i], #[trigger] ops[i], games[i + 1]),
    ensures
        forall|i: int| 0 <= i < games.len() ==> timeline_whole(#[trigger] games[i]) && games[i].plies()[0] == games[0].plies()[0],
    decreases ops.len(),
{
    if ops.len() > 0 {
        let n = ops.len() - 1;
        let head = games.subrange(0, n + 1);
        let head_ops = ops.subrange(0, n);
        assert forall|i: int| 0 <= i < head_ops.len() implies timeline_step(head[i], #[trigger] head_ops[i], head[i + 1]) by {
            assert(head[i] == games[i] && head[i + 1] == games[i + 1] && head_ops[i] == ops[i]);
        }
        lemma_timeline_keeps_root(head, head_ops);
        assert(head[n] == games[n]);
        lemma_step_keeps_root(games[n], ops[n], games[n + 1]);
        assert forall|i: int| 0 <= i < games.len() implies timeline_whole(#[trigger] games[i]) && games[i].plies()[0]
            == games[0].plies()[0] by {
            if i <= n {
                assert(head[i] == games[i]);
            }
        }
    }
}

/// Playing a move keeps the root of the timeline: every timeline
/// operation keeps the first ply (navigation keeps all of them).
pub proof fn lemma_play_keeps_root(before: Game, after: Game, m: Move, i: int)
    requires
        after.is_played(before, m, i),
    ensures
        after.plies()[0] == before.plies()[0],
{
    assert(0 <= before.spec_cursor());
}

} // verus!
