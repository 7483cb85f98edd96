//! Chess rules, as computed by the `shakmaty` rules engine.
//!
//! A [`Position`] is a legal chess position together with its FEN (written
//! with the en passant square only where an en passant capture is legal).
//! Every question about the rules goes through one of the functions below;
//! their results are named by uninterpreted spec functions of the FEN, so
//! that the rest of the library can state exactly what it does with them.

use vstd::prelude::*;
use shakmaty::fen::Fen;
use shakmaty::san::SanPlus;
use shakmaty::zobrist::Zobrist64;
use shakmaty::{Bitboard, CastlingMode, Chess, EnPassantMode, FromSetup, PositionError, Setup};
use shakmaty::Color as RulesColor;
use shakmaty::Move as RulesMove;
use shakmaty::Piece as RulesPiece;
use shakmaty::Position as RulesPosition;
use shakmaty::Role as RulesRole;
use shakmaty::Square as RulesSquare;
use crate::board::Board;
use crate::types::{valid_square, Color, Move, Piece, Role, Square};

verus! {

#[verifier::external_type_specification]
#[verifier::external_body]
pub struct ExChess(Chess);

#[verifier::external_type_specification]
#[verifier::external_body]
#[verifier::reject_recursive_types(P)]
pub struct ExPositionError<P>(PositionError<P>);

/// Position-error kind (as the rules engine numbers it): castling rights
/// without the king and rook to back them.
pub const INVALID_CASTLING_RIGHTS: u32 = 16;

/// Position-error kind: an en passant square no double pawn push explains.
pub const INVALID_EP_SQUARE: u32 = 32;

/// Position-error kind: a check no legal last move could have given.
pub const IMPOSSIBLE_CHECK: u32 = 128;

/// Position-error kind: more pieces than promotions could produce.
pub const TOO_MUCH_MATERIAL: u32 = 256;

/// The kinds a pasted FEN may have and still be played: invalid castling
/// rights and en passant squares (dropped), too much material and
/// impossible checks (accepted).
pub const FEN_TOLERATED: u32 = 432;

/// The kinds an edited board may have and still be played: too much
/// material and impossible checks.
pub const SETUP_TOLERATED: u32 = 384;

/// What a rejected rules-engine position was built from.
enum Origin {
    Text(String),
    Setup(Vec<(Square, Piece)>, Color, u64),
}

/// A position the rules engine built but rejected, with the kinds of its
/// errors (as bits) and what it was built from. Only the functions of this
/// module that call the rules engine make one, keeping `kinds` equal to the
/// error's own kinds.
pub(crate) struct Rejected {
    error: PositionError<Chess>,
    kinds: u32,
    origin: Origin,
}

impl Rejected {
    /// The kinds of error (bits) still standing against the position.
    pub(crate) closed spec fn error_kinds(&self) -> u32 {
        self.kinds
    }

    /// FEN of the rejected position.
    pub(crate) closed spec fn built(&self) -> Seq<char> {
        match self.origin {
            Origin::Text(t) => match spec_fen_verdict(t@) {
                Some((_, fen)) => fen,
                None => Seq::empty(),
            },
            Origin::Setup(pieces, turn, castling) => spec_setup_verdict(pieces@, turn, castling).1,
        }
    }
}

/// Roles indexed by the rules engine's role number (pawn = 1 .. king = 6).
pub const ROLE_OF_CODE: [Role; 7] = [
    Role::Pawn,
    Role::Pawn,
    Role::Knight,
    Role::Bishop,
    Role::Rook,
    Role::Queen,
    Role::King,
];

/// Colors indexed by the rules engine's color number (black = 0, white = 1).
pub const COLOR_OF_CODE: [Color; 2] = [Color::Black, Color::White];

/// A playable position: the rules engine's position and its FEN.
///
/// Positions are only built in this module, each from one rules-engine
/// position whose FEN is stored beside it; the view of a position is that
/// FEN.
#[derive(Debug)]
pub struct Position {
    chess: Chess,
    fen: String,
}

impl View for Position {
    type V = Seq<char>;

    closed spec fn view(&self) -> Seq<char> {
        self.fen@
    }
}

/// Why a setup is not a playable position: the rules engine's error kinds
/// (as bits) and its description of the error.
#[derive(Clone, Debug)]
pub struct PositionFailure {
    pub kinds: u32,
    pub display: String,
}

/// Legal moves of the position with this FEN, in the rules engine's order.
pub uninterp spec fn spec_legal_moves(fen: Seq<char>) -> Seq<Move>;

/// FEN of the position after playing the legal move number `i`.
pub uninterp spec fn spec_play_nth(fen: Seq<char>, i: int) -> Seq<char>;

/// Standard algebraic notation, with check/mate suffix, of the legal move
/// number `i`.
pub uninterp spec fn spec_san_nth(fen: Seq<char>, i: int) -> Seq<char>;

/// Side to move.
pub uninterp spec fn spec_turn(fen: Seq<char>) -> Color;

/// Half-moves since the last capture or pawn move.
pub uninterp spec fn spec_halfmoves(fen: Seq<char>) -> u32;

/// Current move number.
pub uninterp spec fn spec_fullmoves(fen: Seq<char>) -> u32;

/// Whether the side to move is in check.
pub uninterp spec fn spec_is_check(fen: Seq<char>) -> bool;

/// Whether neither side has mating material.
pub uninterp spec fn spec_is_insufficient_material(fen: Seq<char>) -> bool;

/// 64-bit Zobrist hash of the position.
pub uninterp spec fn spec_zobrist(fen: Seq<char>) -> u64;

/// Piece placement of the position.
pub uninterp spec fn spec_board(fen: Seq<char>) -> Seq<Option<Piece>>;

/// Unicode `White_Space` characters.
pub open spec fn is_white_space(c: char) -> bool {
    ('\u{9}' <= c <= '\u{d}') || c == ' ' || c == '\u{85}' || c == '\u{a0}' || c == '\u{1680}'
        || ('\u{2000}' <= c <= '\u{200a}') || c == '\u{2028}' || c == '\u{2029}' || c == '\u{202f}'
        || c == '\u{205f}' || c == '\u{3000}'
}

/// Text without its leading whitespace.
pub open spec fn trim_start(text: Seq<char>) -> Seq<char>
    decreases text.len(),
{
    if text.len() > 0 && is_white_space(text[0]) {
        trim_start(text.drop_first())
    } else {
        text
    }
}

/// Text without its trailing whitespace.
pub open spec fn trim_end(text: Seq<char>) -> Seq<char>
    decreases text.len(),
{
    if text.len() > 0 && is_white_space(text.last()) {
        trim_end(text.drop_last())
    } else {
        text
    }
}

/// Text with leading and trailing whitespace removed.
pub open spec fn spec_trim(text: Seq<char>) -> Seq<char> {
    trim_end(trim_start(text))
}

proof fn lemma_trim_start_stops(text: Seq<char>)
    ensures
        trim_start(text).len() > 0 ==> !is_white_space(trim_start(text)[0]),
    decreases text.len(),
{
    if text.len() > 0 && is_white_space(text[0]) {
        lemma_trim_start_stops(text.drop_first());
    }
}

proof fn lemma_trim_end_prefix(text: Seq<char>)
    ensures
        trim_end(text).len() <= text.len(),
        trim_end(text) == text.subrange(0, trim_end(text).len() as int),
        trim_end(trim_end(text)) == trim_end(text),
    decreases text.len(),
{
    if text.len() > 0 && is_white_space(text.last()) {
        lemma_trim_end_prefix(text.drop_last());
        let r = trim_end(text.drop_last());
        assert(text.drop_last().subrange(0, r.len() as int) =~= text.subrange(0, r.len() as int));
    } else {
        assert(text.subrange(0, text.len() as int) =~= text);
    }
}

/// Trimming twice changes nothing, so reading trimmed input reads the
/// same as reading the input.
pub proof fn lemma_trim_twice(text: Seq<char>)
    ensures
        spec_trim(spec_trim(text)) == spec_trim(text),
{
    let s = trim_start(text);
    let u = trim_end(s);
    lemma_trim_start_stops(text);
    lemma_trim_end_prefix(s);
    if u.len() > 0 {
        assert(u[0] == s[0]);
    }
    assert(trim_start(u) == u);
}

/// The rules engine's verdict on FEN text: `None` for text that is not
/// FEN; else the kinds of position error (bits) that `into_position` finds
/// in standard castling mode, with the FEN of the position it builds.
pub uninterp spec fn spec_fen_verdict(text: Seq<char>) -> Option<(u32, Seq<char>)>;

/// The rules engine's verdict on a piece placement (occupied squares with
/// their pieces), side to move and castling rights (rook squares): the
/// kinds of position error (bits) that `Chess::from_setup` finds in
/// standard castling mode, with the FEN of the position it builds.
pub uninterp spec fn spec_setup_verdict(pieces: Seq<(Square, Piece)>, turn: Color, castling: u64) -> (u32, Seq<char>);

/// The rules engine's description of a position error with these kinds.
pub uninterp spec fn spec_position_error_text(kinds: u32) -> Seq<char>;

/// FEN text read as a playable position, tolerating the kinds of
/// [`FEN_TOLERATED`]: the position, `Err(None)` for text that is not FEN,
/// or the kinds of error that remain.
pub open spec fn spec_parse_fen_position(text: Seq<char>) -> Result<Seq<char>, Option<u32>> {
    match spec_fen_verdict(text) {
        None => Err(None),
        Some((kinds, fen)) => if kinds & !FEN_TOLERATED == 0 {
            Ok(fen)
        } else {
            Err(Some(kinds & !FEN_TOLERATED))
        },
    }
}

/// FEN text parsed into a piece placement and side to move.
pub uninterp spec fn spec_parse_fen_setup(text: Seq<char>) -> Option<(Seq<Option<Piece>>, Color)>;

/// A piece placement, side to move and castling rights read as a playable
/// position, tolerating the kinds of [`SETUP_TOLERATED`]: the position or
/// the kinds of error that remain.
pub open spec fn spec_setup_position(pieces: Seq<(Square, Piece)>, turn: Color, castling: u64) -> Result<Seq<char>, u32> {
    let (kinds, fen) = spec_setup_verdict(pieces, turn, castling);
    if kinds & !SETUP_TOLERATED == 0 {
        Ok(fen)
    } else {
        Err(kinds & !SETUP_TOLERATED)
    }
}

/// FEN of a piece placement (occupied squares with their pieces), side to
/// move and castling rights, if FEN can represent those castling rights.
pub uninterp spec fn spec_setup_fen(pieces: Seq<(Square, Piece)>, turn: Color, castling: u64) -> Option<Seq<char>>;

pub open spec fn start_fen() -> Seq<char> {
    "rnbqkbnr/pppppppp/8/8/8/8/PPPPPPPP/RNBQKBNR w KQkq - 0 1"@
}

impl Position {
    /// The standard starting position (`shakmaty::Chess::default`).
    #[verifier::external_body]
    pub(crate) fn initial() -> (p: Position)
        ensures
            p@ == start_fen(),
    {
        let chess = Chess::default();
        Position { fen: Fen::from_position(&chess, EnPassantMode::Legal).to_string(), chess }
    }

    /// A second, equal position (`shakmaty::Chess::clone`).
    #[verifier::external_body]
    pub(crate) fn duplicate(&self) -> (p: Position)
        ensures
            p@ == self@,
    {
        Position { chess: self.chess.clone(), fen: self.fen.clone() }
    }

    /// The FEN of the position.
    pub fn fen(&self) -> (s: String)
        ensures
            s@ == self@,
    {
        self.fen.clone()
    }

    /// The legal moves, in the rules engine's order.
    pub fn legal_moves(&self) -> (r: Vec<Move>)
        ensures
            r@ == spec_legal_moves(self@),
            forall|i: int| 0 <= i < r@.len() ==> (#[trigger] r@[i]).wf(),
    {
        legal_moves(self)
    }

    /// The side to move.
    pub fn turn(&self) -> (c: Color)
        ensures
            c == spec_turn(self@),
    {
        turn(self)
    }

    /// The piece placement.
    pub fn board(&self) -> (b: Board)
        ensures
            b@ == spec_board(self@),
    {
        board_of(self)
    }
}

/// Legal moves (`shakmaty::Position::legal_moves`).
#[verifier::external_body]
pub(crate) fn legal_moves(p: &Position) -> (r: Vec<Move>)
    ensures
        r@ == spec_legal_moves(p@),
        forall|i: int| 0 <= i < r@.len() ==> (#[trigger] r@[i]).wf(),
{
    let roles = ROLE_OF_CODE;
    p.chess.legal_moves().into_iter().map(|m| match m {
        RulesMove::Normal { role, from, capture, to, promotion } => Move::Normal { role: roles[role as usize],
            from: from as u8, capture: capture.map(|c| roles[c as usize]), to: to as u8,
            promotion: promotion.map(|c| roles[c as usize]) },
        RulesMove::EnPassant { from, to } => Move::EnPassant { from: from as u8, to: to as u8 },
        RulesMove::Castle { king, rook } => Move::Castle { king: king as u8, rook: rook as u8 },
        RulesMove::Put { role, to } => Move::Put { role: roles[role as usize], to: to as u8 },
    }).collect()
}

pub open spec fn is_capture(m: Move) -> bool {
    m.spec_capture() is Some
}

/// The position after the legal move number `i` of [`legal_moves`]
/// (`shakmaty::Position::play_unchecked`).
#[verifier::external_body]
pub(crate) fn play_nth(p: &Position, i: usize) -> (r: Position)
    requires
        i < spec_legal_moves(p@).len(),
    ensures
        r@ == spec_play_nth(p@, i as int),
{
    let mut chess = p.chess.clone();
    chess.play_unchecked(p.chess.legal_moves()[i]);
    Position { fen: Fen::from_position(&chess, EnPassantMode::Legal).to_string(), chess }
}

/// SAN with check/mate suffix of the legal move number `i` of
/// [`legal_moves`] (`shakmaty::san::SanPlus::from_move`).
#[verifier::external_body]
pub(crate) fn san_nth(p: &Position, i: usize) -> (r: String)
    requires
        i < spec_legal_moves(p@).len(),
    ensures
        r@ == spec_san_nth(p@, i as int),
{
    SanPlus::from_move(p.chess.clone(), p.chess.legal_moves()[i]).to_string()
}

/// Side to move (`shakmaty::Position::turn`).
#[verifier::external_body]
pub(crate) fn turn(p: &Position) -> (c: Color)
    ensures
        c == spec_turn(p@),
{
    COLOR_OF_CODE[p.chess.turn() as usize]
}

/// Half-move clock (`shakmaty::Position::halfmoves`).
#[verifier::external_body]
pub(crate) fn halfmoves(p: &Position) -> (n: u32)
    ensures
        n == spec_halfmoves(p@),
{
    p.chess.halfmoves()
}

/// Move number (`shakmaty::Position::fullmoves`), never 0.
#[verifier::external_body]
pub(crate) fn fullmoves(p: &Position) -> (n: u32)
    ensures
        n == spec_fullmoves(p@),
        n >= 1,
{
    p.chess.fullmoves().get()
}

/// Whether the side to move is in check (`shakmaty::Position::is_check`).
#[verifier::external_body]
pub(crate) fn is_check(p: &Position) -> (b: bool)
    ensures
        b == spec_is_check(p@),
{
    p.chess.is_check()
}

/// Dead material for both sides
/// (`shakmaty::Position::is_insufficient_material`).
#[verifier::external_body]
pub(crate) fn is_insufficient_material(p: &Position) -> (b: bool)
    ensures
        b == spec_is_insufficient_material(p@),
{
    p.chess.is_insufficient_material()
}

/// Zobrist hash, en passant counted only when legal
/// (`shakmaty::Position::zobrist_hash::<Zobrist64>`).
#[verifier::external_body]
pub(crate) fn zobrist(p: &Position) -> (h: u64)
    ensures
        h == spec_zobrist(p@),
{
    p.chess.zobrist_hash::<Zobrist64>(EnPassantMode::Legal).0
}

/// Piece placement (`shakmaty::Board::piece_at` on each square).
#[verifier::external_body]
pub(crate) fn board_of(p: &Position) -> (b: Board)
    ensures
        b@ == spec_board(p@),
        b@.len() == 64,
{
    let squares = (0..64u32).map(|i| p.chess.board().piece_at(RulesSquare::new(i)).map(|pc| Piece {
        color: COLOR_OF_CODE[pc.color as usize],
        role: ROLE_OF_CODE[pc.role as usize],
    })).collect();
    Board { squares }
}

/// Text without leading and trailing whitespace (`str::trim`, which
/// strips the Unicode `White_Space` characters).
#[verifier::external_body]
pub(crate) fn trim(text: &str) -> (r: &str)
    ensures
        r@ == spec_trim(text@),
{
    text.trim()
}

/// FEN text made into a position (`shakmaty::fen::Fen::from_str`, then
/// `into_position` in standard castling mode, which refuses a position with
/// any error): `Err(None)` for text that is not FEN.
#[verifier::external_body]
fn fen_into_position(text: &str) -> (r: Result<Position, Option<Rejected>>)
    ensures
        match r {
            Ok(p) => spec_fen_verdict(text@) == Some((0u32, p@)),
            Err(None) => spec_fen_verdict(text@) is None,
            Err(Some(e)) => spec_fen_verdict(text@) == Some((e.error_kinds(), e.built())) && e.error_kinds() != 0,
        },
{
    let fen: Fen = text.parse().map_err(|_| None)?;
    match fen.into_position::<Chess>(CastlingMode::Standard) {
        Ok(chess) => Ok(Position { fen: Fen::from_position(&chess, EnPassantMode::Legal).to_string(), chess }),
        Err(error) => Err(Some(Rejected { kinds: error.kinds().bits(), error, origin: Origin::Text(text.to_string()) })),
    }
}

/// `PositionError::ignore_invalid_castling_rights`: the position once its
/// invalid castling rights are dropped, if nothing else stands against it.
#[verifier::external_body]
fn ignore_invalid_castling_rights(e: Rejected) -> (r: Result<Position, Rejected>)
    ensures
        match r {
            Ok(p) => e.error_kinds() & !INVALID_CASTLING_RIGHTS == 0 && p@ == e.built(),
            Err(d) => d.error_kinds() == e.error_kinds() & !INVALID_CASTLING_RIGHTS && d.error_kinds() != 0
                && d.built() == e.built(),
        },
{
    let Rejected { error, origin, .. } = e;
    match error.ignore_invalid_castling_rights() {
        Ok(chess) => Ok(Position { fen: Fen::from_position(&chess, EnPassantMode::Legal).to_string(), chess }),
        Err(error) => Err(Rejected { kinds: error.kinds().bits(), error, origin }),
    }
}

/// `PositionError::ignore_invalid_ep_square`: the position once its
/// invalid en passant square is dropped, if nothing else stands against it.
#[verifier::external_body]
fn ignore_invalid_ep_square(e: Rejected) -> (r: Result<Position, Rejected>)
    ensures
        match r {
            Ok(p) => e.error_kinds() & !INVALID_EP_SQUARE == 0 && p@ == e.built(),
            Err(d) => d.error_kinds() == e.error_kinds() & !INVALID_EP_SQUARE && d.error_kinds() != 0
                && d.built() == e.built(),
        },
{
    let Rejected { error, origin, .. } = e;
    match error.ignore_invalid_ep_square() {
        Ok(chess) => Ok(Position { fen: Fen::from_position(&chess, EnPassantMode::Legal).to_string(), chess }),
        Err(error) => Err(Rejected { kinds: error.kinds().bits(), error, origin }),
    }
}

/// `PositionError::ignore_too_much_material`: the position despite too
/// much material, if nothing else stands against it.
#[verifier::external_body]
fn ignore_too_much_material(e: Rejected) -> (r: Result<Position, Rejected>)
    ensures
        match r {
            Ok(p) => e.error_kinds() & !TOO_MUCH_MATERIAL == 0 && p@ == e.built(),
            Err(d) => d.error_kinds() == e.error_kinds() & !TOO_MUCH_MATERIAL && d.error_kinds() != 0
                && d.built() == e.built(),
        },
{
    let Rejected { error, origin, .. } = e;
    match error.ignore_too_much_material() {
        Ok(chess) => Ok(Position { fen: Fen::from_position(&chess, EnPassantMode::Legal).to_string(), chess }),
        Err(error) => Err(Rejected { kinds: error.kinds().bits(), error, origin }),
    }
}

/// `PositionError::ignore_impossible_check`: the position despite an
/// impossible check, if nothing else stands against it.
#[verifier::external_body]
fn ignore_impossible_check(e: Rejected) -> (r: Result<Position, Rejected>)
    ensures
        match r {
            Ok(p) => e.error_kinds() & !IMPOSSIBLE_CHECK == 0 && p@ == e.built(),
            Err(d) => d.error_kinds() == e.error_kinds() & !IMPOSSIBLE_CHECK && d.error_kinds() != 0
                && d.built() == e.built(),
        },
{
    let Rejected { error, origin, .. } = e;
    match error.ignore_impossible_check() {
        Ok(chess) => Ok(Position { fen: Fen::from_position(&chess, EnPassantMode::Legal).to_string(), chess }),
        Err(error) => Err(Rejected { kinds: error.kinds().bits(), error, origin }),
    }
}

/// The kinds of a rejection with the rules engine's description of them
/// (`PositionError`'s `Display`).
#[verifier::external_body]
fn failure_of(e: Rejected) -> (f: PositionFailure)
    ensures
        f.kinds == e.error_kinds(),
        f.display@ == spec_position_error_text(e.error_kinds()),
{
    PositionFailure { kinds: e.kinds, display: e.error.to_string() }
}

/// Removing the tolerated kinds one at a time removes them all.
proof fn lemma_tolerance_steps(k: u32)
    by (bit_vector)
    ensures
        k & !16u32 == 0 ==> k & !432u32 == 0,
        (k & !16u32) & !32u32 == 0 ==> k & !432u32 == 0,
        ((k & !16u32) & !32u32) & !256u32 == 0 ==> k & !432u32 == 0,
        (((k & !16u32) & !32u32) & !256u32) & !128u32 == k & !432u32,
        k & !256u32 == 0 ==> k & !384u32 == 0,
        (k & !256u32) & !128u32 == k & !384u32,
        k == 0 ==> k & !432u32 == 0 && k & !384u32 == 0,
{
}

/// FEN text made into a playable position, tolerating the kinds of error
/// in [`FEN_TOLERATED`]: invalid castling rights, then invalid en passant
/// squares, too much material and impossible checks are let go in turn.
pub(crate) fn parse_fen_position_raw(text: &str) -> (r: Result<Position, Option<PositionFailure>>)
    ensures
        match spec_parse_fen_position(text@) {
            Ok(fen) => r matches Ok(p) && p@ == fen,
            Err(None) => r matches Err(None),
            Err(Some(k)) => r matches Err(Some(f)) && f.kinds == k && f.display@ == spec_position_error_text(k),
        },
{
    match fen_into_position(text) {
        Ok(p) => {
            proof {
                lemma_tolerance_steps(0);
            }
            Ok(p)
        },
        Err(None) => Err(None),
        Err(Some(e)) => {
            let ghost k = e.error_kinds();
            proof {
                lemma_tolerance_steps(k);
            }
            match ignore_invalid_castling_rights(e) {
                Ok(p) => Ok(p),
                Err(e) => match ignore_invalid_ep_square(e) {
                    Ok(p) => Ok(p),
                    Err(e) => match ignore_too_much_material(e) {
                        Ok(p) => Ok(p),
                        Err(e) => match ignore_impossible_check(e) {
                            Ok(p) => Ok(p),
                            Err(e) => Err(Some(failure_of(e))),
                        },
                    },
                },
            }
        },
    }
}

/// FEN text made into a piece placement and side to move
/// (`shakmaty::fen::Fen::from_str`, then `into_setup`).
#[verifier::external_body]
pub(crate) fn parse_fen_setup_raw(text: &str) -> (r: Option<(Board, Color)>)
    ensures
        match r {
            Some((b, c)) => spec_parse_fen_setup(text@) == Some((b@, c)) && b@.len() == 64,
            None => spec_parse_fen_setup(text@) == None::<(Seq<Option<Piece>>, Color)>,
        },
{
    let setup = text.parse::<Fen>().ok()?.into_setup();
    let squares = (0..64u32).map(|i| setup.board.piece_at(RulesSquare::new(i)).map(|pc| Piece {
        color: COLOR_OF_CODE[pc.color as usize],
        role: ROLE_OF_CODE[pc.role as usize],
    })).collect();
    Some((Board { squares }, COLOR_OF_CODE[setup.turn as usize]))
}

/// A setup made into a position (`shakmaty::Chess::from_setup` in
/// standard castling mode, which refuses a position with any error).
#[verifier::external_body]
fn setup_into_position(pieces: &Vec<(Square, Piece)>, turn: Color, castling: u64) -> (r: Result<Position, Rejected>)
    requires
        forall|i: int| 0 <= i < pieces@.len() ==> valid_square(#[trigger] pieces@[i].0),
    ensures
        match r {
            Ok(p) => spec_setup_verdict(pieces@, turn, castling) == (0u32, p@),
            Err(e) => spec_setup_verdict(pieces@, turn, castling) == (e.error_kinds(), e.built()) && e.error_kinds() != 0,
        },
{
    let setup = Setup { board: pieces.iter().map(|&(sq, pc)| (RulesSquare::new(sq as u32),
        RulesPiece { color: RulesColor::ALL[pc.color as usize], role: RulesRole::ALL[pc.role as usize] })).collect(),
        turn: RulesColor::ALL[turn as usize], castling_rights: Bitboard(castling), ..Setup::empty() };
    match Chess::from_setup(setup, CastlingMode::Standard) {
        Ok(chess) => Ok(Position { fen: Fen::from_position(&chess, EnPassantMode::Legal).to_string(), chess }),
        Err(error) => Err(Rejected { kinds: error.kinds().bits(), error, origin: Origin::Setup(pieces.clone(), turn, castling) }),
    }
}

/// A setup made into a playable position, tolerating the kinds of error
/// in [`SETUP_TOLERATED`]: too much material, then impossible checks are
/// let go in turn.
pub(crate) fn setup_position_raw(pieces: &Vec<(Square, Piece)>, turn: Color, castling: u64) -> (r: Result<Position, PositionFailure>)
    requires
        forall|i: int| 0 <= i < pieces@.len() ==> valid_square(#[trigger] pieces@[i].0),
    ensures
        match spec_setup_position(pieces@, turn, castling) {
            Ok(fen) => r matches Ok(p) && p@ == fen,
            Err(k) => r matches Err(f) && f.kinds == k && f.display@ == spec_position_error_text(k),
        },
{
    match setup_into_position(pieces, turn, castling) {
        Ok(p) => {
            proof {
                lemma_tolerance_steps(0);
            }
            Ok(p)
        },
        Err(e) => {
            let ghost k = e.error_kinds();
            proof {
                lemma_tolerance_steps(k);
            }
            match ignore_too_much_material(e) {
                Ok(p) => Ok(p),
                Err(e) => match ignore_impossible_check(e) {
                    Ok(p) => Ok(p),
                    Err(e) => Err(failure_of(e)),
                },
            }
        },
    }
}

/// FEN of a setup (`shakmaty::fen::Fen::try_from_setup`); `None` where
/// FEN cannot represent the castling rights.
#[verifier::external_body]
pub(crate) fn setup_fen_raw(pieces: &Vec<(Square, Piece)>, turn: Color, castling: u64) -> (r: Option<String>)
    requires
        forall|i: int| 0 <= i < pieces@.len() ==> valid_square(#[trigger] pieces@[i].0),
    ensures
        match r {
            Some(s) => spec_setup_fen(pieces@, turn, castling) == Some(s@),
            None => spec_setup_fen(pieces@, turn, castling) == None::<Seq<char>>,
        },
{
    let setup = Setup { board: pieces.iter().map(|&(sq, pc)| (RulesSquare::new(sq as u32),
        RulesPiece { color: RulesColor::ALL[pc.color as usize], role: RulesRole::ALL[pc.role as usize] })).collect(),
        turn: RulesColor::ALL[turn as usize], castling_rights: Bitboard(castling), ..Setup::empty() };
    Fen::try_from_setup(setup).ok().map(|fen| fen.to_string())
}

/// Index of the first occurrence of `m` in `s` (meaningful where `s`
/// contains `m`).
pub open spec fn first_index(s: Seq<Move>, m: Move) -> int {
    choose|i: int| 0 <= i < s.len() && s[i] == m && forall|k: int| 0 <= k < i ==> s[k] != m
}

pub proof fn lemma_first_index(s: Seq<Move>, i: int, m: Move)
    requires
        0 <= i < s.len(),
        s[i] == m,
        forall|k: int| 0 <= k < i ==> s[k] != m,
    ensures
        first_index(s, m) == i,
{
    let j = first_index(s, m);
    assert(0 <= j < s.len() && s[j] == m && forall|k: int| 0 <= k < j ==> s[k] != m);
    if j < i {
        assert(s[j] != m);
    } else if j > i {
        assert(s[i] != m);
    }
}

/// Whether the side to move is checkmated: in check without a legal
/// move (as `shakmaty::Position::is_checkmate` decides it).
pub fn is_checkmate(p: &Position) -> (b: bool)
    ensures
        b == (spec_is_check(p@) && spec_legal_moves(p@).len() == 0),
{
    is_check(p) && legal_moves(p).len() == 0
}

/// Whether the side to move is stalemated: not in check and without a
/// legal move (as `shakmaty::Position::is_stalemate` decides it).
pub fn is_stalemate(p: &Position) -> (b: bool)
    ensures
        b == (!spec_is_check(p@) && spec_legal_moves(p@).len() == 0),
{
    !is_check(p) && legal_moves(p).len() == 0
}

/// Where `m` stands among the legal moves of `p`, if it is legal.
pub fn legal_index(p: &Position, m: Move) -> (r: Option<usize>)
    ensures
        match r {
            Some(i) => i < spec_legal_moves(p@).len() && spec_legal_moves(p@)[i as int] == m
                && forall|k: int| 0 <= k < i ==> spec_legal_moves(p@)[k] != m,
            None => !spec_legal_moves(p@).contains(m),
        },
{
    let moves = legal_moves(p);
    let mut i: usize = 0;
    while i < moves.len()
        invariant
            i <= moves@.len(),
            moves@ == spec_legal_moves(p@),
            forall|k: int| 0 <= k < i ==> moves@[k] != m,
        decreases moves@.len() - i,
    {
        if moves[i] == m {
            return Some(i);
        }
        i = i + 1;
    }
    None
}

/// SAN with check/mate suffix of a legal move; `None` for a move that is
/// not legal in `p`.
pub fn move_san(p: &Position, m: Move) -> (r: Option<String>)
    ensures
        match r {
            Some(s) => spec_legal_moves(p@).contains(m) && s@ == spec_san_nth(p@, first_index(spec_legal_moves(p@), m)),
            None => !spec_legal_moves(p@).contains(m),
        },
{
    match legal_index(p, m) {
        Some(i) => {
            proof {
                lemma_first_index(spec_legal_moves(p@), i as int, m);
            }
            Some(san_nth(p, i))
        },
        None => None,
    }
}

} // verus!
