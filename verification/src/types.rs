//! Plain chess vocabulary: colors, piece roles, pieces, squares and moves.
//!
//! Squares are numbered `0..64` as `rank * 8 + file` (a1 = 0, h1 = 7,
//! a8 = 56, h8 = 63).

use vstd::prelude::*;

verus! {

/// A square index in `0..64`.
pub type Square = u8;

pub open spec fn valid_square(s: Square) -> bool {
    s < 64
}

pub open spec fn spec_file(s: Square) -> int {
    (s as int) % 8
}

pub open spec fn spec_rank(s: Square) -> int {
    (s as int) / 8
}

pub open spec fn spec_square(file: u8, rank: u8) -> Square {
    (rank * 8 + file) as u8
}

/// The square on `file` (0 = a) and `rank` (0 = first rank).
#[verifier::when_used_as_spec(spec_square)]
pub fn square(file: u8, rank: u8) -> (s: Square)
    requires
        file < 8,
        rank < 8,
    ensures
        s == rank * 8 + file,
        s == spec_square(file, rank),
        valid_square(s),
        spec_file(s) == file,
        spec_rank(s) == rank,
{
    rank * 8 + file
}

#[derive(Clone, Copy, PartialEq, Eq, Debug, Structural)]
pub enum Color {
    White,
    Black,
}

impl Color {
    pub open spec fn spec_other(self) -> Color {
        match self {
            Color::White => Color::Black,
            Color::Black => Color::White,
        }
    }

    /// The opposite color.
    #[verifier::when_used_as_spec(spec_other)]
    pub fn other(self) -> (c: Color)
        ensures
            c == self.spec_other(),
    {
        match self {
            Color::White => Color::Black,
            Color::Black => Color::White,
        }
    }

    pub fn is_white(self) -> (b: bool)
        ensures
            b == (self == Color::White),
    {
        match self {
            Color::White => true,
            Color::Black => false,
        }
    }

    pub open spec fn spec_backrank(self) -> u8 {
        match self {
            Color::White => 0,
            Color::Black => 7,
        }
    }

    /// The rank on which this color's pieces start (0 for White, 7 for Black).
    #[verifier::when_used_as_spec(spec_backrank)]
    pub fn backrank(self) -> (r: u8)
        ensures
            r == self.spec_backrank(),
    {
        match self {
            Color::White => 0,
            Color::Black => 7,
        }
    }
}

#[derive(Clone, Copy, PartialEq, Eq, Debug, Structural)]
pub enum Role {
    Pawn,
    Knight,
    Bishop,
    Rook,
    Queen,
    King,
}

#[derive(Clone, Copy, PartialEq, Eq, Debug, Structural)]
pub struct Piece {
    pub color: Color,
    pub role: Role,
}

/// Which way a castling move goes.
#[derive(Clone, Copy, PartialEq, Eq, Debug, Structural)]
pub enum CastlingSide {
    KingSide,
    QueenSide,
}

/// A move, as the rules engine describes it.
///
/// Castling is encoded king-to-rook (`king` and `rook` are the squares the
/// two pieces start on), as in the rules engine.
#[derive(Clone, Copy, PartialEq, Eq, Debug, Structural)]
pub enum Move {
    Normal { role: Role, from: Square, capture: Option<Role>, to: Square, promotion: Option<Role> },
    EnPassant { from: Square, to: Square },
    Castle { king: Square, rook: Square },
    Put { role: Role, to: Square },
}

impl Move {
    /// All squares named by the move are on the board.
    pub open spec fn wf(self) -> bool {
        match self {
            Move::Normal { from, to, .. } => valid_square(from) && valid_square(to),
            Move::EnPassant { from, to } => valid_square(from) && valid_square(to),
            Move::Castle { king, rook } => valid_square(king) && valid_square(rook),
            Move::Put { to, .. } => valid_square(to),
        }
    }

    pub open spec fn spec_role(self) -> Role {
        match self {
            Move::Normal { role, .. } => role,
            Move::Put { role, .. } => role,
            Move::EnPassant { .. } => Role::Pawn,
            Move::Castle { .. } => Role::King,
        }
    }

    /// Role of the moved piece.
    #[verifier::when_used_as_spec(spec_role)]
    pub fn role(self) -> (r: Role)
        ensures
            r == self.spec_role(),
    {
        match self {
            Move::Normal { role, .. } => role,
            Move::Put { role, .. } => role,
            Move::EnPassant { .. } => Role::Pawn,
            Move::Castle { .. } => Role::King,
        }
    }

    pub open spec fn spec_from(self) -> Option<Square> {
        match self {
            Move::Normal { from, .. } => Some(from),
            Move::EnPassant { from, .. } => Some(from),
            Move::Castle { king, .. } => Some(king),
            Move::Put { .. } => None,
        }
    }

    /// Origin square (`None` for drops).
    #[verifier::when_used_as_spec(spec_from)]
    pub fn from(self) -> (r: Option<Square>)
        ensures
            r == self.spec_from(),
    {
        match self {
            Move::Normal { from, .. } => Some(from),
            Move::EnPassant { from, .. } => Some(from),
            Move::Castle { king, .. } => Some(king),
            Move::Put { .. } => None,
        }
    }

    pub open spec fn spec_to(self) -> Square {
        match self {
            Move::Normal { to, .. } => to,
            Move::EnPassant { to, .. } => to,
            Move::Put { to, .. } => to,
            Move::Castle { rook, .. } => rook,
        }
    }

    /// Target square (the rook's square for castling).
    #[verifier::when_used_as_spec(spec_to)]
    pub fn to(self) -> (r: Square)
        ensures
            r == self.spec_to(),
    {
        match self {
            Move::Normal { to, .. } => to,
            Move::EnPassant { to, .. } => to,
            Move::Put { to, .. } => to,
            Move::Castle { rook, .. } => rook,
        }
    }

    pub open spec fn spec_capture(self) -> Option<Role> {
        match self {
            Move::Normal { capture, .. } => capture,
            Move::EnPassant { .. } => Some(Role::Pawn),
            _ => None,
        }
    }

    /// Role of the captured piece, if any.
    #[verifier::when_used_as_spec(spec_capture)]
    pub fn capture(self) -> (r: Option<Role>)
        ensures
            r == self.spec_capture(),
    {
        match self {
            Move::Normal { capture, .. } => capture,
            Move::EnPassant { .. } => Some(Role::Pawn),
            _ => None,
        }
    }

    pub open spec fn spec_promotion(self) -> Option<Role> {
        match self {
            Move::Normal { promotion, .. } => promotion,
            _ => None,
        }
    }

    /// Promotion role, if any.
    #[verifier::when_used_as_spec(spec_promotion)]
    pub fn promotion(self) -> (r: Option<Role>)
        ensures
            r == self.spec_promotion(),
    {
        match self {
            Move::Normal { promotion, .. } => promotion,
            _ => None,
        }
    }

    pub open spec fn spec_castling_side(self) -> Option<CastlingSide> {
        match self {
            Move::Castle { king, rook } => Some(
                if king < rook {
                    CastlingSide::KingSide
                } else {
                    CastlingSide::QueenSide
                },
            ),
            _ => None,
        }
    }

    /// Castling side, for castling moves.
    #[verifier::when_used_as_spec(spec_castling_side)]
    pub fn castling_side(self) -> (r: Option<CastlingSide>)
        ensures
            r == self.spec_castling_side(),
    {
        match self {
            Move::Castle { king, rook } => Some(
                if king < rook {
                    CastlingSide::KingSide
                } else {
                    CastlingSide::QueenSide
                },
            ),
            _ => None,
        }
    }
}

} // verus!
