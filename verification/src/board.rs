//! The piece placement of a board: one optional piece per square.

use vstd::prelude::*;
use crate::types::{valid_square, Color, Piece, Role, Square};

verus! {

/// A set of squares as a 64-bit mask (bit `s` stands for square `s`).
pub type SquareSet = u64;

pub open spec fn spec_contains(set: SquareSet, s: Square) -> bool {
    (set >> (s as u64)) & 1u64 == 1u64
}

/// Whether square `s` is in `set`.
pub fn set_contains(set: SquareSet, s: Square) -> (b: bool)
    requires
        valid_square(s),
    ensures
        b == spec_contains(set, s),
{
    (set >> (s as u64)) & 1u64 == 1u64
}

/// `set` with square `s` added.
pub fn set_insert(set: SquareSet, s: Square) -> (r: SquareSet)
    requires
        valid_square(s),
    ensures
        r == set | (1u64 << (s as u64)),
        forall|t: Square| valid_square(t) ==> spec_contains(r, t) == (t == s || spec_contains(set, t)),
{
    let r = set | (1u64 << (s as u64));
    assert forall|t: Square| valid_square(t) implies spec_contains(r, t) == (t == s || spec_contains(set, t)) by {
        lemma_insert_bit(set, s as u64, t as u64);
    }
    r
}

proof fn lemma_insert_bit(set: u64, s: u64, t: u64)
    by (bit_vector)
    requires
        s < 64,
        t < 64,
    ensures
        ((set | (1u64 << s)) >> t) & 1u64 == 1u64 <==> (t == s || (set >> t) & 1u64 == 1u64),
{
}

pub proof fn lemma_empty_set(t: u64)
    by (bit_vector)
    requires
        t < 64,
    ensures
        !((0u64 >> t) & 1u64 == 1u64),
{
}

/// Piece placement: `squares[s]` is the piece on square `s`.
pub struct Board {
    pub(crate) squares: Vec<Option<Piece>>,
}

/// The back-rank role on `file` in the standard starting position.
pub open spec fn start_back_role(file: int) -> Role {
    if file == 0 || file == 7 {
        Role::Rook
    } else if file == 1 || file == 6 {
        Role::Knight
    } else if file == 2 || file == 5 {
        Role::Bishop
    } else if file == 3 {
        Role::Queen
    } else {
        Role::King
    }
}

/// The piece on square `s` in the standard starting position.
pub open spec fn start_piece(s: int) -> Option<Piece> {
    let rank = s / 8;
    let file = s % 8;
    if rank == 0 {
        Some(Piece { color: Color::White, role: start_back_role(file) })
    } else if rank == 1 {
        Some(Piece { color: Color::White, role: Role::Pawn })
    } else if rank == 6 {
        Some(Piece { color: Color::Black, role: Role::Pawn })
    } else if rank == 7 {
        Some(Piece { color: Color::Black, role: start_back_role(file) })
    } else {
        None
    }
}

pub open spec fn start_board() -> Seq<Option<Piece>> {
    Seq::new(64, |s: int| start_piece(s))
}

pub open spec fn empty_board() -> Seq<Option<Piece>> {
    Seq::new(64, |s: int| None::<Piece>)
}

fn start_back_role_exec(file: u8) -> (r: Role)
    ensures
        r == start_back_role(file as int),
{
    if file == 0 || file == 7 {
        Role::Rook
    } else if file == 1 || file == 6 {
        Role::Knight
    } else if file == 2 || file == 5 {
        Role::Bishop
    } else if file == 3 {
        Role::Queen
    } else {
        Role::King
    }
}

fn start_piece_exec(s: u8) -> (r: Option<Piece>)
    requires
        s < 64,
    ensures
        r == start_piece(s as int),
{
    let rank = s / 8;
    let file = s % 8;
    if rank == 0 {
        Some(Piece { color: Color::White, role: start_back_role_exec(file) })
    } else if rank == 1 {
        Some(Piece { color: Color::White, role: Role::Pawn })
    } else if rank == 6 {
        Some(Piece { color: Color::Black, role: Role::Pawn })
    } else if rank == 7 {
        Some(Piece { color: Color::Black, role: start_back_role_exec(file) })
    } else {
        None
    }
}

/// The occupied squares among the first `n` of `board`, with their
/// pieces, in square order.
pub open spec fn pieces_upto(board: Seq<Option<Piece>>, n: int) -> Seq<(Square, Piece)>
    decreases n,
{
    if n <= 0 {
        Seq::empty()
    } else {
        let rest = pieces_upto(board, n - 1);
        match board[n - 1] {
            Some(p) => rest.push(((n - 1) as u8, p)),
            None => rest,
        }
    }
}

/// The occupied squares of a board with their pieces, a1 first.
pub open spec fn spec_pieces(board: Seq<Option<Piece>>) -> Seq<(Square, Piece)> {
    pieces_upto(board, 64)
}

proof fn lemma_pieces_on_board(board: Seq<Option<Piece>>, n: int)
    requires
        0 <= n <= 64,
    ensures
        forall|i: int| 0 <= i < pieces_upto(board, n).len() ==> (#[trigger] pieces_upto(board, n)[i]).0 < n,
    decreases n,
{
    if n > 0 {
        lemma_pieces_on_board(board, n - 1);
        let rest = pieces_upto(board, n - 1);
        if let Some(p) = board[n - 1] {
            assert(pieces_upto(board, n) == rest.push(((n - 1) as u8, p)));
            assert forall|i: int| 0 <= i < pieces_upto(board, n).len() implies (#[trigger] pieces_upto(board, n)[i]).0 < n by {
                if i < rest.len() {
                    assert(pieces_upto(board, n)[i] == rest[i]);
                }
            }
        }
    }
}

impl View for Board {
    type V = Seq<Option<Piece>>;

    closed spec fn view(&self) -> Seq<Option<Piece>> {
        self.squares@
    }
}

impl Board {
    #[verifier::type_invariant]
    spec fn inv(self) -> bool {
        self.squares.len() == 64
    }

    /// The 64 squares, a1 first.
    pub fn squares(&self) -> (r: &Vec<Option<Piece>>)
        ensures
            r@ == self@,
            r@.len() == 64,
    {
        proof {
            use_type_invariant(self);
        }
        &self.squares
    }

    /// Every board has 64 squares.
    pub fn len_is_64(&self)
        ensures
            self@.len() == 64,
    {
        proof {
            use_type_invariant(self);
        }
    }

    /// A board without pieces.
    pub fn empty() -> (b: Board)
        ensures
            b@ == empty_board(),
    {
        let mut squares: Vec<Option<Piece>> = Vec::new();
        let mut i: u8 = 0;
        while i < 64
            invariant
                i <= 64,
                squares@.len() == i,
                forall|k: int| 0 <= k < i ==> squares@[k] == None::<Piece>,
            decreases 64 - i,
        {
            squares.push(None);
            i = i + 1;
        }
        assert(squares@ == empty_board());
        Board { squares }
    }

    /// The standard starting position.
    pub fn new() -> (b: Board)
        ensures
            b@ == start_board(),
    {
        let mut squares: Vec<Option<Piece>> = Vec::new();
        let mut i: u8 = 0;
        while i < 64
            invariant
                i <= 64,
                squares@.len() == i,
                forall|k: int| 0 <= k < i ==> squares@[k] == start_piece(k),
            decreases 64 - i,
        {
            squares.push(start_piece_exec(i));
            i = i + 1;
        }
        assert(squares@ == start_board());
        Board { squares }
    }

    /// A second board with the same pieces.
    pub fn copy(&self) -> (b: Board)
        ensures
            b@ == self@,
    {
        proof {
            use_type_invariant(self);
        }
        let mut squares: Vec<Option<Piece>> = Vec::new();
        let mut i: usize = 0;
        while i < 64
            invariant
                i <= 64,
                self.squares@.len() == 64,
                squares@ == self.squares@.subrange(0, i as int),
            decreases 64 - i,
        {
            squares.push(self.squares[i]);
            assert(squares@ =~= self.squares@.subrange(0, i + 1));
            i = i + 1;
        }
        assert(squares@ =~= self.squares@);
        Board { squares }
    }

    /// The occupied squares with their pieces, a1 first.
    pub fn pieces(&self) -> (r: Vec<(Square, Piece)>)
        ensures
            r@ == spec_pieces(self@),
            forall|i: int| 0 <= i < r@.len() ==> valid_square(#[trigger] r@[i].0),
    {
        proof {
            use_type_invariant(self);
        }
        let mut r: Vec<(Square, Piece)> = Vec::new();
        let mut i: u8 = 0;
        while i < 64
            invariant
                i <= 64,
                self.squares@.len() == 64,
                r@ == pieces_upto(self.squares@, i as int),
            decreases 64 - i,
        {
            match self.squares[i as usize] {
                Some(p) => r.push((i, p)),
                None => {},
            }
            i = i + 1;
        }
        proof {
            lemma_pieces_on_board(self.squares@, 64);
        }
        r
    }

    /// The piece on `sq`, if any.
    pub fn piece_at(&self, sq: Square) -> (r: Option<Piece>)
        requires
            valid_square(sq),
        ensures
            r == self@[sq as int],
            self@.len() == 64,
    {
        proof {
            use_type_invariant(self);
        }
        self.squares[sq as usize]
    }

    /// Puts `piece` on `sq`, replacing whatever stood there.
    pub fn set_piece_at(&mut self, sq: Square, piece: Piece)
        requires
            valid_square(sq),
        ensures
            final(self)@ == old(self)@.update(sq as int, Some(piece)),
            final(self)@.len() == 64,
    {
        proof {
            use_type_invariant(&*self);
        }
        let mut taken = Board::empty();
        std::mem::swap(&mut taken, self);
        proof {
            use_type_invariant(&taken);
        }
        let mut squares = taken.squares;
        squares.set(sq as usize, Some(piece));
        *self = Board { squares };
    }

    /// Removes the piece on `sq`, if any.
    pub fn discard_piece_at(&mut self, sq: Square)
        requires
            valid_square(sq),
        ensures
            final(self)@ == old(self)@.update(sq as int, None),
            final(self)@.len() == 64,
    {
        proof {
            use_type_invariant(&*self);
        }
        let mut taken = Board::empty();
        std::mem::swap(&mut taken, self);
        proof {
            use_type_invariant(&taken);
        }
        let mut squares = taken.squares;
        squares.set(sq as usize, None);
        *self = Board { squares };
    }
}

} // verus!
