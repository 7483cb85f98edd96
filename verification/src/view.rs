//! What the board and panels show, derived from the store: square order,
//! per-square highlights, piece labels and sprites, status texts and the
//! keyboard shortcuts.

use vstd::prelude::*;
use crate::board::{spec_contains, set_contains, Board, SquareSet};
use crate::rules::{board_of, is_check, spec_board, spec_is_check, spec_legal_moves, spec_turn, turn};
use crate::state::{
    click_moves, destinations, promotion_roles, reaches, spec_click_moves, spec_promotion_roles, AppMode,
    GameStatus, SetupTool,
};
use crate::store::{EngineConfig, EngineSide, Store};
use crate::types::{spec_file, spec_rank, square, valid_square, Color, Piece, Role, Square};

verus! {

/// File letters, a to h.
pub const FILE_CHARS: [char; 8] = ['a', 'b', 'c', 'd', 'e', 'f', 'g', 'h'];

/// Rank digits, 1 to 8.
pub const RANK_CHARS: [char; 8] = ['1', '2', '3', '4', '5', '6', '7', '8'];

/// The square drawn at grid cell `i` (row-major from the top left) for an
/// orientation: White at the bottom unless `flipped`.
pub open spec fn display_square(i: int, flipped: bool) -> Square {
    let row = i / 8;
    let col = i % 8;
    if flipped {
        (row * 8 + (7 - col)) as u8
    } else {
        ((7 - row) * 8 + col) as u8
    }
}

/// Render order of the 64 squares for the current orientation.
pub fn square_order(flipped: bool) -> (order: Vec<Square>)
    ensures
        order@ == Seq::new(64, |i: int| display_square(i, flipped)),
{
    let mut order: Vec<Square> = Vec::new();
    let mut row: u8 = 0;
    while row < 8
        invariant
            row <= 8,
            order@.len() == row * 8,
            forall|k: int| 0 <= k < order@.len() ==> order@[k] == display_square(k, flipped),
        decreases 8 - row,
    {
        let mut col: u8 = 0;
        while col < 8
            invariant
                row < 8,
                col <= 8,
                order@.len() == row * 8 + col,
                forall|k: int| 0 <= k < order@.len() ==> order@[k] == display_square(k, flipped),
            decreases 8 - col,
        {
            let sq = if flipped {
                square(7 - col, row)
            } else {
                square(col, 7 - row)
            };
            assert(sq == display_square(row * 8 + col, flipped));
            order.push(sq);
            col = col + 1;
        }
        row = row + 1;
    }
    assert(order@ =~= Seq::new(64, |i: int| display_square(i, flipped)));
    order
}

/// How far (in percent of a square, x then y) a piece arriving on `sq`
/// should slide in from: only the piece that just moved there, from its
/// origin square, in screen directions for the orientation.
pub open spec fn spec_slide_offset(sq: Square, last: Option<(Square, Square)>, flipped: bool) -> Option<(i32, i32)> {
    match last {
        None => None,
        Some((from, to)) => if to != sq || from == to {
            None
        } else if flipped {
            Some(
                (
                    ((spec_file(to) - spec_file(from)) * 100) as i32,
                    ((spec_rank(from) - spec_rank(to)) * 100) as i32,
                ),
            )
        } else {
            Some(
                (
                    ((spec_file(from) - spec_file(to)) * 100) as i32,
                    ((spec_rank(to) - spec_rank(from)) * 100) as i32,
                ),
            )
        },
    }
}

/// The slide-in offset of the piece on `sq` after the move `last`.
pub fn slide_offset(sq: Square, last: Option<(Square, Square)>, flipped: bool) -> (r: Option<(i32, i32)>)
    requires
        last matches Some((from, to)) ==> valid_square(from) && valid_square(to),
    ensures
        r == spec_slide_offset(sq, last, flipped),
{
    let (from, to) = match last {
        Some(pair) => pair,
        None => return None,
    };
    if to != sq || from == to {
        return None;
    }
    let from_file = (from % 8) as i32;
    let from_rank = (from / 8) as i32;
    let to_file = (to % 8) as i32;
    let to_rank = (to / 8) as i32;
    if flipped {
        Some(((to_file - from_file) * 100, (from_rank - to_rank) * 100))
    } else {
        Some(((from_file - to_file) * 100, (to_rank - from_rank) * 100))
    }
}

/// The file letter shown on `sq`: only on the visual bottom row.
pub open spec fn spec_file_label(sq: Square, flipped: bool) -> Option<char> {
    if spec_rank(sq) == (if flipped { 7int } else { 0int }) {
        Some(FILE_CHARS[spec_file(sq)])
    } else {
        None
    }
}

/// The rank digit shown on `sq`: only on the visual left column.
pub open spec fn spec_rank_label(sq: Square, flipped: bool) -> Option<char> {
    if spec_file(sq) == (if flipped { 7int } else { 0int }) {
        Some(RANK_CHARS[spec_rank(sq)])
    } else {
        None
    }
}

pub fn file_label(sq: Square, flipped: bool) -> (r: Option<char>)
    requires
        valid_square(sq),
    ensures
        r == spec_file_label(sq, flipped),
{
    let bottom: u8 = if flipped {
        7
    } else {
        0
    };
    if sq / 8 == bottom {
        Some(FILE_CHARS[(sq % 8) as usize])
    } else {
        None
    }
}

pub fn rank_label(sq: Square, flipped: bool) -> (r: Option<char>)
    requires
        valid_square(sq),
    ensures
        r == spec_rank_label(sq, flipped),
{
    let left: u8 = if flipped {
        7
    } else {
        0
    };
    if sq % 8 == left {
        Some(RANK_CHARS[(sq / 8) as usize])
    } else {
        None
    }
}

/// Per-square overlay state.
#[derive(Clone, Copy, PartialEq, Eq, Debug, Structural)]
pub struct SquareView {
    pub selected: bool,
    pub dest: bool,
    pub capture: bool,
    pub last_move: bool,
    pub check: bool,
}

/// The overlays of `sq`: selected, a move destination, a capture
/// destination, part of the last move, the king in check.
pub fn square_view(
    sq: Square,
    selected: Option<Square>,
    hints: (SquareSet, SquareSet),
    last_move: Option<(Square, Square)>,
    check: Option<Square>,
) -> (v: SquareView)
    requires
        valid_square(sq),
    ensures
        v == (SquareView {
            selected: selected == Some(sq),
            dest: spec_contains(hints.0, sq),
            capture: spec_contains(hints.1, sq),
            last_move: last_move matches Some((from, to)) && (from == sq || to == sq),
            check: check == Some(sq),
        }),
{
    SquareView {
        selected: selected == Some(sq),
        dest: set_contains(hints.0, sq),
        capture: set_contains(hints.1, sq),
        last_move: match last_move {
            Some((from, to)) => from == sq || to == sq,
            None => false,
        },
        check: check == Some(sq),
    }
}

pub open spec fn king(color: Color) -> Option<Piece> {
    Some(Piece { color, role: Role::King })
}

/// `s` holds the one and only king of `color`.
pub open spec fn sole_king(board: Seq<Option<Piece>>, color: Color, s: int) -> bool {
    &&& 0 <= s < 64
    &&& board[s] == king(color)
    &&& forall|t: int| 0 <= t < 64 && t != s ==> board[t] != king(color)
}

/// The square of the king of `color`, if there is exactly one
/// (as `shakmaty::Board::king_of` gives it).
pub fn king_of(board: &Board, color: Color) -> (r: Option<Square>)
    ensures
        r matches Some(s) ==> sole_king(board@, color, s as int),
        r is None ==> forall|s: int| !sole_king(board@, color, s),
{
    board.len_is_64();
    let mut found: Option<Square> = None;
    let mut count: u8 = 0;
    let mut i: u8 = 0;
    while i < 64
        invariant
            i <= 64,
            board@.len() == 64,
            count <= i,
            count == 0 ==> found is None && forall|t: int| 0 <= t < i ==> board@[t] != king(color),
            count == 1 ==> (found matches Some(s) && s < i && board@[s as int] == king(color)
                && forall|t: int| 0 <= t < i && t != s ==> board@[t] != king(color)),
            count >= 2 ==> exists|a: int, b: int| 0 <= a < b < i && board@[a] == king(color) && board@[b] == king(color),
        decreases 64 - i,
    {
        if board.piece_at(i) == Some(Piece { color, role: Role::King }) {
            if count == 1 {
                let s = found.unwrap();
                assert(board@[s as int] == king(color) && board@[i as int] == king(color));
            }
            if count < 2 {
                count = count + 1;
            }
            found = Some(i);
        }
        i = i + 1;
    }
    if count == 1 {
        found
    } else {
        proof {
            if count >= 2 {
                let (a, b) = choose|a: int, b: int| 0 <= a < b < 64 && board@[a] == king(color) && board@[b] == king(color);
                assert forall|s: int| !sole_king(board@, color, s) by {
                    if sole_king(board@, color, s) {
                        if s == a {
                            assert(board@[b] != king(color));
                        } else {
                            assert(board@[a] != king(color));
                        }
                    }
                }
            }
        }
        None
    }
}

/// Sprite path of a piece.
pub open spec fn spec_piece_asset(piece: Piece) -> Seq<char> {
    "assets/pieces/"@ + (if piece.color == Color::White {
        "w"@
    } else {
        "b"@
    }) + spec_role_letter(piece.role) + ".svg"@
}

pub open spec fn spec_role_letter(role: Role) -> Seq<char> {
    match role {
        Role::Pawn => "P"@,
        Role::Knight => "N"@,
        Role::Bishop => "B"@,
        Role::Rook => "R"@,
        Role::Queen => "Q"@,
        Role::King => "K"@,
    }
}

fn role_letter(role: Role) -> (r: &'static str)
    ensures
        r@ == spec_role_letter(role),
{
    match role {
        Role::Pawn => "P",
        Role::Knight => "N",
        Role::Bishop => "B",
        Role::Rook => "R",
        Role::Queen => "Q",
        Role::King => "K",
    }
}

/// Path of the SVG sprite for a piece.
pub fn piece_asset(piece: Piece) -> (r: String)
    ensures
        r@ == spec_piece_asset(piece),
{
    let color = if piece.color.is_white() {
        "w"
    } else {
        "b"
    };
    String::from_str("assets/pieces/").concat(color).concat(role_letter(piece.role)).concat(".svg")
}

pub open spec fn spec_color_name(color: Color) -> Seq<char> {
    match color {
        Color::White => "White"@,
        Color::Black => "Black"@,
    }
}

pub fn color_name(color: Color) -> (r: &'static str)
    ensures
        r@ == spec_color_name(color),
{
    match color {
        Color::White => "White",
        Color::Black => "Black",
    }
}

pub open spec fn spec_role_name(role: Role) -> Seq<char> {
    match role {
        Role::Pawn => "pawn"@,
        Role::Knight => "knight"@,
        Role::Bishop => "bishop"@,
        Role::Rook => "rook"@,
        Role::Queen => "queen"@,
        Role::King => "king"@,
    }
}

pub fn role_name(role: Role) -> (r: &'static str)
    ensures
        r@ == spec_role_name(role),
{
    match role {
        Role::Pawn => "pawn",
        Role::Knight => "knight",
        Role::Bishop => "bishop",
        Role::Rook => "rook",
        Role::Queen => "queen",
        Role::King => "king",
    }
}

/// Accessible label like "white knight".
pub fn piece_label(piece: Piece) -> (r: String)
    ensures
        r@ == (if piece.color == Color::White {
            "white"@
        } else {
            "black"@
        }) + " "@ + spec_role_name(piece.role),
{
    let color = if piece.color.is_white() {
        "white"
    } else {
        "black"
    };
    String::from_str(color).concat(" ").concat(role_name(piece.role))
}

pub open spec fn spec_status_text(status: GameStatus) -> Seq<char> {
    match status {
        GameStatus::Turn(c) => spec_color_name(c) + " to move"@,
        GameStatus::Check(c) => spec_color_name(c) + " to move \u{2014} check!"@,
        GameStatus::Checkmate(winner) => "Checkmate \u{2014} "@ + spec_color_name(winner) + " wins"@,
        GameStatus::Stalemate => "Stalemate \u{2014} draw"@,
        GameStatus::InsufficientMaterial => "Draw \u{2014} insufficient material"@,
    }
}

/// The status banner's text for a game status.
pub fn status_text(status: GameStatus) -> (r: String)
    ensures
        r@ == spec_status_text(status),
{
    match status {
        GameStatus::Turn(c) => String::from_str(color_name(c)).concat(" to move"),
        GameStatus::Check(c) => String::from_str(color_name(c)).concat(" to move \u{2014} check!"),
        GameStatus::Checkmate(winner) => String::from_str("Checkmate \u{2014} ").concat(color_name(winner)).concat(" wins"),
        GameStatus::Stalemate => String::from_str("Stalemate \u{2014} draw"),
        GameStatus::InsufficientMaterial => String::from_str("Draw \u{2014} insufficient material"),
    }
}

pub open spec fn spec_side_title(side: EngineSide) -> Seq<char> {
    match side {
        EngineSide::White => "Engine plays the white pieces"@,
        EngineSide::Black => "Engine plays the black pieces"@,
        EngineSide::Both => "Engine vs engine: it plays itself while you watch"@,
    }
}

/// Tooltip of the engine-side buttons.
pub fn side_title(side: EngineSide) -> (r: &'static str)
    ensures
        r@ == spec_side_title(side),
{
    match side {
        EngineSide::White => "Engine plays the white pieces",
        EngineSide::Black => "Engine plays the black pieces",
        EngineSide::Both => "Engine vs engine: it plays itself while you watch",
    }
}

/// Caption under the engine settings.
pub fn engine_caption(cfg: EngineConfig) -> (r: String)
    ensures
        r@ == cfg.level.spec_label() + (if cfg.plays == EngineSide::Both {
            " \u{2014} engine plays itself, sit back"@
        } else {
            " \u{2014} alpha-beta search, written in Rust"@
        }),
{
    if cfg.plays == EngineSide::Both {
        String::from_str(cfg.level.label()).concat(" \u{2014} engine plays itself, sit back")
    } else {
        String::from_str(cfg.level.label()).concat(" \u{2014} alpha-beta search, written in Rust")
    }
}

/// A global keyboard shortcut.
#[derive(Clone, Copy, PartialEq, Eq, Debug, Structural)]
pub enum Shortcut {
    NavPrev,
    NavNext,
    NavFirst,
    NavLast,
    Escape,
    Flip,
    ToggleSuggestions,
}

impl Shortcut {
    /// Timeline keys take over the browser's own handling of the key.
    pub fn prevents_default(self) -> (b: bool)
        ensures
            b == (self == Shortcut::NavPrev || self == Shortcut::NavNext || self == Shortcut::NavFirst
                || self == Shortcut::NavLast),
    {
        match self {
            Shortcut::NavPrev | Shortcut::NavNext | Shortcut::NavFirst | Shortcut::NavLast => true,
            _ => false,
        }
    }
}

pub open spec fn spec_shortcut(key: Seq<char>, mode: AppMode) -> Option<Shortcut> {
    let in_play = mode == AppMode::Play;
    if key == "ArrowLeft"@ && in_play {
        Some(Shortcut::NavPrev)
    } else if key == "ArrowRight"@ && in_play {
        Some(Shortcut::NavNext)
    } else if key == "Home"@ && in_play {
        Some(Shortcut::NavFirst)
    } else if key == "End"@ && in_play {
        Some(Shortcut::NavLast)
    } else if key == "Escape"@ {
        Some(Shortcut::Escape)
    } else if key == "f"@ || key == "F"@ {
        Some(Shortcut::Flip)
    } else if key == "h"@ || key == "H"@ {
        Some(Shortcut::ToggleSuggestions)
    } else {
        None
    }
}

fn is_key(key: &String, name: &str) -> (b: bool)
    ensures
        b == (key@ == name@),
{
    *key == String::from_str(name)
}

/// The shortcut bound to `key` (a DOM key name) in `mode`: the arrows,
/// Home and End step through the timeline in Play mode; Escape cancels;
/// F flips the board; H toggles suggestions.
pub fn shortcut(key: &str, mode: AppMode) -> (r: Option<Shortcut>)
    ensures
        r == spec_shortcut(key@, mode),
{
    let key = String::from_str(key);
    let in_play = mode == AppMode::Play;
    if is_key(&key, "ArrowLeft") && in_play {
        Some(Shortcut::NavPrev)
    } else if is_key(&key, "ArrowRight") && in_play {
        Some(Shortcut::NavNext)
    } else if is_key(&key, "Home") && in_play {
        Some(Shortcut::NavFirst)
    } else if is_key(&key, "End") && in_play {
        Some(Shortcut::NavLast)
    } else if is_key(&key, "Escape") {
        Some(Shortcut::Escape)
    } else if is_key(&key, "f") || is_key(&key, "F") {
        Some(Shortcut::Flip)
    } else if is_key(&key, "h") || is_key(&key, "H") {
        Some(Shortcut::ToggleSuggestions)
    } else {
        None
    }
}

impl Store {
    /// The pieces the board shows: the displayed game position in Play
    /// mode, the editor board in Setup mode.
    pub fn shown_board(&self) -> (b: Board)
        ensures
            b@ == match self.mode {
                AppMode::Play => spec_board(self.shown_fen()),
                AppMode::Setup => self.setup_board@,
            },
    {
        match self.mode {
            AppMode::Play => board_of(&self.game.displayed().pos),
            AppMode::Setup => self.setup_board.copy(),
        }
    }

    /// Move hints `(destinations, captures)` for the selected piece, in
    /// Play mode only (empty otherwise).
    pub fn hints(&self) -> (r: (SquareSet, SquareSet))
        ensures
            self.mode != AppMode::Play || self.selected is None ==> r == (0u64, 0u64),
            self.mode == AppMode::Play && self.selected is Some ==> {
                let moves = crate::rules::spec_legal_moves(self.shown_fen());
                let from = self.selected.unwrap();
                &&& forall|s: Square| valid_square(s) ==> (spec_contains(r.0, s) <==> reaches(moves, moves.len() as int, from, s, false))
                &&& forall|s: Square| valid_square(s) ==> (spec_contains(r.1, s) <==> reaches(moves, moves.len() as int, from, s, true))
            },
    {
        if self.mode != AppMode::Play {
            return (0, 0);
        }
        match self.selected {
            Some(from) => destinations(&self.game.displayed().pos, from),
            None => (0, 0),
        }
    }

    /// The last move to highlight (Play mode only).
    pub fn highlighted_move(&self) -> (r: Option<(Square, Square)>)
        ensures
            r == match self.mode {
                AppMode::Play => self.game.shown().last_move,
                AppMode::Setup => None,
            },
    {
        match self.mode {
            AppMode::Play => self.game.displayed().last_move,
            AppMode::Setup => None,
        }
    }

    /// The square of a king in check (Play mode only).
    pub fn check_square(&self) -> (r: Option<Square>)
        ensures
            self.mode == AppMode::Setup || !spec_is_check(self.shown_fen()) ==> r is None,
            self.mode == AppMode::Play && spec_is_check(self.shown_fen()) ==> {
                let board = spec_board(self.shown_fen());
                let side = spec_turn(self.shown_fen());
                &&& (r matches Some(s) ==> sole_king(board, side, s as int))
                &&& (r is None ==> forall|s: int| !sole_king(board, side, s))
            },
    {
        match self.mode {
            AppMode::Play => {
                let pos = &self.game.displayed().pos;
                if is_check(pos) {
                    king_of(&board_of(pos), turn(pos))
                } else {
                    None
                }
            },
            AppMode::Setup => None,
        }
    }

    /// The origin square of a piece carried in Setup mode.
    pub fn carry_from(&self) -> (r: Option<Square>)
        ensures
            r == match self.tool {
                SetupTool::Carry { from, .. } => Some(from),
                _ => None,
            },
    {
        match self.tool {
            SetupTool::Carry { from, .. } => Some(from),
            _ => None,
        }
    }

    /// The suggestion arrow `(from, to)`, drawn in Play mode while
    /// suggestions are on.
    pub fn arrow(&self) -> (r: Option<(Square, Square)>)
        ensures
            r == (if self.mode == AppMode::Play && self.show_suggestions {
                match self.suggestion {
                    Some(s) => Some((s.from, s.to)),
                    None => None,
                }
            } else {
                None
            }),
    {
        if self.mode != AppMode::Play || !self.show_suggestions {
            return None;
        }
        match &self.suggestion {
            Some(s) => Some((s.from, s.to)),
            None => None,
        }
    }

    /// `(displayed ply, latest ply)` for the progress counter.
    pub fn progress(&self) -> (r: (usize, usize))
        ensures
            r.0 == self.game.spec_cursor(),
            r.1 == self.game.plies().len() - 1,
    {
        self.game.well_formed();
        (self.game.cursor(), self.game.history().len() - 1)
    }

    /// Decides whether to start an analysis now: when suggestions are
    /// wanted, one starts unless one is running or this generation was
    /// already analysed; when they are not wanted, the stale suggestion is
    /// dropped.
    pub fn analysis_due(&mut self) -> (start: bool)
        ensures
            old(self).suggestions_wanted_spec() ==> *final(self) == *old(self) && start == (!old(self).analyzing
                && old(self).analyzed_gen != Some(old(self).search_gen)),
            !old(self).suggestions_wanted_spec() ==> !start && *final(self) == (Store { suggestion: None, ..*old(self) }),
    {
        if self.suggestions_wanted() {
            !self.analyzing && self.analyzed_gen != Some(self.search_gen)
        } else {
            self.suggestion = None;
            false
        }
    }

    /// Applies a keyboard shortcut.
    pub fn apply_shortcut(&mut self, s: Shortcut)
        ensures
            s == Shortcut::Flip ==> *final(self) == (Store { flipped: !old(self).flipped, ..*old(self) }),
            s == Shortcut::ToggleSuggestions ==> *final(self) == (Store {
                show_suggestions: !old(self).show_suggestions,
                analyzed_gen: None,
                ..*old(self)
            }),
            s == Shortcut::NavFirst ==> final(self).game.spec_cursor() == 0
                && final(self).game.plies() == old(self).game.plies()
                && *final(self) == crate::store::cleared(*old(self), final(self).game),
            s == Shortcut::NavLast ==> final(self).game.spec_cursor() == old(self).game.plies().len() - 1
                && final(self).game.plies() == old(self).game.plies()
                && *final(self) == crate::store::cleared(*old(self), final(self).game),
            s == Shortcut::NavPrev ==> final(self).game.spec_cursor() == crate::state::spec_prev_cursor(old(self).game.spec_cursor())
                && final(self).game.plies() == old(self).game.plies()
                && *final(self) == crate::store::cleared(*old(self), final(self).game),
            s == Shortcut::NavNext ==> final(self).game.spec_cursor() == crate::state::spec_next_cursor(old(self).game.plies().len() as int, old(self).game.spec_cursor())
                && final(self).game.plies() == old(self).game.plies()
                && *final(self) == crate::store::cleared(*old(self), final(self).game),
            s == Shortcut::Escape ==> (old(self).promo is Some ==> *final(self) == (Store { promo: None, ..*old(self) }))
                && (old(self).promo is None ==> *final(self) == (Store {
                    selected: None,
                    tool: if old(self).mode == AppMode::Setup {
                        SetupTool::Pointer
                    } else {
                        old(self).tool
                    },
                    ..*old(self)
                })),
    {
        match s {
            Shortcut::NavPrev => self.nav_prev(),
            Shortcut::NavNext => self.nav_next(),
            Shortcut::NavFirst => self.nav_first(),
            Shortcut::NavLast => self.nav_last(),
            Shortcut::Escape => self.escape(),
            Shortcut::Flip => self.flip(),
            Shortcut::ToggleSuggestions => self.toggle_suggestions(),
        }
    }
}

impl Store {
    /// The promotion roles the picker offers: those legal for the pending
    /// promotion's squares, in display order (none without a pending
    /// promotion).
    pub fn promotion_choices(&self) -> (r: Vec<Role>)
        ensures
            match self.promo {
                None => r@.len() == 0,
                Some(p) => r@ == spec_promotion_roles(spec_click_moves(spec_legal_moves(self.shown_fen()), p.from, p.to)),
            },
    {
        match self.promo {
            None => Vec::new(),
            Some(p) => promotion_roles(&click_moves(&self.game.displayed().pos, p.from, p.to)),
        }
    }

    /// Rewrites the FEN input box with the FEN of what the board shows.
    pub fn sync_fen_draft(&mut self)
        ensures
            final(self).fen_draft@ == match old(self).mode {
                AppMode::Play => old(self).shown_fen(),
                AppMode::Setup => crate::state::spec_setup_fen_text(old(self).setup_board@, old(self).setup_turn),
            },
            *final(self) == (Store { fen_draft: final(self).fen_draft, ..*old(self) }),
    {
        self.fen_draft = self.current_fen();
    }
}

} // verus!
