//! The application store: everything the playground shows and every action
//! a user (or the engine opponent) can take on it, as plain state.
//!
//! The store holds values only. A front end keeps one store, calls the
//! actions below in response to events, and drives the engine and analysis
//! searches chunk by chunk (see [`Store::begin_engine_search`] and
//! [`Store::begin_analysis`]), waiting between chunks as it sees fit.

use vstd::prelude::*;
use crate::board::{empty_board, start_board, Board};
use crate::engine::{position_hash, Level, Search, MATE};
use crate::eval::trunc_div;
use crate::rules::{
    board_of, first_index, halfmoves, move_san, spec_board,
    spec_halfmoves, spec_legal_moves, spec_san_nth, spec_turn, spec_zobrist, start_fen, turn,
    Position,
};
use crate::state::{
    click_moves, display_squares, game_status, parse_fen_position, parse_fen_setup, position_fen,
    setup_fen, setup_position, spec_click_moves, spec_display_squares, spec_game_status, AppMode,
    Game, GameStatus, SetupTool, Ply,
};
use crate::types::{valid_square, Color, Move, Piece, Role, Square};

verus! {

/// Nodes searched per chunk before the driver may yield.
pub const NODE_CHUNK: u64 = 50_000;

/// Minimum "thinking" time, in milliseconds, so instant replies still feel
/// deliberate.
pub const MIN_THINK_MS: u64 = 350;

/// Fixed strength of the live-suggestion analysis (independent of the
/// opponent's level: advice should be good advice).
pub const ANALYSIS_LEVEL: Level = Level::Hard;

/// Which side(s) the engine controls.
#[derive(Clone, Copy, PartialEq, Eq, Debug, Structural)]
pub enum EngineSide {
    White,
    Black,
    /// Engine vs engine: it plays itself while you watch (or browse history).
    Both,
}

impl EngineSide {
    pub const ALL: [EngineSide; 3] = [EngineSide::White, EngineSide::Black, EngineSide::Both];

    pub open spec fn spec_covers(self, color: Color) -> bool {
        match self {
            EngineSide::White => color == Color::White,
            EngineSide::Black => color == Color::Black,
            EngineSide::Both => true,
        }
    }

    /// Whether the engine plays `color`.
    #[verifier::when_used_as_spec(spec_covers)]
    pub fn covers(self, color: Color) -> (b: bool)
        ensures
            b == self.spec_covers(color),
    {
        match self {
            EngineSide::White => color == Color::White,
            EngineSide::Black => color == Color::Black,
            EngineSide::Both => true,
        }
    }

    pub open spec fn spec_label(self) -> Seq<char> {
        match self {
            EngineSide::White => "White"@,
            EngineSide::Black => "Black"@,
            EngineSide::Both => "Both"@,
        }
    }

    pub fn label(self) -> (r: &'static str)
        ensures
            r@ == self.spec_label(),
    {
        match self {
            EngineSide::White => "White",
            EngineSide::Black => "Black",
            EngineSide::Both => "Both",
        }
    }
}

/// A live engine recommendation for the displayed position.
#[derive(Clone, PartialEq, Eq, Debug)]
pub struct Suggestion {
    pub from: Square,
    pub to: Square,
    pub san: String,
    /// Evaluation from White's perspective, e.g. "+0.4", "-1.2", "#3".
    pub eval: String,
}

/// How an evaluation reads from White's side: a forced mate (who mates,
/// and in how many moves) or a score in centipawns.
#[derive(Clone, Copy, PartialEq, Eq, Debug, Structural)]
pub enum EvalDisplay {
    Mate { white_mates: bool, moves: i32 },
    Centipawns(i32),
}

pub open spec fn spec_white_eval(score_stm: i32, turn: Color) -> EvalDisplay {
    let white: int = if turn == Color::White {
        score_stm as int
    } else {
        -(score_stm as int)
    };
    let magnitude: int = if white < 0 {
        -white
    } else {
        white
    };
    if magnitude >= MATE - 200 {
        EvalDisplay::Mate { white_mates: white > 0, moves: trunc_div(MATE - magnitude + 1, 2) as i32 }
    } else {
        EvalDisplay::Centipawns(white as i32)
    }
}

/// Reads a side-to-move score from White's side: mate scores (within 200
/// of [`MATE`]) become the number of moves to mate, the rest stay
/// centipawns.
pub fn white_eval(score_stm: i32, turn: Color) -> (r: EvalDisplay)
    requires
        score_stm > i32::MIN,
    ensures
        r == spec_white_eval(score_stm, turn),
{
    let white: i32 = if turn.is_white() {
        score_stm
    } else {
        -score_stm
    };
    let magnitude: i32 = if white < 0 {
        -white
    } else {
        white
    };
    if magnitude >= MATE - 200 {
        let moves: i32 = (MATE - magnitude + 1) / 2;
        assert(moves == trunc_div(MATE - magnitude + 1, 2));
        EvalDisplay::Mate { white_mates: white > 0, moves }
    } else {
        EvalDisplay::Centipawns(white)
    }
}

/// Engine opponent configuration.
#[derive(Clone, Copy, PartialEq, Eq, Debug, Structural)]
pub struct EngineConfig {
    pub enabled: bool,
    pub plays: EngineSide,
    pub level: Level,
}

impl Default for EngineConfig {
    fn default() -> (c: EngineConfig)
        ensures
            c == (EngineConfig { enabled: false, plays: EngineSide::Black, level: Level::Medium }),
    {
        EngineConfig { enabled: false, plays: EngineSide::Black, level: Level::Medium }
    }
}

/// A pending pawn promotion waiting for the user to pick a piece.
#[derive(Clone, Copy, PartialEq, Eq, Debug, Structural)]
pub struct PendingPromotion {
    pub from: Square,
    pub to: Square,
    pub color: Color,
}

/// The application state.
pub struct Store {
    pub mode: AppMode,
    pub game: Game,
    /// Currently selected square in Play mode.
    pub selected: Option<Square>,
    /// Promotion picker state.
    pub promo: Option<PendingPromotion>,
    /// Editor board (Setup mode).
    pub setup_board: Board,
    /// Editor side to move (Setup mode).
    pub setup_turn: Color,
    /// Active editor tool (Setup mode).
    pub tool: SetupTool,
    /// Board orientation: `true` = Black at the bottom.
    pub flipped: bool,
    /// Editable contents of the FEN input box.
    pub fen_draft: String,
    /// Last user-facing error (FEN parse, illegal setup, ...).
    pub error: Option<String>,
    /// Transient "copied to clipboard" indicator.
    pub copied: bool,
    /// Live best-move suggestions: analyse the displayed position in the
    /// background and show the engine's recommendation.
    pub show_suggestions: bool,
    /// Latest analysis result for the displayed position.
    pub suggestion: Option<Suggestion>,
    /// `true` while a suggestion analysis is in flight.
    pub analyzing: bool,
    /// `search_gen` value that the current or last analysis was started for
    /// (prevents re-analysing an unchanged position).
    pub analyzed_gen: Option<u64>,
    /// Engine opponent settings.
    pub engine: EngineConfig,
    /// `true` while an engine search is in flight.
    pub thinking: bool,
    /// Bumped whenever the game or engine state changes; in-flight searches
    /// compare against the value they started with and abort when stale.
    pub search_gen: u64,
}

/// The generation after `g` (wrapping).
pub open spec fn next_gen(g: u64) -> u64 {
    if g == u64::MAX {
        0
    } else {
        (g + 1) as u64
    }
}

/// Every square the store remembers is on the board.
pub open spec fn tool_wf(tool: SetupTool) -> bool {
    tool matches SetupTool::Carry { from, .. } ==> valid_square(from)
}

impl Store {
    /// Every square the store remembers is on the board.
    pub open spec fn wf(&self) -> bool {
        &&& (self.selected matches Some(s) ==> valid_square(s))
        &&& (self.promo matches Some(p) ==> valid_square(p.from) && valid_square(p.to))
        &&& tool_wf(self.tool)
    }

    /// FEN of the position the game shows.
    pub open spec fn shown_fen(&self) -> Seq<char> {
        self.game.shown().pos@
    }

    /// A fresh store: Play mode, a new game, the editor on the starting
    /// position with White to move, no engine opponent.
    pub fn new() -> (s: Store)
        ensures
            s.wf(),
            s.mode == AppMode::Play,
            s.game.plies().len() == 1,
            s.game.plies()[0].pos@ == start_fen(),
            s.game.plies()[0].san is None,
            s.game.plies()[0].last_move is None,
            s.game.spec_cursor() == 0,
            s.selected is None,
            s.promo is None,
            s.setup_board@ == start_board(),
            s.setup_turn == Color::White,
            s.tool == SetupTool::Pointer,
            !s.flipped,
            s.fen_draft@ == Seq::<char>::empty(),
            s.error is None,
            !s.copied,
            !s.show_suggestions,
            s.suggestion is None,
            !s.analyzing,
            s.analyzed_gen is None,
            s.engine == (EngineConfig { enabled: false, plays: EngineSide::Black, level: Level::Medium }),
            !s.thinking,
            s.search_gen == 0,
    {
        Store {
            mode: AppMode::Play,
            game: Game::default(),
            selected: None,
            promo: None,
            setup_board: Board::new(),
            setup_turn: Color::White,
            tool: SetupTool::Pointer,
            flipped: false,
            fen_draft: String::new(),
            error: None,
            copied: false,
            show_suggestions: false,
            suggestion: None,
            analyzing: false,
            analyzed_gen: None,
            engine: EngineConfig::default(),
            thinking: false,
            search_gen: 0,
        }
    }

    /// FEN of whatever the board currently shows (play position or editor).
    pub fn current_fen(&self) -> (fen: String)
        ensures
            fen@ == match self.mode {
                AppMode::Play => self.shown_fen(),
                AppMode::Setup => crate::state::spec_setup_fen_text(self.setup_board@, self.setup_turn),
            },
    {
        match self.mode {
            AppMode::Play => position_fen(&self.game.displayed().pos),
            AppMode::Setup => setup_fen(&self.setup_board, self.setup_turn),
        }
    }

    /// Whether the editor position could be played as it stands; the error
    /// is the message [`setup_position`] gives.
    pub fn setup_validity(&self) -> (r: Result<(), String>)
        ensures
            match crate::state::spec_setup_result(self.setup_board@, self.setup_turn) {
                Ok(_) => r is Ok,
                Err(k) => r matches Err(msg) && msg@ == crate::state::spec_rejection_message(k),
            },
    {
        match setup_position(&self.setup_board, self.setup_turn) {
            Ok(_) => Ok(()),
            Err(msg) => Err(msg),
        }
    }
}

impl Default for Store {
    fn default() -> (s: Store)
        ensures
            s.wf(),
            s.mode == AppMode::Play,
            s.game.plies().len() == 1,
            s.game.plies()[0].pos@ == start_fen(),
            s.game.spec_cursor() == 0,
            s.setup_board@ == start_board(),
            s.engine == (EngineConfig { enabled: false, plays: EngineSide::Black, level: Level::Medium }),
            s.search_gen == 0,
    {
        Store::new()
    }
}

/// `s` with the selection and the promotion picker cleared, the
/// generation advanced, and `game` as its game.
pub open spec fn cleared(s: Store, game: Game) -> Store {
    Store { game, selected: None, promo: None, search_gen: next_gen(s.search_gen), ..s }
}

/// How a move request leaves the store: a legal move of the shown
/// position is played as [`Game::play`] plays it (an illegal one leaves the
/// game as it was), the transients are cleared and the error is dropped.
pub open spec fn after_move(old: Store, new: Store, m: Move) -> bool {
    let fen = old.shown_fen();
    &&& (spec_legal_moves(fen).contains(m) ==> new.game.is_played(
        old.game,
        m,
        first_index(spec_legal_moves(fen), m),
    ))
    &&& (!spec_legal_moves(fen).contains(m) ==> new.game == old.game)
    &&& new == (Store { error: None, ..cleared(old, new.game) })
}

/// Whether the piece on `sq` in position `fen` belongs to the side to move.
pub open spec fn own_piece(fen: Seq<char>, sq: Square) -> bool {
    spec_board(fen)[sq as int] matches Some(p) && p.color == spec_turn(fen)
}

/// Some move of `moves` promotes.
pub open spec fn any_promotion(moves: Seq<Move>) -> bool {
    exists|k: int| 0 <= k < moves.len() && (#[trigger] moves[k]).spec_promotion() is Some
}

fn has_promotion(moves: &Vec<Move>) -> (b: bool)
    ensures
        b == any_promotion(moves@),
{
    let mut i: usize = 0;
    while i < moves.len()
        invariant
            i <= moves@.len(),
            forall|k: int| 0 <= k < i ==> (#[trigger] moves@[k]).spec_promotion() is None,
        decreases moves@.len() - i,
    {
        if moves[i].promotion().is_some() {
            return true;
        }
        i = i + 1;
    }
    false
}

/// The editor board after a click on `sq` with `tool`, and the tool after it.
pub open spec fn setup_click(board: Seq<Option<Piece>>, tool: SetupTool, sq: Square) -> (Seq<Option<Piece>>, SetupTool) {
    match tool {
        SetupTool::Pointer => match board[sq as int] {
            Some(piece) => (board, SetupTool::Carry { piece, from: sq }),
            None => (board, tool),
        },
        SetupTool::Carry { piece, from } => (
            if from != sq {
                board.update(from as int, None).update(sq as int, Some(piece))
            } else {
                board
            },
            SetupTool::Pointer,
        ),
        SetupTool::Place(piece) => (
            if board[sq as int] == Some(piece) {
                board.update(sq as int, None)
            } else {
                board.update(sq as int, Some(piece))
            },
            tool,
        ),
        SetupTool::Erase => (board.update(sq as int, None), tool),
    }
}

/// What a left click on `sq` in Play mode does, for a store that is not
/// blocked by an open promotion picker or by the engine's turn: the new
/// selection, a promotion to ask for, or a move to play.
pub enum PlayClick {
    Select(Option<Square>),
    AskPromotion(PendingPromotion),
    Play(Move),
}

pub open spec fn play_click(fen: Seq<char>, selected: Option<Square>, sq: Square) -> Option<PlayClick> {
    match selected {
        Some(from) => if from == sq {
            Some(PlayClick::Select(None))
        } else {
            let moves = spec_click_moves(spec_legal_moves(fen), from, sq);
            if moves.len() == 0 {
                Some(PlayClick::Select(if own_piece(fen, sq) { Some(sq) } else { None }))
            } else if any_promotion(moves) {
                Some(PlayClick::AskPromotion(PendingPromotion { from, to: sq, color: spec_turn(fen) }))
            } else {
                Some(PlayClick::Play(moves[0]))
            }
        },
        None => if own_piece(fen, sq) {
            Some(PlayClick::Select(Some(sq)))
        } else {
            None
        },
    }
}

impl Store {
    /// Whether the engine plays the side to move in the shown position.
    pub open spec fn engine_to_move(&self) -> bool {
        self.engine.enabled && self.engine.plays.spec_covers(spec_turn(self.shown_fen()))
    }

    /// Clears the selection and the promotion picker and advances the
    /// generation, which makes every search in flight stale.
    fn clear_transients(&mut self)
        ensures
            *final(self) == cleared(*old(self), old(self).game),
    {
        self.selected = None;
        self.promo = None;
        self.search_gen = self.search_gen.wrapping_add(1);
    }

    fn play_move(&mut self, m: Move)
        ensures
            after_move(*old(self), *final(self), m),
    {
        let ghost before = *self;
        self.game.play(m);
        self.clear_transients();
        self.error = None;
        assert(*self == (Store { error: None, ..cleared(before, self.game) }));
    }

    /// Left click on a square: in Play mode select, move or open the
    /// promotion picker; in Setup mode apply the active tool.
    pub fn click_square(&mut self, sq: Square)
        requires
            old(self).wf(),
            valid_square(sq),
        ensures
            final(self).wf(),
            old(self).mode == AppMode::Setup ==> {
                let (board, tool) = setup_click(old(self).setup_board@, old(self).tool, sq);
                &&& final(self).setup_board@ == board
                &&& *final(self) == (Store { setup_board: final(self).setup_board, tool, ..*old(self) })
            },
            old(self).mode == AppMode::Play ==> {
                if old(self).promo is Some || old(self).engine_to_move() {
                    *final(self) == *old(self)
                } else {
                    match play_click(old(self).shown_fen(), old(self).selected, sq) {
                        None => *final(self) == *old(self),
                        Some(PlayClick::Select(s)) => *final(self) == (Store { selected: s, ..*old(self) }),
                        Some(PlayClick::AskPromotion(p)) => *final(self) == (Store { promo: Some(p), ..*old(self) }),
                        Some(PlayClick::Play(m)) => after_move(*old(self), *final(self), m),
                    }
                }
            },
    {
        match self.mode {
            AppMode::Play => self.click_play(sq),
            AppMode::Setup => self.click_setup(sq),
        }
    }

    fn click_play(&mut self, sq: Square)
        requires
            old(self).wf(),
            valid_square(sq),
        ensures
            final(self).wf(),
            if old(self).promo is Some || old(self).engine_to_move() {
                *final(self) == *old(self)
            } else {
                match play_click(old(self).shown_fen(), old(self).selected, sq) {
                    None => *final(self) == *old(self),
                    Some(PlayClick::Select(s)) => *final(self) == (Store { selected: s, ..*old(self) }),
                    Some(PlayClick::AskPromotion(p)) => *final(self) == (Store { promo: Some(p), ..*old(self) }),
                    Some(PlayClick::Play(m)) => after_move(*old(self), *final(self), m),
                }
            },
    {
        if self.promo.is_some() {
            return;
        }
        let pos = self.game.displayed().pos.duplicate();
        let side = turn(&pos);
        // The engine's pieces are not the human's to move.
        if self.engine.enabled && self.engine.plays.covers(side) {
            return;
        }
        let board = board_of(&pos);
        let own = match board.piece_at(sq) {
            Some(p) => p.color == side,
            None => false,
        };
        match self.selected {
            Some(from) => {
                if from == sq {
                    self.selected = None;
                } else {
                    let moves = click_moves(&pos, from, sq);
                    if moves.len() == 0 {
                        self.selected = if own {
                            Some(sq)
                        } else {
                            None
                        };
                    } else if has_promotion(&moves) {
                        self.promo = Some(PendingPromotion { from, to: sq, color: side });
                    } else {
                        self.play_move(moves[0]);
                    }
                }
            },
            None => {
                if own {
                    self.selected = Some(sq);
                }
            },
        }
    }

    fn click_setup(&mut self, sq: Square)
        requires
            old(self).wf(),
            valid_square(sq),
        ensures
            final(self).wf(),
            ({
                let (board, tool) = setup_click(old(self).setup_board@, old(self).tool, sq);
                &&& final(self).setup_board@ == board
                &&& *final(self) == (Store { setup_board: final(self).setup_board, tool, ..*old(self) })
            }),
    {
        match self.tool {
            SetupTool::Pointer => {
                match self.setup_board.piece_at(sq) {
                    Some(piece) => {
                        self.tool = SetupTool::Carry { piece, from: sq };
                    },
                    None => {},
                }
            },
            SetupTool::Carry { piece, from } => {
                if from != sq {
                    self.setup_board.discard_piece_at(from);
                    self.setup_board.set_piece_at(sq, piece);
                }
                self.tool = SetupTool::Pointer;
            },
            SetupTool::Place(piece) => {
                let same = self.setup_board.piece_at(sq) == Some(piece);
                if same {
                    self.setup_board.discard_piece_at(sq);
                } else {
                    self.setup_board.set_piece_at(sq, piece);
                }
            },
            SetupTool::Erase => {
                self.setup_board.discard_piece_at(sq);
            },
        }
    }
}

/// The first move of `moves`, from index `i` on, that promotes to `role`.
pub open spec fn find_promotion(moves: Seq<Move>, role: Role, i: int) -> Option<Move>
    decreases moves.len() - i,
{
    if i < 0 || i >= moves.len() {
        None
    } else if moves[i].spec_promotion() == Some(role) {
        Some(moves[i])
    } else {
        find_promotion(moves, role, i + 1)
    }
}

/// A game that holds only a root position with FEN `fen`.
pub open spec fn fresh_game(g: Game, fen: Seq<char>) -> bool {
    &&& g.plies().len() == 1
    &&& g.plies()[0].pos@ == fen
    &&& g.plies()[0].san is None
    &&& g.plies()[0].last_move is None
    &&& g.spec_cursor() == 0
}

pub open spec fn error_text(e: Option<String>) -> Option<Seq<char>> {
    match e {
        Some(s) => Some(s@),
        None => None,
    }
}

/// Whether the game goes on in a status (no mate, stalemate or dead
/// material).
pub open spec fn in_progress(st: GameStatus) -> bool {
    st matches GameStatus::Turn(_) || st matches GameStatus::Check(_)
}

impl Store {
    /// Right click: erase in Setup mode (dropping a carried piece), clear
    /// the selection in Play mode.
    pub fn right_click_square(&mut self, sq: Square)
        requires
            old(self).wf(),
            valid_square(sq),
        ensures
            final(self).wf(),
            old(self).mode == AppMode::Setup ==> {
                &&& final(self).setup_board@ == old(self).setup_board@.update(sq as int, None)
                &&& *final(self) == (Store {
                    setup_board: final(self).setup_board,
                    tool: if old(self).tool is Carry {
                        SetupTool::Pointer
                    } else {
                        old(self).tool
                    },
                    ..*old(self)
                })
            },
            old(self).mode == AppMode::Play ==> *final(self) == (Store { selected: None, ..*old(self) }),
    {
        match self.mode {
            AppMode::Setup => {
                if matches!(self.tool, SetupTool::Carry { .. }) {
                    self.tool = SetupTool::Pointer;
                }
                self.setup_board.discard_piece_at(sq);
            },
            AppMode::Play => {
                self.selected = None;
            },
        }
    }

    /// Plays the pending promotion with `role`; closes the picker if no
    /// such promotion is legal.
    pub fn choose_promotion(&mut self, role: Role)
        requires
            old(self).wf(),
        ensures
            final(self).wf(),
            match old(self).promo {
                None => *final(self) == *old(self),
                Some(p) => match find_promotion(
                    spec_click_moves(spec_legal_moves(old(self).shown_fen()), p.from, p.to),
                    role,
                    0,
                ) {
                    Some(m) => after_move(*old(self), *final(self), m),
                    None => *final(self) == (Store { promo: None, ..*old(self) }),
                },
            },
    {
        let pending = match self.promo {
            Some(p) => p,
            None => return,
        };
        let moves = click_moves(&self.game.displayed().pos, pending.from, pending.to);
        let mut i: usize = 0;
        let mut found: Option<Move> = None;
        while i < moves.len()
            invariant_except_break
                found is None,
            invariant
                i <= moves@.len(),
                find_promotion(moves@, role, 0) == find_promotion(moves@, role, i as int),
            ensures
                found == find_promotion(moves@, role, 0),
            decreases moves@.len() - i,
        {
            if moves[i].promotion() == Some(role) {
                found = Some(moves[i]);
                break;
            }
            i = i + 1;
        }
        match found {
            Some(m) => self.play_move(m),
            None => {
                self.promo = None;
            },
        }
    }

    pub fn cancel_promotion(&mut self)
        ensures
            *final(self) == (Store { promo: None, ..*old(self) }),
    {
        self.promo = None;
    }

    /// Shows ply `ply` (clamped to the latest).
    pub fn goto(&mut self, ply: usize)
        ensures
            final(self).game.plies() == old(self).game.plies(),
            final(self).game.spec_cursor() == crate::state::spec_goto_cursor(old(self).game.plies().len() as int, ply as int),
            *final(self) == cleared(*old(self), final(self).game),
    {
        self.game.goto(ply);
        self.clear_transients();
    }

    pub fn nav_first(&mut self)
        ensures
            final(self).game.plies() == old(self).game.plies(),
            final(self).game.spec_cursor() == 0,
            *final(self) == cleared(*old(self), final(self).game),
    {
        self.game.first();
        self.clear_transients();
    }

    pub fn nav_prev(&mut self)
        ensures
            final(self).game.plies() == old(self).game.plies(),
            final(self).game.spec_cursor() == crate::state::spec_prev_cursor(old(self).game.spec_cursor()),
            *final(self) == cleared(*old(self), final(self).game),
    {
        self.game.prev();
        self.clear_transients();
    }

    pub fn nav_next(&mut self)
        ensures
            final(self).game.plies() == old(self).game.plies(),
            final(self).game.spec_cursor() == crate::state::spec_next_cursor(old(self).game.plies().len() as int, old(self).game.spec_cursor()),
            *final(self) == cleared(*old(self), final(self).game),
    {
        self.game.next();
        self.clear_transients();
    }

    pub fn nav_last(&mut self)
        ensures
            final(self).game.plies() == old(self).game.plies(),
            final(self).game.spec_cursor() == old(self).game.plies().len() - 1,
            *final(self) == cleared(*old(self), final(self).game),
    {
        self.game.last();
        self.clear_transients();
    }

    /// Switches mode. Entering Setup seeds the editor with the displayed
    /// position and the pointer tool.
    pub fn set_mode(&mut self, mode: AppMode)
        ensures
            old(self).mode == mode ==> *final(self) == *old(self),
            old(self).mode != mode && mode == AppMode::Setup ==> {
                &&& final(self).setup_board@ == spec_board(old(self).shown_fen())
                &&& *final(self) == (Store {
                    mode,
                    error: None,
                    setup_board: final(self).setup_board,
                    setup_turn: spec_turn(old(self).shown_fen()),
                    tool: SetupTool::Pointer,
                    ..cleared(*old(self), old(self).game)
                })
            },
            old(self).mode != mode && mode == AppMode::Play ==> *final(self) == (Store {
                mode,
                error: None,
                ..cleared(*old(self), old(self).game)
            }),
    {
        if self.mode == mode {
            return;
        }
        self.error = None;
        self.clear_transients();
        if mode == AppMode::Setup {
            // Seed the editor with whatever is currently displayed.
            let pos = &self.game.displayed().pos;
            let board = board_of(pos);
            let side = turn(pos);
            self.setup_board = board;
            self.setup_turn = side;
            self.tool = SetupTool::Pointer;
        }
        self.mode = mode;
    }

    /// Picks the stamp tool for `piece`, or puts it down if already held.
    pub fn toggle_place_tool(&mut self, piece: Piece)
        ensures
            *final(self) == (Store {
                tool: if old(self).tool == SetupTool::Place(piece) {
                    SetupTool::Pointer
                } else {
                    SetupTool::Place(piece)
                },
                ..*old(self)
            }),
    {
        self.tool = if self.tool == SetupTool::Place(piece) {
            SetupTool::Pointer
        } else {
            SetupTool::Place(piece)
        };
    }

    pub fn set_tool(&mut self, tool: SetupTool)
        requires
            tool_wf(tool),
        ensures
            *final(self) == (Store { tool, ..*old(self) }),
    {
        self.tool = tool;
    }

    /// Empties the editor board.
    pub fn clear_board(&mut self)
        ensures
            final(self).setup_board@ == empty_board(),
            *final(self) == (Store {
                setup_board: final(self).setup_board,
                tool: SetupTool::Pointer,
                error: None,
                ..*old(self)
            }),
    {
        self.setup_board = Board::empty();
        self.tool = SetupTool::Pointer;
        self.error = None;
    }

    /// Resets the editor to the starting position with White to move.
    pub fn starting_position(&mut self)
        ensures
            final(self).setup_board@ == start_board(),
            *final(self) == (Store {
                setup_board: final(self).setup_board,
                setup_turn: Color::White,
                tool: SetupTool::Pointer,
                error: None,
                ..*old(self)
            }),
    {
        self.setup_board = Board::new();
        self.setup_turn = Color::White;
        self.tool = SetupTool::Pointer;
        self.error = None;
    }

    /// Validates the editor position and, if it is playable, starts a fresh
    /// game from it; otherwise reports why not.
    pub fn play_from_setup(&mut self)
        ensures
            match crate::state::spec_setup_result(old(self).setup_board@, old(self).setup_turn) {
                Ok(fen) => fresh_game(final(self).game, fen) && *final(self) == (Store {
                    mode: AppMode::Play,
                    error: None,
                    ..cleared(*old(self), final(self).game)
                }),
                Err(k) => error_text(final(self).error) == Some(crate::state::spec_rejection_message(k))
                    && *final(self) == (Store { error: final(self).error, ..*old(self) }),
            },
    {
        match setup_position(&self.setup_board, self.setup_turn) {
            Ok(pos) => {
                self.game = Game::new(pos);
                self.mode = AppMode::Play;
                self.error = None;
                self.clear_transients();
            },
            Err(msg) => {
                self.error = Some(msg);
            },
        }
    }

    /// A new game from the standard starting position, in Play mode.
    pub fn new_game(&mut self)
        ensures
            fresh_game(final(self).game, start_fen()),
            *final(self) == (Store { mode: AppMode::Play, error: None, ..cleared(*old(self), final(self).game) }),
    {
        self.game = Game::new(Position::initial());
        self.mode = AppMode::Play;
        self.error = None;
        self.clear_transients();
    }

    /// Turns the board around.
    pub fn flip(&mut self)
        ensures
            *final(self) == (Store { flipped: !old(self).flipped, ..*old(self) }),
    {
        self.flipped = !self.flipped;
    }

    /// Escape: close the promotion picker if it is open; otherwise drop any
    /// editor tool back to the pointer (in Setup mode) and clear the
    /// selection.
    pub fn escape(&mut self)
        ensures
            old(self).promo is Some ==> *final(self) == (Store { promo: None, ..*old(self) }),
            old(self).promo is None ==> *final(self) == (Store {
                selected: None,
                tool: if old(self).mode == AppMode::Setup {
                    SetupTool::Pointer
                } else {
                    old(self).tool
                },
                ..*old(self)
            }),
    {
        if self.promo.is_some() {
            self.promo = None;
            return;
        }
        if self.mode == AppMode::Setup && self.tool != SetupTool::Pointer {
            self.tool = SetupTool::Pointer;
        }
        self.selected = None;
    }

    pub fn set_engine_enabled(&mut self, enabled: bool)
        ensures
            *final(self) == (Store {
                engine: EngineConfig { enabled, ..old(self).engine },
                search_gen: next_gen(old(self).search_gen),
                ..*old(self)
            }),
    {
        self.engine.enabled = enabled;
        self.search_gen = self.search_gen.wrapping_add(1);
    }

    pub fn set_engine_side(&mut self, side: EngineSide)
        ensures
            *final(self) == (Store {
                engine: EngineConfig { plays: side, ..old(self).engine },
                search_gen: next_gen(old(self).search_gen),
                ..*old(self)
            }),
    {
        self.engine.plays = side;
        self.search_gen = self.search_gen.wrapping_add(1);
    }

    pub fn set_engine_level(&mut self, level: Level)
        ensures
            *final(self) == (Store {
                engine: EngineConfig { level, ..old(self).engine },
                search_gen: next_gen(old(self).search_gen),
                ..*old(self)
            }),
    {
        self.engine.level = level;
        self.search_gen = self.search_gen.wrapping_add(1);
    }

    /// Switches live suggestions on or off, forcing a fresh analysis even if
    /// the position has not changed since they were last on.
    pub fn toggle_suggestions(&mut self)
        ensures
            *final(self) == (Store {
                show_suggestions: !old(self).show_suggestions,
                analyzed_gen: None,
                ..*old(self)
            }),
    {
        self.show_suggestions = !self.show_suggestions;
        self.analyzed_gen = None;
    }

    /// Whether the engine should start searching now: it is enabled and
    /// idle, the game is in Play mode at its latest ply, the engine plays
    /// the side to move, the game goes on, and the fifty-move rule has not
    /// run out (engine-vs-engine games stop there instead of shuffling
    /// forever).
    pub fn engine_should_move(&self) -> (b: bool)
        ensures
            b == (self.engine.enabled && !self.thinking && self.mode == AppMode::Play
                && self.game.spec_cursor() == self.game.plies().len() - 1
                && self.engine.plays.spec_covers(spec_turn(self.shown_fen()))
                && spec_halfmoves(self.shown_fen()) < 100
                && in_progress(spec_game_status(self.shown_fen()))),
    {
        let cfg = self.engine;
        if !(cfg.enabled && !self.thinking && self.mode == AppMode::Play && self.game.at_latest()) {
            return false;
        }
        let pos = &self.game.displayed().pos;
        cfg.plays.covers(turn(pos)) && halfmoves(pos) < 100 && match game_status(pos) {
            GameStatus::Turn(_) | GameStatus::Check(_) => true,
            _ => false,
        }
    }

    /// Whether a live suggestion should exist for the displayed position.
    pub open spec fn suggestions_wanted_spec(&self) -> bool {
        self.show_suggestions && self.mode == AppMode::Play && in_progress(spec_game_status(self.shown_fen()))
            && !(self.engine.enabled && self.engine.plays.spec_covers(spec_turn(self.shown_fen()))
            && self.game.spec_cursor() == self.game.plies().len() - 1)
    }

    /// Whether a live suggestion should exist for the displayed position:
    /// suggestions are on, the game is in Play mode and goes on, and the
    /// engine opponent is not about to play this very position itself.
    pub fn suggestions_wanted(&self) -> (b: bool)
        ensures
            b == self.suggestions_wanted_spec(),
    {
        if !(self.show_suggestions && self.mode == AppMode::Play) {
            return false;
        }
        let cfg = self.engine;
        let pos = &self.game.displayed().pos;
        let going = match game_status(pos) {
            GameStatus::Turn(_) | GameStatus::Check(_) => true,
            _ => false,
        };
        going && !(cfg.enabled && cfg.plays.covers(turn(pos)) && self.game.at_latest())
    }

    /// Applies the FEN input box. In Play mode a valid FEN starts a new game
    /// from it; in Setup mode it loads the pieces and the side to move.
    /// Invalid input only sets the error.
    pub fn load_fen(&mut self)
        ensures
            old(self).mode == AppMode::Play ==> match crate::rules::spec_parse_fen_position(crate::rules::spec_trim(old(self).fen_draft@)) {
                Ok(fen) => fresh_game(final(self).game, fen) && *final(self) == (Store {
                    error: None,
                    ..cleared(*old(self), final(self).game)
                }),
                Err(None) => error_text(final(self).error) == Some(crate::state::invalid_fen_message())
                    && *final(self) == (Store { error: final(self).error, ..*old(self) }),
                Err(Some(k)) => error_text(final(self).error) == Some(crate::state::spec_rejection_message(k))
                    && *final(self) == (Store { error: final(self).error, ..*old(self) }),
            },
            old(self).mode == AppMode::Setup ==> match crate::rules::spec_parse_fen_setup(crate::rules::spec_trim(old(self).fen_draft@)) {
                Some((board, side)) => final(self).setup_board@ == board && *final(self) == (Store {
                    setup_board: final(self).setup_board,
                    setup_turn: side,
                    tool: SetupTool::Pointer,
                    error: None,
                    ..*old(self)
                }),
                None => error_text(final(self).error) == Some(crate::state::invalid_fen_message())
                    && *final(self) == (Store { error: final(self).error, ..*old(self) }),
            },
    {
        match self.mode {
            AppMode::Play => match parse_fen_position(self.fen_draft.as_str()) {
                Ok(pos) => {
                    self.game = Game::new(pos);
                    self.error = None;
                    self.clear_transients();
                },
                Err(msg) => {
                    self.error = Some(msg);
                },
            },
            AppMode::Setup => match parse_fen_setup(self.fen_draft.as_str()) {
                Ok((board, side)) => {
                    self.setup_board = board;
                    self.setup_turn = side;
                    self.tool = SetupTool::Pointer;
                    self.error = None;
                },
                Err(msg) => {
                    self.error = Some(msg);
                },
            },
        }
    }
}

/// Everything a search of the displayed position needs: the position, the
/// Zobrist keys of the game positions that still count for repetition, the
/// strength, and the generation the search belongs to.
pub struct SearchRequest {
    pub pos: Position,
    pub prior: Vec<u64>,
    pub level: Level,
    pub gen: u64,
}

/// What a driver does after one chunk of an engine search.
#[derive(Clone, Copy, PartialEq, Eq, Debug, Structural)]
pub enum ChunkOutcome {
    /// The store moved on: drop the search.
    Stale,
    /// Take the best move now.
    Finished,
    /// Yield, then run another chunk.
    Continue,
}

/// What one chunk of an analysis found.
#[derive(Clone, Copy, Debug)]
pub enum AnalysisStep {
    /// The store moved on: stop analysing.
    Stale,
    /// The best `(move, score)` so far, if any, and whether to stop.
    Progress { best: Option<(Move, i32)>, finished: bool },
}

/// Where the repetition window of the shown ply starts: the positions since
/// the last irreversible move (`halfmoves` plies back), up to the shown one.
pub open spec fn window_start(cursor: int, halfmoves: int) -> int {
    if cursor + 1 > halfmoves + 1 {
        cursor + 1 - (halfmoves + 1)
    } else {
        0
    }
}

/// The Zobrist keys of the plies `start..=cursor` of a timeline.
pub open spec fn window_keys(plies: Seq<Ply>, start: int, cursor: int) -> Seq<u64> {
    Seq::new((cursor + 1 - start) as nat, |j: int| spec_zobrist(plies[start + j].pos@))
}

/// A suggestion by value: squares, SAN and evaluation text.
pub open spec fn suggestion_view(s: Suggestion) -> (Square, Square, Seq<char>, Seq<char>) {
    (s.from, s.to, s.san@, s.eval@)
}

/// The seed of a search started at `started_ms` for generation `gen`.
pub open spec fn spec_search_seed(started_ms: u64, gen: u64) -> u64 {
    started_ms ^ (((gen as nat) * 0x9E37_79B9_7F4A_7C15nat) % 0x1_0000_0000_0000_0000nat) as u64
}

/// Seeds the choice among near-equal moves from the start time and the
/// generation.
pub fn search_seed(started_ms: u64, gen: u64) -> (seed: u64)
    ensures
        seed == spec_search_seed(started_ms, gen),
{
    started_ms ^ gen.wrapping_mul(0x9E37_79B9_7F4A_7C15)
}

/// How long to wait before playing a move found after `elapsed_ms`, so that
/// every reply takes at least [`MIN_THINK_MS`].
pub fn think_pause_ms(elapsed_ms: u64) -> (wait: u64)
    ensures
        wait == if elapsed_ms < MIN_THINK_MS {
            MIN_THINK_MS - elapsed_ms
        } else {
            0
        },
        elapsed_ms + wait >= MIN_THINK_MS,
{
    if elapsed_ms < MIN_THINK_MS {
        MIN_THINK_MS - elapsed_ms
    } else {
        0
    }
}

/// Runs one chunk of `search`, unless its node counter is about to run out
/// (about 2^64 nodes), in which case it counts as finished.
fn step_chunk(search: &mut Search) -> (finished: bool)
    requires
        old(search).wf(),
    ensures
        final(search).wf(),
        final(search).root_fen() == old(search).root_fen(),
        final(search).legal() == old(search).legal(),
        old(search).is_done() ==> finished,
        !finished ==> !final(search).is_done(),
        final(search).is_done() ==> finished,
        // Near the end of the node counter: finished, the search untouched.
        old(search).spec_nodes() >= u64::MAX - NODE_CHUNK - 1 ==> finished && *final(search) == *old(search),
        // Otherwise one chunk of `Search::step`.
        old(search).spec_nodes() < u64::MAX - NODE_CHUNK - 1 ==> {
            &&& finished == final(search).is_done()
            &&& old(search).is_done() ==> *final(search) == *old(search)
            &&& old(search).spec_nodes() <= final(search).spec_nodes() <= old(search).spec_nodes() + NODE_CHUNK + 1
        },
{
    if search.nodes() >= u64::MAX - NODE_CHUNK - 1 {
        return true;
    }
    search.step(NODE_CHUNK)
}

impl Store {
    /// The repetition window of the shown ply.
    pub open spec fn shown_window(&self) -> Seq<u64> {
        let cursor = self.game.spec_cursor();
        window_keys(
            self.game.plies(),
            window_start(cursor, spec_halfmoves(self.shown_fen()) as int),
            cursor,
        )
    }

    /// The displayed position and the Zobrist keys of the game positions
    /// that still matter for repetition (since the last irreversible move,
    /// up to and including the displayed one).
    fn snapshot_displayed(&self) -> (r: (Position, Vec<u64>))
        ensures
            r.0@ == self.shown_fen(),
            r.1@ == self.shown_window(),
    {
        self.game.well_formed();
        let pos = self.game.displayed().pos.duplicate();
        let cursor = self.game.cursor();
        let history = self.game.history();
        let count = history.len();
        assert(cursor < count);
        let end = cursor + 1;
        let keep = halfmoves(&pos) as usize;
        let start = end.saturating_sub(keep).saturating_sub(1);
        let mut prior: Vec<u64> = Vec::new();
        let mut k: usize = start;
        assert(start == window_start(cursor as int, keep as int));
        while k < end
            invariant
                start <= k <= end,
                end == cursor + 1,
                cursor < history@.len(),
                history@ == self.game.plies(),
                prior@ == window_keys(history@, start as int, cursor as int).subrange(0, k - start),
            decreases end - k,
        {
            prior.push(position_hash(&history[k].pos));
            assert(prior@ =~= window_keys(history@, start as int, cursor as int).subrange(0, k + 1 - start));
            k = k + 1;
        }
        assert(prior@ =~= window_keys(history@, start as int, cursor as int));
        (pos, prior)
    }

    /// Starts an engine search of the displayed position unless one is
    /// already running: marks the engine as thinking and hands out what the
    /// search needs.
    pub fn begin_engine_search(&mut self) -> (r: Option<SearchRequest>)
        ensures
            old(self).thinking ==> r is None && *final(self) == *old(self),
            !old(self).thinking ==> *final(self) == (Store { thinking: true, ..*old(self) }) && (r matches Some(req)
                && req.pos@ == old(self).shown_fen()
                && req.prior@ == old(self).shown_window()
                && req.level == old(self).engine.level
                && req.gen == old(self).search_gen),
    {
        if self.thinking {
            return None;
        }
        let level = self.engine.level;
        let (pos, prior) = self.snapshot_displayed();
        self.thinking = true;
        Some(SearchRequest { pos, prior, level, gen: self.search_gen })
    }

    /// One chunk of the engine's search for generation `gen`, started
    /// `elapsed_ms` ago at `level`. A stale search (the store has moved on)
    /// stops the engine thinking and leaves the search alone; otherwise the
    /// search runs one chunk and is finished when it is done or out of time.
    pub fn engine_chunk(&mut self, search: &mut Search, gen: u64, level: Level, elapsed_ms: u64) -> (r: ChunkOutcome)
        requires
            old(search).wf(),
        ensures
            final(search).wf(),
            final(search).root_fen() == old(search).root_fen(),
            final(search).legal() == old(search).legal(),
            old(self).search_gen != gen ==> r == ChunkOutcome::Stale && *final(search) == *old(search)
                && *final(self) == (Store { thinking: false, ..*old(self) }),
            old(self).search_gen == gen ==> *final(self) == *old(self) && r != ChunkOutcome::Stale,
            r == ChunkOutcome::Continue ==> !final(search).is_done() && elapsed_ms < level.time_budget_ms(),
            old(self).search_gen == gen && (final(search).is_done() || elapsed_ms >= level.time_budget_ms())
                ==> r == ChunkOutcome::Finished,
    {
        if self.search_gen != gen {
            // The user changed something; this search is stale.
            self.thinking = false;
            return ChunkOutcome::Stale;
        }
        if step_chunk(search) {
            return ChunkOutcome::Finished;
        }
        if elapsed_ms >= level.time_budget_ms() {
            return ChunkOutcome::Finished;
        }
        ChunkOutcome::Continue
    }

    /// Ends the engine's search for generation `gen`: its move is played
    /// only if the store has not moved on since the search began.
    pub fn finish_engine_search(&mut self, best: Option<Move>, gen: u64)
        ensures
            old(self).search_gen != gen || best is None ==> *final(self) == (Store { thinking: false, ..*old(self) }),
            old(self).search_gen == gen && best is Some ==> {
                let m = best.unwrap();
                let fen = old(self).shown_fen();
                &&& (spec_legal_moves(fen).contains(m) ==> final(self).game.is_played(
                    old(self).game,
                    m,
                    first_index(spec_legal_moves(fen), m),
                ))
                &&& (!spec_legal_moves(fen).contains(m) ==> final(self).game == old(self).game)
                &&& *final(self) == (Store { thinking: false, ..cleared(*old(self), final(self).game) })
            },
    {
        if self.search_gen == gen {
            match best {
                Some(m) => {
                    self.game.play(m);
                    self.clear_transients();
                },
                None => {},
            }
        }
        self.thinking = false;
    }

    /// Starts analysing the displayed position unless an analysis is
    /// already running: marks it as running for the current generation,
    /// drops the old suggestion and hands out what the search needs.
    pub fn begin_analysis(&mut self) -> (r: Option<SearchRequest>)
        ensures
            old(self).analyzing ==> r is None && *final(self) == *old(self),
            !old(self).analyzing ==> *final(self) == (Store {
                analyzing: true,
                analyzed_gen: Some(old(self).search_gen),
                suggestion: None,
                ..*old(self)
            }) && (r matches Some(req)
                && req.pos@ == old(self).shown_fen()
                && req.prior@ == old(self).shown_window()
                && req.level == ANALYSIS_LEVEL
                && req.gen == old(self).search_gen),
    {
        if self.analyzing {
            return None;
        }
        let (pos, prior) = self.snapshot_displayed();
        let gen = self.search_gen;
        self.analyzing = true;
        self.analyzed_gen = Some(gen);
        self.suggestion = None;
        Some(SearchRequest { pos, prior, level: ANALYSIS_LEVEL, gen })
    }

    /// One chunk of the analysis for generation `gen`, started `elapsed_ms`
    /// ago: stale if the store has moved on; otherwise the best line so far
    /// and whether to stop (search done or out of time).
    pub fn analysis_chunk(&self, search: &mut Search, gen: u64, elapsed_ms: u64) -> (r: AnalysisStep)
        requires
            old(search).wf(),
        ensures
            final(search).wf(),
            final(search).root_fen() == old(search).root_fen(),
            final(search).legal() == old(search).legal(),
            self.search_gen != gen ==> r == AnalysisStep::Stale && *final(search) == *old(search),
            self.search_gen == gen ==> (r matches AnalysisStep::Progress { best, finished } && {
                &&& best == (if final(search).spec_last_scores().len() > 0 {
                    Some(final(search).spec_last_scores()[0])
                } else {
                    None
                })
                &&& (best matches Some((m, _)) ==> final(search).legal().contains(m))
                &&& (final(search).is_done() || elapsed_ms >= ANALYSIS_LEVEL.time_budget_ms() ==> finished)
                &&& (!finished ==> !final(search).is_done() && elapsed_ms < ANALYSIS_LEVEL.time_budget_ms())
            }),
    {
        if self.search_gen != gen {
            return AnalysisStep::Stale;
        }
        let done = step_chunk(search);
        let best = match search.current_best_line() {
            Some((m, score, _)) => Some((m, score)),
            None => None,
        };
        AnalysisStep::Progress { best, finished: done || elapsed_ms >= ANALYSIS_LEVEL.time_budget_ms() }
    }

    /// Publishes `m` (a legal move of `pos`, the analysed position) with
    /// evaluation text `eval` as the live suggestion, if the analysis for
    /// generation `gen` is still current and the suggestion is new.
    pub fn offer_suggestion(&mut self, gen: u64, pos: &Position, m: Move, eval: String)
        requires
            m.wf(),
        ensures
            ({
                let fresh = old(self).search_gen == gen && spec_legal_moves(pos@).contains(m);
                let sq = spec_display_squares(m);
                let view = (sq.0, sq.1, spec_san_nth(pos@, first_index(spec_legal_moves(pos@), m)), eval@);
                let publish = fresh && !(old(self).suggestion matches Some(s) && suggestion_view(s) == view);
                &&& publish ==> (final(self).suggestion matches Some(s) && suggestion_view(s) == view)
                    && *final(self) == (Store { suggestion: final(self).suggestion, ..*old(self) })
                &&& !publish ==> *final(self) == *old(self)
            }),
    {
        if self.search_gen != gen {
            return;
        }
        let san = match move_san(pos, m) {
            Some(text) => text,
            None => return,
        };
        let (from, to) = display_squares(m);
        let same = match &self.suggestion {
            Some(s) => s.from == from && s.to == to && s.san == san && s.eval == eval,
            None => false,
        };
        if !same {
            self.suggestion = Some(Suggestion { from, to, san, eval });
        }
    }

    /// Marks the analysis as no longer running.
    pub fn end_analysis(&mut self)
        ensures
            *final(self) == (Store { analyzing: false, ..*old(self) }),
    {
        self.analyzing = false;
    }
}

/// Every action that clears the transients moves the store to a new
/// generation, so a search started before it is stale.
pub proof fn lemma_cleared_makes_searches_stale(s: Store, game: Game)
    ensures
        cleared(s, game).search_gen != s.search_gen,
        cleared(s, game).selected is None,
        cleared(s, game).promo is None,
{
}

/// A promotion role offered for a click (see
/// [`crate::state::promotion_roles`]) is exactly one for which choosing it
/// finds a move, and the move found promotes to that role.
pub proof fn lemma_offered_promotion_is_found(moves: Seq<Move>, role: Role)
    ensures
        crate::state::offers(moves, role) <==> find_promotion(moves, role, 0) is Some,
        find_promotion(moves, role, 0) matches Some(m) ==> m.spec_promotion() == Some(role) && moves.contains(m),
{
    lemma_find_promotion_from(moves, role, 0);
}

proof fn lemma_find_promotion_from(moves: Seq<Move>, role: Role, i: int)
    requires
        0 <= i <= moves.len(),
    ensures
        (exists|k: int| i <= k < moves.len() && #[trigger] moves[k].spec_promotion() == Some(role))
            <==> find_promotion(moves, role, i) is Some,
        find_promotion(moves, role, i) matches Some(m) ==> m.spec_promotion() == Some(role) && moves.contains(m),
    decreases moves.len() - i,
{
    if i < moves.len() {
        lemma_find_promotion_from(moves, role, i + 1);
        if moves[i].spec_promotion() == Some(role) {
            assert(moves.contains(moves[i]));
        }
        if exists|k: int| i <= k < moves.len() && #[trigger] moves[k].spec_promotion() == Some(role) {
            let k = choose|k: int| i <= k < moves.len() && #[trigger] moves[k].spec_promotion() == Some(role);
            if k > i {
                assert(exists|j: int| i + 1 <= j < moves.len() && #[trigger] moves[j].spec_promotion() == Some(role));
            }
        }
    }
}

/// With the pointer tool, clicking a piece and then another square moves
/// the piece there and puts the pointer back.
pub proof fn lemma_pick_up_and_drop(board: Seq<Option<Piece>>, a: Square, b: Square, p: Piece)
    requires
        valid_square(a),
        valid_square(b),
        a != b,
        board[a as int] == Some(p),
    ensures
        ({
            let (board1, tool1) = setup_click(board, SetupTool::Pointer, a);
            let (board2, tool2) = setup_click(board1, tool1, b);
            &&& board1 == board
            &&& tool1 == SetupTool::Carry { piece: p, from: a }
            &&& board2 == board.update(a as int, None).update(b as int, Some(p))
            &&& tool2 == SetupTool::Pointer
        }),
{
}

/// Stamping the same piece twice on an empty square leaves it empty again:
/// the second click with the stamp tool takes the stamped piece off.
pub proof fn lemma_stamp_twice(board: Seq<Option<Piece>>, sq: Square, p: Piece)
    requires
        valid_square(sq),
        board.len() == 64,
        board[sq as int] is None,
    ensures
        ({
            let (board1, tool1) = setup_click(board, SetupTool::Place(p), sq);
            let (board2, tool2) = setup_click(board1, tool1, sq);
            &&& board1 == board.update(sq as int, Some(p))
            &&& board2 == board
            &&& tool2 == SetupTool::Place(p)
        }),
{
    let (board1, tool1) = setup_click(board, SetupTool::Place(p), sq);
    assert(board1.update(sq as int, None) =~= board);
}

/// The eraser empties the clicked square, leaves every other square as it
/// was and stays selected.
pub proof fn lemma_erase_empties_the_square(board: Seq<Option<Piece>>, sq: Square)
    requires
        valid_square(sq),
        board.len() == 64,
    ensures
        ({
            let (after, tool) = setup_click(board, SetupTool::Erase, sq);
            &&& after.len() == 64
            &&& after[sq as int] is None
            &&& forall|t: int| 0 <= t < 64 && t != sq ==> after[t] == board[t]
            &&& tool == SetupTool::Erase
        }),
{
}

/// Flipping the board twice restores the store.
pub proof fn lemma_flip_twice(a: Store, b: Store, c: Store)
    requires
        b == (Store { flipped: !a.flipped, ..a }),
        c == (Store { flipped: !b.flipped, ..b }),
    ensures
        c == a,
{
}

} // verus!
