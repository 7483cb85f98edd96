# RustChess

A chess playground: play against a small alpha-beta engine or a friend,
step through the game's history, edit positions in a board editor, and
load or copy positions as FEN. The chess rules themselves come from the
`shakmaty` crate; the code built on top of them is checked by Verus against
its contracts. For the search engine those contracts cover its bookkeeping
(node budgets, when it finishes, legal and best-scored choices), the mate,
draw and stalemate scores at the leaves, that a move into checkmate is
scored as mate in one at every node and at the root, and that scores stay
within the mate score while the evaluations do; they do not state that
every score is the exact minimax value of the game tree, which the
transposition table and the repetition rules make depend on the search's
history.

## Layout

- `src/` — the library, verified by Verus.
  - `types.rs` — colors, roles, pieces, squares and moves.
  - `board.rs` — piece placement and square sets.
  - `rules.rs` — the boundary to `shakmaty`: a `Position` type and the
    rules queries, each with the contract it is trusted to meet.
  - `eval.rs` — static evaluation, with its colour symmetry proved.
  - `engine.rs` — the chunked iterative-deepening search.
  - `state.rs` — the game timeline, FEN in and out, click matching, move
    hints, castling rights, game status and the move list.
  - `store.rs` — the application state and every user action on it, plus
    the decisions of the engine and analysis drivers.
  - `view.rs` — what the board and panels display, and the shortcuts.
- `tests/` — tests of the library.
- `app/` — the Leptos front end: it keeps the store in a signal, renders
  it, and runs the searches chunk by chunk between browser frames.
