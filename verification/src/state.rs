//! The application state machine: current position, mode (standard game
//! or puzzle), input buffer and status message, and the transitions that
//! key events drive.
use vstd::prelude::*;

use crate::codec::{coords_wf, spec_uci, MoveCoords};
use crate::compose::{compose, composed_cell, dims_ok};
use crate::compress::{compress, expand, Run};
use crate::engine::{
    board_grid, decode_index, ex_is_game_over, ex_outcome, ex_play, ex_san_to_move, ex_turn,
    initial_chess, is_over_of, legal_moves_of, outcome_of, parse_uci_move, piece_on, play_of,
    san_move_of, spec_legal_coords, turn_of, GameOutcome,
};
use crate::glyph::{spec_default_cell_dimensions, DisplayMode, PieceColor};
use crate::style::Cell;
use crate::text::{dec_chars, push_chars, push_str_chars, spec_dec, spec_lower, spec_trim, trim};

verus! {

/// A failure of the puzzle data against the rules engine: a solution move
/// that does not resolve to a legal move where it should apply.
#[derive(Clone, Copy, Debug, PartialEq, Eq, Structural)]
pub enum StateError {
    SolutionMoveUnresolved,
}

/// A key event, as the state machine understands it.
#[derive(Clone, Copy, Debug, PartialEq, Eq, Structural)]
pub enum Key {
    Char(char),
    Enter,
    Backspace,
    Esc,
    Other,
}

/// What the control loop should do after a key event.
#[derive(Clone, Copy, Debug, PartialEq, Eq, Structural)]
pub enum KeyOutcome {
    Continue,
    Quit,
    NewPuzzleRequested,
}

/// Write-once metadata of a loaded puzzle.
#[derive(Debug)]
pub struct PuzzleMeta {
    pub id: String,
    pub rating: u16,
    pub initial_ply: u16,
    pub pgn: String,
}

/// The mode of the application: a free-form standard game, or a puzzle
/// with its expected move sequence and progress.
pub enum AppMode {
    StandardGame,
    Puzzle {
        solution: Vec<MoveCoords>,
        solution_index: usize,
        completed: bool,
        meta: PuzzleMeta,
    },
}

/// The mode invariant: the solution index never passes the solution
/// length, the completed flag holds exactly at the end, and every
/// solution entry has board coordinates.
pub open spec fn mode_wf(m: AppMode) -> bool {
    match m {
        AppMode::StandardGame => true,
        AppMode::Puzzle { solution, solution_index, completed, .. } => {
            &&& solution_index <= solution@.len()
            &&& (completed <==> solution_index == solution@.len())
            &&& forall|i: int| 0 <= i < solution@.len() ==> coords_wf(#[trigger] solution@[i])
        },
    }
}

/// The whole application state.
pub struct App {
    pub board: shakmaty::Chess,
    pub mode: AppMode,
    pub display: DisplayMode,
    pub input_buffer: Vec<char>,
    pub message: Vec<char>,
    pub cell_width: usize,
    pub cell_height: usize,
}

/// The state invariant: the mode is well formed and the cell geometry is
/// the display mode's default.
pub open spec fn app_wf(a: App) -> bool {
    &&& mode_wf(a.mode)
    &&& (a.cell_width as int, a.cell_height as int) == spec_default_cell_dimensions(a.display)
}

/// The display name of a side.
pub open spec fn spec_turn_text(c: PieceColor) -> Seq<char> {
    match c {
        PieceColor::White => "white"@,
        PieceColor::Black => "black"@,
    }
}

/// The display text of a game outcome.
pub open spec fn spec_outcome_text(o: Option<GameOutcome>) -> Seq<char> {
    match o {
        Some(GameOutcome::WhiteWins) => "White wins"@,
        Some(GameOutcome::BlackWins) => "Black wins"@,
        Some(GameOutcome::Draw) => "Draw"@,
        None => "unknown"@,
    }
}

/// Status message after a move played in standard mode.
pub open spec fn msg_move_played(input: Seq<char>) -> Seq<char> {
    "Move "@ + input + " played"@
}

/// Status message when the standard game has just ended.
pub open spec fn msg_game_over(o: Option<GameOutcome>) -> Seq<char> {
    "Game over. "@ + spec_outcome_text(o)
}

/// Status message for input that names no legal move in standard mode.
pub open spec fn msg_illegal(input: Seq<char>) -> Seq<char> {
    "Illegal or unrecognized move: "@ + input
}

/// Status message when the last puzzle move was entered.
pub open spec fn msg_solved() -> Seq<char> {
    "Puzzle solved! Congratulations. Press 'n' for a new puzzle."@
}

/// Status message for a correct puzzle move followed by the automatic
/// reply.
pub open spec fn msg_correct(input: Seq<char>, reply: Seq<char>) -> Seq<char> {
    "Move "@ + input + " was correct! Opponent played: "@ + reply
}

/// Status message for a wrong or unreadable puzzle guess.
pub open spec fn msg_incorrect(expected: Seq<char>) -> Seq<char> {
    "Incorrect move. Expected UCI: "@ + expected + "."@
}

/// Greeting of a fresh standard game.
pub open spec fn msg_new_game(turn: PieceColor) -> Seq<char> {
    "New Game, "@ + spec_turn_text(turn) + " to move."@
}

/// Greeting of a freshly loaded puzzle.
pub open spec fn msg_puzzle_start(id: Seq<char>, rating: u16, turn: PieceColor) -> Seq<char> {
    "Puzzle "@ + id + ", rating: "@ + spec_dec(rating as int)
        + ", please enter moves in simplified UCI (e.g. e2e4). "@ + spec_turn_text(turn)
        + " to move."@
}

/// The start message of a state: the standard greeting, or the puzzle
/// greeting with its id and rating; both name the side to move.
pub open spec fn spec_start_message(a: App) -> Seq<char> {
    match a.mode {
        AppMode::StandardGame => msg_new_game(turn_of(a.board)),
        AppMode::Puzzle { meta, .. } => msg_puzzle_start(meta.id@, meta.rating, turn_of(a.board)),
    }
}

/// Builds the display name of a side.
fn turn_text(c: PieceColor) -> (r: &'static str)
    ensures
        r@ == spec_turn_text(c),
{
    match c {
        PieceColor::White => "white",
        PieceColor::Black => "black",
    }
}

impl App {
    /// A fresh standard-game state over the given position.
    pub fn new_standard(board: shakmaty::Chess, display: DisplayMode) -> (r: App)
        ensures
            r.board == board,
            r.mode is StandardGame,
            r.display == display,
            r.input_buffer@ == Seq::<char>::empty(),
            r.message@ == Seq::<char>::empty(),
            app_wf(r),
    {
        let dims = display.default_cell_dimensions();
        App {
            board,
            mode: AppMode::StandardGame,
            display,
            input_buffer: Vec::new(),
            message: Vec::new(),
            cell_width: dims.0,
            cell_height: dims.1,
        }
    }

    /// A fresh puzzle state: solution cursor at the start, completed only
    /// if the solution is empty.
    pub fn new_puzzle(
        board: shakmaty::Chess,
        solution: Vec<MoveCoords>,
        display: DisplayMode,
        meta: PuzzleMeta,
    ) -> (r: App)
        requires
            forall|i: int| 0 <= i < solution@.len() ==> coords_wf(#[trigger] solution@[i]),
        ensures
            r.board == board,
            r.display == display,
            r.input_buffer@ == Seq::<char>::empty(),
            r.message@ == Seq::<char>::empty(),
            r.mode matches AppMode::Puzzle { solution: s, solution_index, completed, meta: m }
                && s == solution && solution_index == 0 && completed == (solution@.len() == 0)
                && m == meta,
            app_wf(r),
    {
        let dims = display.default_cell_dimensions();
        let done = solution.len() == 0;
        App {
            board,
            mode: AppMode::Puzzle { solution, solution_index: 0, completed: done, meta },
            display,
            input_buffer: Vec::new(),
            message: Vec::new(),
            cell_width: dims.0,
            cell_height: dims.1,
        }
    }

    /// The greeting for the current state, naming the side to move and,
    /// in puzzle mode, the puzzle's id and rating.
    pub fn start_message(&self) -> (r: Vec<char>)
        ensures
            r@ == spec_start_message(*self),
    {
        let turn = ex_turn(&self.board);
        let mut out: Vec<char> = Vec::new();
        match &self.mode {
            AppMode::StandardGame => {
                push_str_chars(&mut out, "New Game, ");
                push_str_chars(&mut out, turn_text(turn));
                push_str_chars(&mut out, " to move.");
            },
            AppMode::Puzzle { meta, .. } => {
                push_str_chars(&mut out, "Puzzle ");
                push_str_chars(&mut out, meta.id.as_str());
                push_str_chars(&mut out, ", rating: ");
                let digits = dec_chars(meta.rating);
                push_chars(&mut out, &digits);
                push_str_chars(&mut out, ", please enter moves in simplified UCI (e.g. e2e4). ");
                push_str_chars(&mut out, turn_text(turn));
                push_str_chars(&mut out, " to move.");
            },
        }
        proof {
            assert(out@ =~= spec_start_message(*self));
        }
        out
    }
}

/// The position after a submit in standard mode: if the text reads as SAN
/// and resolves to a legal move, that move is played; otherwise the
/// position stands.
pub open spec fn spec_standard_board(b: shakmaty::Chess, input: Seq<char>) -> shakmaty::Chess {
    match san_move_of(b, input) {
        Some(m) => play_of(b, m),
        None => b,
    }
}

/// The status message after a submit in standard mode: the confirmation,
/// with a game-over announcement appended when the move ends the game, or
/// the rejection report.
pub open spec fn spec_standard_msg(b: shakmaty::Chess, input: Seq<char>) -> Seq<char> {
    match san_move_of(b, input) {
        Some(m) => if is_over_of(play_of(b, m)) {
            msg_move_played(input) + " "@ + msg_game_over(outcome_of(play_of(b, m)))
        } else {
            msg_move_played(input)
        },
        None => msg_illegal(input),
    }
}

/// The display text of an outcome.
fn outcome_text(o: Option<GameOutcome>) -> (r: &'static str)
    ensures
        r@ == spec_outcome_text(o),
{
    match o {
        Some(GameOutcome::WhiteWins) => "White wins",
        Some(GameOutcome::BlackWins) => "Black wins",
        Some(GameOutcome::Draw) => "Draw",
        None => "unknown",
    }
}

/// Handles a submitted move string in standard mode: parse as SAN against
/// the current position, play it if legal, and report the result in the
/// status message. Exactly one of the two outcomes occurs.
pub fn handle_standard_move(app: &mut App, input: &Vec<char>)
    requires
        app_wf(*old(app)),
    ensures
        app_wf(*final(app)),
        final(app).mode == old(app).mode,
        final(app).display == old(app).display,
        final(app).cell_width == old(app).cell_width,
        final(app).cell_height == old(app).cell_height,
        final(app).input_buffer == old(app).input_buffer,
        final(app).board == spec_standard_board(old(app).board, input@),
        final(app).message@ == spec_standard_msg(old(app).board, input@),
{
    let parsed = ex_san_to_move(&app.board, input);
    match parsed {
        Some(mv) => {
            let played = ex_play(&app.board, &mv);
            match played {
                Some(q) => {
                    app.board = q;
                    if ex_is_game_over(&app.board) {
                        let o = ex_outcome(&app.board);
                        let mut m: Vec<char> = Vec::new();
                        push_str_chars(&mut m, "Move ");
                        push_chars(&mut m, input);
                        push_str_chars(&mut m, " played");
                        push_str_chars(&mut m, " ");
                        push_str_chars(&mut m, "Game over. ");
                        push_str_chars(&mut m, outcome_text(o));
                        proof {
                            assert(m@ =~= msg_move_played(input@) + " "@ + msg_game_over(o));
                        }
                        app.message = m;
                    } else {
                        let mut m: Vec<char> = Vec::new();
                        push_str_chars(&mut m, "Move ");
                        push_chars(&mut m, input);
                        push_str_chars(&mut m, " played");
                        proof {
                            assert(m@ =~= msg_move_played(input@));
                        }
                        app.message = m;
                    }
                },
                None => {
                    proof {
                        assert(false);
                    }
                },
            }
        },
        None => {
            let mut m: Vec<char> = Vec::new();
            push_str_chars(&mut m, "Illegal or unrecognized move: ");
            push_chars(&mut m, input);
            proof {
                assert(m@ =~= msg_illegal(input@));
            }
            app.message = m;
        },
    }
}

/// Whether the submitted text decodes to the expected move: the first
/// legal move matching the lowercased text exists and has the expected
/// coordinates.
pub open spec fn spec_guess_correct(
    b: shakmaty::Chess,
    input: Seq<char>,
    expected: MoveCoords,
) -> bool {
    match decode_index(b, spec_lower(input)) {
        Some(i) => spec_legal_coords(b)[i] == expected,
        None => false,
    }
}

/// The position after the correct user move, before any automatic reply.
pub open spec fn spec_puzzle_mid(b: shakmaty::Chess, input: Seq<char>) -> shakmaty::Chess {
    play_of(b, legal_moves_of(b)[decode_index(b, spec_lower(input))->0])
}

/// A puzzle submit fails (a rules mismatch) exactly when the user's move
/// was correct, a reply is owed, and the reply's notation resolves to no
/// legal move of the position after the user's move.
pub open spec fn spec_puzzle_err(
    b: shakmaty::Chess,
    input: Seq<char>,
    sol: Seq<MoveCoords>,
    idx: int,
) -> bool {
    &&& spec_guess_correct(b, input, sol[idx])
    &&& idx + 1 < sol.len()
    &&& decode_index(spec_puzzle_mid(b, input), spec_uci(sol[idx + 1])) is None
}

/// The position after a puzzle submit: unchanged on a wrong guess; the
/// user's move alone when it solves the puzzle (or the reply cannot be
/// resolved); the user's move and the automatic reply otherwise.
pub open spec fn spec_puzzle_board(
    b: shakmaty::Chess,
    input: Seq<char>,
    sol: Seq<MoveCoords>,
    idx: int,
) -> shakmaty::Chess {
    if spec_guess_correct(b, input, sol[idx]) {
        let mid = spec_puzzle_mid(b, input);
        if idx + 1 == sol.len() {
            mid
        } else {
            match decode_index(mid, spec_uci(sol[idx + 1])) {
                Some(j) => play_of(mid, legal_moves_of(mid)[j]),
                None => mid,
            }
        }
    } else {
        b
    }
}

/// The solution cursor after a puzzle submit: advanced past the user's
/// move and the reply, with the completed flag set exactly when the end
/// is reached; unchanged on a wrong guess.
pub open spec fn spec_puzzle_cursor(
    b: shakmaty::Chess,
    input: Seq<char>,
    sol: Seq<MoveCoords>,
    idx: int,
) -> (int, bool) {
    if spec_guess_correct(b, input, sol[idx]) {
        if idx + 1 == sol.len() {
            (idx + 1, true)
        } else {
            (idx + 2, idx + 2 == sol.len())
        }
    } else {
        (idx, false)
    }
}

/// The status message after a puzzle submit.
pub open spec fn spec_puzzle_msg(
    b: shakmaty::Chess,
    input: Seq<char>,
    sol: Seq<MoveCoords>,
    idx: int,
    old_msg: Seq<char>,
) -> Seq<char> {
    if spec_guess_correct(b, input, sol[idx]) {
        if idx + 1 == sol.len() {
            msg_solved()
        } else if decode_index(spec_puzzle_mid(b, input), spec_uci(sol[idx + 1]))
            is Some {
            msg_correct(input, spec_uci(sol[idx + 1]))
        } else {
            old_msg
        }
    } else {
        msg_incorrect(spec_uci(sol[idx]))
    }
}

/// Handles a submitted move string in puzzle mode. A correct guess is
/// played and the expected reply is played back automatically; a wrong or
/// unreadable guess changes neither position nor cursor and reports the
/// expected notation, leaving the puzzle open for another try.
pub fn handle_puzzle_move(
    board: &mut shakmaty::Chess,
    message: &mut Vec<char>,
    input: &Vec<char>,
    solution: &Vec<MoveCoords>,
    solution_index: usize,
) -> (r: Result<(usize, bool), StateError>)
    requires
        solution_index < solution@.len(),
        forall|i: int| 0 <= i < solution@.len() ==> coords_wf(#[trigger] solution@[i]),
    ensures
        r is Err <==> spec_puzzle_err(*old(board), input@, solution@, solution_index as int),
        *final(board) == spec_puzzle_board(*old(board), input@, solution@, solution_index as int),
        final(message)@ == spec_puzzle_msg(
            *old(board),
            input@,
            solution@,
            solution_index as int,
            old(message)@,
        ),
        r matches Ok(c) ==> (c.0 as int, c.1) == spec_puzzle_cursor(
            *old(board),
            input@,
            solution@,
            solution_index as int,
        ),
        r matches Ok(c) ==> c.0 <= solution@.len() && (c.1 <==> c.0 == solution@.len()),
{
    let ghost b0 = *board;
    let ghost idx = solution_index as int;
    let expected = solution[solution_index];
    let parsed = crate::engine::parse_uci_move(board, input);
    match parsed {
        Some((mv, i)) => {
            proof {
                crate::engine::lemma_decode_some(b0, spec_lower(input@), i as int);
            }
            let c = crate::engine::move_coords(&mv);
            proof {
                assert(c == spec_legal_coords(b0)[i as int]);
            }
            if c == expected {
                proof {
                    assert(legal_moves_of(b0).contains(legal_moves_of(b0)[i as int]));
                }
                let played = ex_play(board, &mv);
                match played {
                    Some(q) => {
                        *board = q;
                        proof {
                            assert(*board == spec_puzzle_mid(b0, input@));
                        }
                        let n = solution.len();
                        let new_index = solution_index + 1;
                        if new_index >= n {
                            let mut m: Vec<char> = Vec::new();
                            push_str_chars(
                                &mut m,
                                "Puzzle solved! Congratulations. Press 'n' for a new puzzle.",
                            );
                            proof {
                                assert(m@ =~= msg_solved());
                            }
                            *message = m;
                            Ok((new_index, true))
                        } else {
                            let next = solution[new_index];
                            let next_uci = crate::codec::move_to_uci(&next);
                            let found = crate::engine::find_legal_by_uci(board, &next_uci);
                            match found {
                                Some((rmv, j)) => {
                                    proof {
                                        crate::engine::lemma_decode_some(
                                            *board,
                                            next_uci@,
                                            j as int,
                                        );
                                        assert(legal_moves_of(*board).contains(
                                            legal_moves_of(*board)[j as int],
                                        ));
                                    }
                                    let played2 = ex_play(board, &rmv);
                                    match played2 {
                                        Some(q2) => {
                                            *board = q2;
                                            let mut m: Vec<char> = Vec::new();
                                            push_str_chars(&mut m, "Move ");
                                            push_chars(&mut m, input);
                                            push_str_chars(
                                                &mut m,
                                                " was correct! Opponent played: ",
                                            );
                                            push_chars(&mut m, &next_uci);
                                            proof {
                                                assert(m@ =~= msg_correct(
                                                    input@,
                                                    spec_uci(solution@[idx + 1]),
                                                ));
                                            }
                                            *message = m;
                                            Ok((new_index + 1, new_index + 1 == solution.len()))
                                        },
                                        None => {
                                            proof {
                                                assert(false);
                                            }
                                            Err(StateError::SolutionMoveUnresolved)
                                        },
                                    }
                                },
                                None => {
                                    proof {
                                        crate::engine::lemma_decode_none(*board, next_uci@);
                                    }
                                    Err(StateError::SolutionMoveUnresolved)
                                },
                            }
                        }
                    },
                    None => {
                        proof {
                            assert(false);
                        }
                        Err(StateError::SolutionMoveUnresolved)
                    },
                }
            } else {
                let mut m: Vec<char> = Vec::new();
                push_str_chars(&mut m, "Incorrect move. Expected UCI: ");
                let exp_uci = crate::codec::move_to_uci(&expected);
                push_chars(&mut m, &exp_uci);
                push_str_chars(&mut m, ".");
                proof {
                    assert(m@ =~= msg_incorrect(spec_uci(solution@[idx])));
                }
                *message = m;
                Ok((solution_index, false))
            }
        },
        None => {
            proof {
                crate::engine::lemma_decode_none(b0, spec_lower(input@));
            }
            let mut m: Vec<char> = Vec::new();
            push_str_chars(&mut m, "Incorrect move. Expected UCI: ");
            let exp_uci = crate::codec::move_to_uci(&expected);
            push_chars(&mut m, &exp_uci);
            push_str_chars(&mut m, ".");
            proof {
                assert(m@ =~= msg_incorrect(spec_uci(solution@[idx])));
            }
            *message = m;
            Ok((solution_index, false))
        },
    }
}

/// The board, mode and message of two states agree.
pub open spec fn board_mode_msg_same(pre: App, post: App) -> bool {
    &&& post.board == pre.board
    &&& post.mode == pre.mode
    &&& post.message == pre.message
}

/// The mode is a puzzle whose cursor has reached the end.
pub open spec fn puzzle_done(m: AppMode) -> bool {
    match m {
        AppMode::Puzzle { solution, solution_index, .. } => solution_index == solution@.len(),
        AppMode::StandardGame => false,
    }
}

/// The mode is a puzzle whose cursor has not reached the end.
pub open spec fn puzzle_open(m: AppMode) -> bool {
    match m {
        AppMode::Puzzle { solution, solution_index, .. } => solution_index < solution@.len(),
        AppMode::StandardGame => false,
    }
}

/// Handles one key event. Characters accumulate in the input buffer,
/// backspace removes the last one, enter submits the buffer as a move
/// (standard or puzzle handling by mode), 'q' or escape quits, and 'n'
/// starts a new standard game or asks the control loop to fetch a new
/// puzzle.
pub fn handle_key_event(app: &mut App, key: Key) -> (r: Result<KeyOutcome, StateError>)
    requires
        app_wf(*old(app)),
    ensures
        app_wf(*final(app)),
        final(app).display == old(app).display,
        final(app).cell_width == old(app).cell_width,
        final(app).cell_height == old(app).cell_height,
        (key == Key::Esc || key == Key::Char('q'))
            ==> r == Ok::<KeyOutcome, StateError>(KeyOutcome::Quit) && *final(app) == *old(app),
        key == Key::Other
            ==> r == Ok::<KeyOutcome, StateError>(KeyOutcome::Continue) && *final(app) == *old(app),
        forall|c: char|
            key == Key::Char(c) && c != 'n' && c != 'q'
                ==> r == Ok::<KeyOutcome, StateError>(KeyOutcome::Continue)
                && final(app).input_buffer@ == old(app).input_buffer@.push(c)
                && board_mode_msg_same(*old(app), *final(app)),
        key == Key::Backspace
            ==> r == Ok::<KeyOutcome, StateError>(KeyOutcome::Continue)
            && final(app).input_buffer@ == (if old(app).input_buffer@.len() > 0 {
                old(app).input_buffer@.drop_last()
            } else {
                old(app).input_buffer@
            })
            && board_mode_msg_same(*old(app), *final(app)),
        (key == Key::Char('n') && old(app).mode is StandardGame)
            ==> r == Ok::<KeyOutcome, StateError>(KeyOutcome::Continue)
            && final(app).mode == old(app).mode
            && final(app).input_buffer == old(app).input_buffer
            && final(app).message == old(app).message
            && turn_of(final(app).board) == PieceColor::White
            && (forall|sq: int|
                0 <= sq < 64 ==> #[trigger] piece_on(final(app).board, sq)
                    == crate::engine::spec_initial_square(sq)),
        (key == Key::Char('n') && old(app).mode is Puzzle)
            ==> r == Ok::<KeyOutcome, StateError>(KeyOutcome::NewPuzzleRequested)
            && *final(app) == *old(app),
        (key == Key::Enter && old(app).input_buffer@.len() == 0)
            ==> r == Ok::<KeyOutcome, StateError>(KeyOutcome::Continue) && *final(app) == *old(app),
        (key == Key::Enter && old(app).input_buffer@.len() > 0 && old(app).mode is StandardGame)
            ==> r == Ok::<KeyOutcome, StateError>(KeyOutcome::Continue)
            && final(app).mode == old(app).mode
            && final(app).input_buffer@ == Seq::<char>::empty()
            && final(app).board == spec_standard_board(
                old(app).board,
                spec_trim(old(app).input_buffer@),
            )
            && final(app).message@ == spec_standard_msg(
                old(app).board,
                spec_trim(old(app).input_buffer@),
            ),
        (key == Key::Enter && old(app).input_buffer@.len() > 0 && puzzle_done(old(app).mode))
            ==> r == Ok::<KeyOutcome, StateError>(KeyOutcome::Continue)
            && board_mode_msg_same(*old(app), *final(app))
            && final(app).input_buffer@ == Seq::<char>::empty(),
        (key == Key::Enter && old(app).input_buffer@.len() > 0 && puzzle_open(old(app).mode))
            ==> puzzle_submit_post(*old(app), *final(app), r),
{
    match key {
        Key::Char(c) => {
            if c == 'n' {
                match &app.mode {
                    AppMode::StandardGame => {
                        app.board = initial_chess();
                        Ok(KeyOutcome::Continue)
                    },
                    AppMode::Puzzle { .. } => Ok(KeyOutcome::NewPuzzleRequested),
                }
            } else if c == 'q' {
                Ok(KeyOutcome::Quit)
            } else {
                app.input_buffer.push(c);
                Ok(KeyOutcome::Continue)
            }
        },
        Key::Esc => Ok(KeyOutcome::Quit),
        Key::Enter => {
            if app.input_buffer.len() > 0 {
                let t = trim(&app.input_buffer);
                let submitted = submit_input(app, &t);
                match submitted {
                    Ok(()) => {},
                    Err(e) => {
                        return Err(e);
                    },
                }
                app.input_buffer = Vec::new();
            }
            Ok(KeyOutcome::Continue)
        },
        Key::Backspace => {
            app.input_buffer.pop();
            Ok(KeyOutcome::Continue)
        },
        Key::Other => Ok(KeyOutcome::Continue),
    }
}

/// What a non-empty submit in puzzle mode (puzzle still open) leaves
/// behind: the board, message, cursor and completed flag follow the
/// puzzle step; on a rules mismatch the submit fails and the buffer
/// stays, otherwise the buffer is cleared.
pub open spec fn puzzle_submit_post(
    pre: App,
    post: App,
    r: Result<KeyOutcome, StateError>,
) -> bool {
    match pre.mode {
        AppMode::Puzzle { solution, solution_index, completed, meta } => {
            let t = spec_trim(pre.input_buffer@);
            let idx = solution_index as int;
            let err = spec_puzzle_err(pre.board, t, solution@, idx);
            let cursor = spec_puzzle_cursor(pre.board, t, solution@, idx);
            &&& post.board == spec_puzzle_board(pre.board, t, solution@, idx)
            &&& post.message@ == spec_puzzle_msg(pre.board, t, solution@, idx, pre.message@)
            &&& (if err {
                r == Err::<KeyOutcome, StateError>(StateError::SolutionMoveUnresolved)
                    && post.mode == pre.mode && post.input_buffer == pre.input_buffer
            } else {
                &&& r == Ok::<KeyOutcome, StateError>(KeyOutcome::Continue)
                &&& post.input_buffer@ == Seq::<char>::empty()
                &&& (post.mode matches AppMode::Puzzle {
                    solution: s2,
                    solution_index: i2,
                    completed: c2,
                    meta: m2,
                } && s2 == solution && m2 == meta && (i2 as int, c2) == cursor)
            })
        },
        AppMode::StandardGame => false,
    }
}

/// Dispatches a trimmed, non-empty submitted input by mode. In a puzzle
/// whose cursor is already at the end nothing happens.
fn submit_input(app: &mut App, t: &Vec<char>) -> (r: Result<(), StateError>)
    requires
        app_wf(*old(app)),
    ensures
        app_wf(*final(app)),
        final(app).display == old(app).display,
        final(app).cell_width == old(app).cell_width,
        final(app).cell_height == old(app).cell_height,
        final(app).input_buffer == old(app).input_buffer,
        old(app).mode is StandardGame
            ==> r is Ok
            && final(app).mode == old(app).mode
            && final(app).board == spec_standard_board(old(app).board, t@)
            && final(app).message@ == spec_standard_msg(old(app).board, t@),
        puzzle_done(old(app).mode) ==> r is Ok && *final(app) == *old(app),
        puzzle_open(old(app).mode) ==> puzzle_submit_fields(*old(app), *final(app), r, t@),
{
    let is_standard = match &app.mode {
        AppMode::StandardGame => true,
        AppMode::Puzzle { .. } => false,
    };
    if is_standard {
        handle_standard_move(app, t);
        return Ok(());
    }
    let (sol_index, sol_len) = match &app.mode {
        AppMode::Puzzle { solution, solution_index, .. } => (*solution_index, solution.len()),
        AppMode::StandardGame => (0, 0),
    };
    if sol_index >= sol_len {
        return Ok(());
    }
    let stepped = match &app.mode {
        AppMode::Puzzle { solution, solution_index, .. } => {
            handle_puzzle_move(&mut app.board, &mut app.message, t, solution, *solution_index)
        },
        AppMode::StandardGame => Ok((0, false)),
    };
    match stepped {
        Ok(step) => {
            match &mut app.mode {
                AppMode::Puzzle { solution_index, completed, .. } => {
                    *solution_index = step.0;
                    *completed = step.1;
                },
                AppMode::StandardGame => {},
            }
            Ok(())
        },
        Err(e) => Err(e),
    }
}

/// Like `puzzle_submit_post`, at the level of the dispatch helper: the
/// buffer is untouched here, the caller clears it.
pub open spec fn puzzle_submit_fields(
    pre: App,
    post: App,
    r: Result<(), StateError>,
    t: Seq<char>,
) -> bool {
    match pre.mode {
        AppMode::Puzzle { solution, solution_index, completed, meta } => {
            let idx = solution_index as int;
            let err = spec_puzzle_err(pre.board, t, solution@, idx);
            let cursor = spec_puzzle_cursor(pre.board, t, solution@, idx);
            &&& post.board == spec_puzzle_board(pre.board, t, solution@, idx)
            &&& post.message@ == spec_puzzle_msg(pre.board, t, solution@, idx, pre.message@)
            &&& (if err {
                r == Err::<(), StateError>(StateError::SolutionMoveUnresolved) && post.mode
                    == pre.mode
            } else {
                &&& r == Ok::<(), StateError>(())
                &&& (post.mode matches AppMode::Puzzle {
                    solution: s2,
                    solution_index: i2,
                    completed: c2,
                    meta: m2,
                } && s2 == solution && m2 == meta && (i2 as int, c2) == cursor)
            })
        },
        AppMode::StandardGame => false,
    }
}

/// Replaces the running state with a freshly fetched puzzle: new
/// position, cursor at the start, and the puzzle greeting as the status
/// message. The input buffer is left as it is.
pub fn install_puzzle(
    app: &mut App,
    board: shakmaty::Chess,
    solution: Vec<MoveCoords>,
    meta: PuzzleMeta,
)
    requires
        app_wf(*old(app)),
        forall|i: int| 0 <= i < solution@.len() ==> coords_wf(#[trigger] solution@[i]),
    ensures
        app_wf(*final(app)),
        final(app).display == old(app).display,
        final(app).cell_width == old(app).cell_width,
        final(app).cell_height == old(app).cell_height,
        final(app).input_buffer == old(app).input_buffer,
        final(app).board == board,
        final(app).mode matches AppMode::Puzzle { solution: s, solution_index, completed, meta: m }
            && s == solution && solution_index == 0 && completed == (solution@.len() == 0) && m
            == meta,
        final(app).message@ == msg_puzzle_start(meta.id@, meta.rating, turn_of(board)),
{
    app.board = board;
    let done = solution.len() == 0;
    app.mode = AppMode::Puzzle { solution, solution_index: 0, completed: done, meta };
    let m = app.start_message();
    app.message = m;
}

/// The solution cursor after one more correct submission: two steps
/// forward, capped at the solution length.
pub open spec fn spec_advance(idx: int, n: int) -> int {
    if idx + 2 <= n {
        idx + 2
    } else {
        n
    }
}

/// One correct submission moves the cursor as `spec_advance` does, and
/// completion is reached exactly when the cursor reaches the solution
/// length.
pub proof fn lemma_cursor_is_advance(
    b: shakmaty::Chess,
    input: Seq<char>,
    sol: Seq<MoveCoords>,
    idx: int,
)
    requires
        0 <= idx < sol.len(),
        spec_guess_correct(b, input, sol[idx]),
    ensures
        spec_puzzle_cursor(b, input, sol, idx).0 == spec_advance(idx, sol.len() as int),
        spec_puzzle_cursor(b, input, sol, idx).1 <==> spec_advance(idx, sol.len() as int)
            == sol.len(),
{
}

/// The cursor after `k` correct submissions from the start.
pub open spec fn spec_progress(k: nat, n: int) -> int
    decreases k,
{
    if k == 0 {
        0
    } else {
        spec_advance(spec_progress((k - 1) as nat, n), n)
    }
}

/// Puzzle progression: after `k` consecutive correct submissions against
/// a solution of length `n`, the cursor stands at `min(2k, n)` — it never
/// passes the solution length, and the puzzle is completed exactly when
/// the cursor reaches it. Each correct submission moves the cursor as
/// `spec_advance` does: by two (user move and reply), or by one onto the
/// end when only the final user move was owed, as `spec_puzzle_cursor`
/// states.
pub proof fn lemma_puzzle_progression(k: nat, n: int)
    requires
        n >= 0,
    ensures
        spec_progress(k, n) == if 2 * k <= n {
            2 * k as int
        } else {
            n
        },
    decreases k,
{
    if k > 0 {
        lemma_puzzle_progression((k - 1) as nat, n);
    }
}

/// The solution moves a list of coordinate strings resolves to, replayed
/// from a start position: each string must name a legal move of the
/// position reached so far (first match, exact text), which is then
/// played before the next string is resolved.
pub open spec fn spec_resolve(p: shakmaty::Chess, ucis: Seq<Seq<char>>) -> Option<Seq<MoveCoords>>
    decreases ucis.len(),
{
    if ucis.len() == 0 {
        Some(Seq::<MoveCoords>::empty())
    } else {
        match decode_index(p, ucis[0]) {
            None => None,
            Some(i) => {
                let mv = legal_moves_of(p)[i];
                match spec_resolve(play_of(p, mv), ucis.drop_first()) {
                    None => None,
                    Some(rest) => Some(
                        Seq::<MoveCoords>::empty().push(crate::engine::spec_move_coords(mv)) + rest,
                    ),
                }
            },
        }
    }
}

/// Resolves a puzzle's solution strings to move coordinates by sequential
/// replay from the puzzle's start position. Fails if any string names no
/// legal move of the position it applies to.
pub fn resolve_solution(start: &shakmaty::Chess, ucis: &Vec<Vec<char>>) -> (r: Result<
    Vec<MoveCoords>,
    StateError,
>)
    ensures
        r is Ok <==> spec_resolve(*start, ucis@.map_values(|v: Vec<char>| v@)) is Some,
        r matches Ok(sol) ==> sol@ == spec_resolve(*start, ucis@.map_values(|v: Vec<char>| v@))->0,
        r matches Ok(sol) ==> sol@.len() == ucis@.len() && forall|i: int|
            0 <= i < sol@.len() ==> coords_wf(#[trigger] sol@[i]),
{
    let ghost all = ucis@.map_values(|v: Vec<char>| v@);
    let mut cur = crate::engine::ex_clone_chess(start);
    let mut acc: Vec<MoveCoords> = Vec::new();
    let mut k: usize = 0;
    proof {
        assert(all.skip(0) =~= all);
        assert(spec_resolve(*start, all) == (match spec_resolve(cur, all.skip(0)) {
            None => None::<Seq<MoveCoords>>,
            Some(rest) => Some(acc@ + rest),
        }));
    }
    while k < ucis.len()
        invariant
            k <= ucis@.len(),
            all == ucis@.map_values(|v: Vec<char>| v@),
            acc@.len() == k,
            forall|i: int| 0 <= i < acc@.len() ==> coords_wf(#[trigger] acc@[i]),
            spec_resolve(*start, all) == (match spec_resolve(cur, all.skip(k as int)) {
                None => None::<Seq<MoveCoords>>,
                Some(rest) => Some(acc@ + rest),
            }),
        decreases ucis@.len() - k,
    {
        let ghost rem = all.skip(k as int);
        proof {
            assert(rem[0] == all[k as int]);
            assert(rem.drop_first() =~= all.skip(k + 1 as int));
        }
        let found = crate::engine::find_legal_by_uci(&cur, &ucis[k]);
        match found {
            Some((mv, i)) => {
                proof {
                    crate::engine::lemma_decode_some(cur, all[k as int], i as int);
                    assert(legal_moves_of(cur).contains(legal_moves_of(cur)[i as int]));
                }
                let c = crate::engine::move_coords(&mv);
                let played = ex_play(&cur, &mv);
                match played {
                    Some(q) => {
                        let ghost prev = cur;
                        let ghost prev_acc = acc@;
                        cur = q;
                        acc.push(c);
                        proof {
                            assert(acc@ =~= prev_acc + Seq::<MoveCoords>::empty().push(c));
                            assert forall|rest: Seq<MoveCoords>| true implies prev_acc + (Seq::<
                                MoveCoords,
                            >::empty().push(c) + rest) =~= acc@ + rest by {}
                        }
                    },
                    None => {
                        proof {
                            assert(false);
                        }
                    },
                }
            },
            None => {
                proof {
                    crate::engine::lemma_decode_none(cur, all[k as int]);
                    assert(spec_resolve(cur, rem) is None);
                }
                return Err(StateError::SolutionMoveUnresolved);
            },
        }
        k = k + 1;
    }
    proof {
        assert(all.skip(ucis@.len() as int) =~= Seq::<Seq<char>>::empty());
        assert(spec_resolve(cur, Seq::<Seq<char>>::empty()) == Some(Seq::<MoveCoords>::empty()));
        assert(acc@ + Seq::<MoveCoords>::empty() =~= acc@);
    }
    Ok(acc)
}

/// One row of the rendered board for a state: the composed cells of line
/// `y`.
pub open spec fn spec_board_row(a: App, y: int) -> Seq<Cell> {
    Seq::new(
        (8 * a.cell_width + 2) as nat,
        |x: int|
            composed_cell(
                Seq::new(64, |sq: int| piece_on(a.board, sq)),
                a.display,
                a.cell_width as int,
                a.cell_height as int,
                x,
                y,
            ),
    )
}

/// Renders the current position into compressed styled lines: the board
/// is composed into the styled character buffer and each line is
/// run-length compressed for display. The result always has exactly
/// `8 * cell_height + 2` lines, and expanding any line gives exactly the
/// composed cells of that line.
#[verifier::rlimit(100)]
pub fn make_board_text(app: &App) -> (r: Vec<Vec<Run>>)
    requires
        app_wf(*app),
    ensures
        r@.len() == 8 * app.cell_height + 2,
        forall|y: int| 0 <= y < r@.len() ==> expand((#[trigger] r@[y])@) == spec_board_row(*app, y),
        forall|y: int| 0 <= y < r@.len() ==> (#[trigger] r@[y])@.len() > 0,
        forall|y: int, i: int|
            0 <= y < r@.len() && 0 <= i < r@[y]@.len() ==> (#[trigger] r@[y]@[i]).text@.len() > 0,
        forall|y: int, i: int|
            0 <= y < r@.len() && 0 <= i < r@[y]@.len() - 1 ==> (#[trigger] r@[y]@[i]).style
                != r@[y]@[i + 1].style,
{
    let grid = board_grid(&app.board);
    proof {
        assert(grid@ =~= Seq::new(64, |sq: int| piece_on(app.board, sq)));
        assert(dims_ok(app.cell_width as int, app.cell_height as int));
    }
    let buffer = compose(&grid, app.display, app.cell_width, app.cell_height);
    proof {
        assert forall|yy: int| 0 <= yy < buffer@.len() implies (#[trigger] buffer@[yy])@
            == spec_board_row(*app, yy) by {
            assert forall|x: int|
                0 <= x < 8 * app.cell_width + 2 implies buffer@[yy]@[x] == spec_board_row(
                *app,
                yy,
            )[x] by {
                assert(crate::compose::bufcell(buffer@, x, yy) == composed_cell(
                    grid@,
                    app.display,
                    app.cell_width as int,
                    app.cell_height as int,
                    x,
                    yy,
                ));
            }
            assert(buffer@[yy]@ =~= spec_board_row(*app, yy));
        }
    }
    let mut lines: Vec<Vec<Run>> = Vec::new();
    let mut y: usize = 0;
    while y < buffer.len()
        invariant
            buffer@.len() == 8 * app.cell_height + 2,
            8 * app.cell_width + 2 >= 1,
            forall|yy: int|
                0 <= yy < buffer@.len() ==> (#[trigger] buffer@[yy])@ == spec_board_row(*app, yy),
            y <= buffer@.len(),
            lines@.len() == y,
            forall|yy: int|
                0 <= yy < y ==> expand((#[trigger] lines@[yy])@) == spec_board_row(*app, yy),
            forall|yy: int| 0 <= yy < y ==> (#[trigger] lines@[yy])@.len() > 0,
            forall|yy: int, i: int|
                0 <= yy < y && 0 <= i < lines@[yy]@.len() ==> (#[trigger] lines@[yy]@[i]).text@.len()
                    > 0,
            forall|yy: int, i: int|
                0 <= yy < y && 0 <= i < lines@[yy]@.len() - 1 ==> (#[trigger] lines@[yy]@[i]).style
                    != lines@[yy]@[i + 1].style,
        decreases buffer@.len() - y,
    {
        let row = &buffer[y];
        proof {
            assert(row@ == spec_board_row(*app, y as int));
            assert(spec_board_row(*app, y as int).len() == 8 * app.cell_width + 2);
        }
        let packed = compress(row);
        lines.push(packed);
        y = y + 1;
    }
    lines
}

} // verus!
