use chess_tui::glyph::DisplayMode;
use chess_tui::state::{
    handle_key_event, install_puzzle, make_board_text, resolve_solution, App, AppMode, Key,
    KeyOutcome, PuzzleMeta, StateError,
};
use shakmaty::{Position, Square};

fn msg(app: &App) -> String {
    app.message.iter().collect()
}

fn type_and_submit(app: &mut App, text: &str) -> Result<KeyOutcome, StateError> {
    for c in text.chars() {
        handle_key_event(app, Key::Char(c)).unwrap();
    }
    handle_key_event(app, Key::Enter)
}

fn meta() -> PuzzleMeta {
    PuzzleMeta {
        id: "abc12".to_string(),
        rating: 1500,
        initial_ply: 0,
        pgn: String::new(),
    }
}

fn chars_vec(s: &str) -> Vec<char> {
    s.chars().collect()
}

fn initial_puzzle(ucis: &[&str]) -> App {
    let board = shakmaty::Chess::default();
    let strings: Vec<Vec<char>> = ucis.iter().map(|s| chars_vec(s)).collect();
    let solution = resolve_solution(&board, &strings).unwrap();
    App::new_puzzle(board, solution, DisplayMode::Simple, meta())
}

#[test]
fn standard_submit_plays_pawn_advance() {
    let mut app = App::new_standard(shakmaty::Chess::default(), DisplayMode::Simple);
    let r = type_and_submit(&mut app, "e4");
    assert_eq!(r, Ok(KeyOutcome::Continue));
    assert_eq!(msg(&app), "Move e4 played");
    assert!(app.input_buffer.is_empty());
    let piece = app.board.board().piece_at(Square::E4).unwrap();
    assert_eq!(piece.role, shakmaty::Role::Pawn);
    assert_eq!(piece.color, shakmaty::Color::White);
    assert!(app.board.board().piece_at(Square::E2).is_none());
}

#[test]
fn standard_submit_rejects_garbage() {
    let mut app = App::new_standard(shakmaty::Chess::default(), DisplayMode::Simple);
    let r = type_and_submit(&mut app, "zz9");
    assert_eq!(r, Ok(KeyOutcome::Continue));
    assert_eq!(msg(&app), "Illegal or unrecognized move: zz9");
    assert_eq!(app.board, shakmaty::Chess::default());
    assert!(app.input_buffer.is_empty());
}

#[test]
fn standard_submit_rejects_illegal_move() {
    let mut app = App::new_standard(shakmaty::Chess::default(), DisplayMode::Simple);
    type_and_submit(&mut app, "Qh5").unwrap();
    assert_eq!(msg(&app), "Illegal or unrecognized move: Qh5");
    assert_eq!(app.board, shakmaty::Chess::default());
}

#[test]
fn standard_game_over_is_announced() {
    let mut app = App::new_standard(shakmaty::Chess::default(), DisplayMode::Simple);
    for m in ["f3", "e5", "g4", "Qh4"] {
        type_and_submit(&mut app, m).unwrap();
    }
    assert_eq!(msg(&app), "Move Qh4 played Game over. Black wins");
    assert!(app.board.is_game_over());
}

#[test]
fn puzzle_correct_move_plays_reply_and_completes() {
    let mut app = initial_puzzle(&["e2e4", "e7e5"]);
    let r = type_and_submit(&mut app, "e2e4");
    assert_eq!(r, Ok(KeyOutcome::Continue));
    match &app.mode {
        AppMode::Puzzle { solution_index, completed, .. } => {
            assert_eq!(*solution_index, 2);
            assert!(*completed);
        },
        _ => panic!("expected puzzle mode"),
    }
    assert_eq!(msg(&app), "Move e2e4 was correct! Opponent played: e7e5");
    // both moves applied
    assert!(app.board.board().piece_at(Square::E4).is_some());
    assert!(app.board.board().piece_at(Square::E5).is_some());
    assert!(app.input_buffer.is_empty());
}

#[test]
fn puzzle_wrong_move_leaves_state_and_reports_expected() {
    let mut app = initial_puzzle(&["e2e4", "e7e5"]);
    let before = app.board.clone();
    let r = type_and_submit(&mut app, "d2d4");
    assert_eq!(r, Ok(KeyOutcome::Continue));
    match &app.mode {
        AppMode::Puzzle { solution_index, completed, .. } => {
            assert_eq!(*solution_index, 0);
            assert!(!*completed);
        },
        _ => panic!("expected puzzle mode"),
    }
    assert_eq!(msg(&app), "Incorrect move. Expected UCI: e2e4.");
    assert_eq!(app.board, before);
}

#[test]
fn puzzle_allows_retry_after_wrong_guess() {
    let mut app = initial_puzzle(&["e2e4", "e7e5"]);
    type_and_submit(&mut app, "d2d4").unwrap();
    let r = type_and_submit(&mut app, "e2e4");
    assert_eq!(r, Ok(KeyOutcome::Continue));
    match &app.mode {
        AppMode::Puzzle { solution_index, completed, .. } => {
            assert_eq!(*solution_index, 2);
            assert!(*completed);
        },
        _ => panic!("expected puzzle mode"),
    }
}

#[test]
fn puzzle_final_user_move_solves() {
    let mut app = initial_puzzle(&["g1f3"]);
    type_and_submit(&mut app, "G1F3").unwrap();
    match &app.mode {
        AppMode::Puzzle { solution_index, completed, .. } => {
            assert_eq!(*solution_index, 1);
            assert!(*completed);
        },
        _ => panic!("expected puzzle mode"),
    }
    assert_eq!(msg(&app), "Puzzle solved! Congratulations. Press 'n' for a new puzzle.");
}

#[test]
fn puzzle_submit_after_completion_is_a_no_op() {
    let mut app = initial_puzzle(&["g1f3"]);
    type_and_submit(&mut app, "g1f3").unwrap();
    let before = app.board.clone();
    let solved = msg(&app);
    let r = type_and_submit(&mut app, "b1c3");
    assert_eq!(r, Ok(KeyOutcome::Continue));
    assert_eq!(app.board, before);
    assert_eq!(msg(&app), solved);
    assert!(app.input_buffer.is_empty());
}

#[test]
fn resolve_solution_fails_on_illegal_entry() {
    let board = shakmaty::Chess::default();
    let strings = vec![chars_vec("e2e5")];
    assert_eq!(resolve_solution(&board, &strings), Err(StateError::SolutionMoveUnresolved));
}

#[test]
fn resolve_solution_replays_in_sequence() {
    let board = shakmaty::Chess::default();
    let strings = vec![chars_vec("e2e4"), chars_vec("e7e5"), chars_vec("g1f3")];
    let sol = resolve_solution(&board, &strings).unwrap();
    assert_eq!(sol.len(), 3);
    assert_eq!(sol[0].from, Some(12));
    assert_eq!(sol[0].to, 28);
    // e7 = 52, e5 = 36
    assert_eq!(sol[1].from, Some(52));
    assert_eq!(sol[1].to, 36);
}

#[test]
fn input_buffer_editing() {
    let mut app = App::new_standard(shakmaty::Chess::default(), DisplayMode::Simple);
    handle_key_event(&mut app, Key::Char('e')).unwrap();
    handle_key_event(&mut app, Key::Char('5')).unwrap();
    assert_eq!(app.input_buffer, vec!['e', '5']);
    handle_key_event(&mut app, Key::Backspace).unwrap();
    assert_eq!(app.input_buffer, vec!['e']);
    handle_key_event(&mut app, Key::Backspace).unwrap();
    handle_key_event(&mut app, Key::Backspace).unwrap();
    assert!(app.input_buffer.is_empty());
}

#[test]
fn quit_keys() {
    let mut app = App::new_standard(shakmaty::Chess::default(), DisplayMode::Simple);
    assert_eq!(handle_key_event(&mut app, Key::Esc), Ok(KeyOutcome::Quit));
    assert_eq!(handle_key_event(&mut app, Key::Char('q')), Ok(KeyOutcome::Quit));
}

#[test]
fn new_game_key_resets_standard_board() {
    let mut app = App::new_standard(shakmaty::Chess::default(), DisplayMode::Simple);
    type_and_submit(&mut app, "e4").unwrap();
    assert_ne!(app.board, shakmaty::Chess::default());
    assert_eq!(handle_key_event(&mut app, Key::Char('n')), Ok(KeyOutcome::Continue));
    assert_eq!(app.board, shakmaty::Chess::default());
}

#[test]
fn new_puzzle_key_requests_fetch() {
    let mut app = initial_puzzle(&["e2e4", "e7e5"]);
    assert_eq!(handle_key_event(&mut app, Key::Char('n')), Ok(KeyOutcome::NewPuzzleRequested));
}

#[test]
fn start_messages() {
    let app = App::new_standard(shakmaty::Chess::default(), DisplayMode::Simple);
    let s: String = app.start_message().iter().collect();
    assert_eq!(s, "New Game, white to move.");
    let pz = initial_puzzle(&["e2e4"]);
    let s2: String = pz.start_message().iter().collect();
    assert_eq!(
        s2,
        "Puzzle abc12, rating: 1500, please enter moves in simplified UCI (e.g. e2e4). white to move."
    );
}

#[test]
fn install_puzzle_replaces_state() {
    let mut app = App::new_standard(shakmaty::Chess::default(), DisplayMode::Simple);
    let board = shakmaty::Chess::default();
    let strings = vec![chars_vec("e2e4")];
    let solution = resolve_solution(&board, &strings).unwrap();
    install_puzzle(&mut app, board, solution, meta());
    match &app.mode {
        AppMode::Puzzle { solution_index, completed, meta, .. } => {
            assert_eq!(*solution_index, 0);
            assert!(!*completed);
            assert_eq!(meta.id, "abc12");
        },
        _ => panic!("expected puzzle mode"),
    }
    assert!(msg(&app).starts_with("Puzzle abc12, rating: 1500"));
}

#[test]
fn trimmed_input_is_accepted() {
    let mut app = App::new_standard(shakmaty::Chess::default(), DisplayMode::Simple);
    type_and_submit(&mut app, "  e4  ").unwrap();
    assert_eq!(msg(&app), "Move e4 played");
}

#[test]
fn board_text_has_fixed_line_count() {
    let app = App::new_standard(shakmaty::Chess::default(), DisplayMode::Simple);
    let lines = make_board_text(&app);
    assert_eq!(lines.len(), 8 * app.cell_height + 2);
    for line in &lines {
        let total: usize = line.iter().map(|r| r.text.len()).sum();
        assert_eq!(total, 8 * app.cell_width + 2);
        // the run list is minimal: no empty runs, no adjacent equal styles
        assert!(!line.is_empty());
        for r in line {
            assert!(!r.text.is_empty());
        }
        for w in line.windows(2) {
            assert_ne!(w[0].style, w[1].style);
        }
    }
    let big = App::new_standard(shakmaty::Chess::default(), DisplayMode::Big);
    let lines2 = make_board_text(&big);
    assert_eq!(lines2.len(), 8 * 3 + 2);
}

#[test]
fn board_text_shows_rank_label() {
    let app = App::new_standard(shakmaty::Chess::default(), DisplayMode::Simple);
    let lines = make_board_text(&app);
    // line 1 starts with the rank label '8'
    let first_run_text: String = lines[1][0].text.iter().collect();
    assert!(first_run_text.starts_with('8'));
}
