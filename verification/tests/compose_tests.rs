use chess_tui::compose::compose;
use chess_tui::engine::board_grid;
use chess_tui::glyph::{BoardPiece, DisplayMode, PieceColor, Role};
use chess_tui::style::Hue;

fn empty_board() -> Vec<Option<BoardPiece>> {
    vec![None; 64]
}

#[test]
fn dimensions_simple_defaults() {
    let buf = compose(&empty_board(), DisplayMode::Simple, 2, 1);
    assert_eq!(buf.len(), 8 * 1 + 2);
    for row in &buf {
        assert_eq!(row.len(), 8 * 2 + 2);
    }
}

#[test]
fn dimensions_big_defaults() {
    let buf = compose(&empty_board(), DisplayMode::Big, 5, 3);
    assert_eq!(buf.len(), 8 * 3 + 2);
    for row in &buf {
        assert_eq!(row.len(), 8 * 5 + 2);
    }
}

#[test]
fn dimensions_degenerate_one_by_one() {
    for mode in [DisplayMode::Simple, DisplayMode::Big] {
        let buf = compose(&empty_board(), mode, 1, 1);
        assert_eq!(buf.len(), 10);
        for row in &buf {
            assert_eq!(row.len(), 10);
        }
    }
}

#[test]
fn labels_sit_on_the_border() {
    let buf = compose(&empty_board(), DisplayMode::Simple, 2, 1);
    // rank labels in column 0: line (row + 1) * 1 carries '8' - row
    assert_eq!(buf[1][0].ch, '8');
    assert_eq!(buf[8][0].ch, '1');
    // file labels on the bottom line at (col + 1) * 2
    assert_eq!(buf[9][2].ch, 'A');
    assert_eq!(buf[9][16].ch, 'H');
    // a label replaces only the character; the border style stays default
    assert_eq!(buf[9][2].style.bg, Hue::Reset);
}

#[test]
fn squares_alternate_colors() {
    let buf = compose(&empty_board(), DisplayMode::Simple, 2, 1);
    // square (0,0) is light (yellow), square (0,1) dark (magenta)
    assert_eq!(buf[1][1].style.bg, Hue::Yellow);
    assert_eq!(buf[1][3].style.bg, Hue::Magenta);
    assert_eq!(buf[2][1].style.bg, Hue::Magenta);
}

#[test]
fn simple_glyph_and_piece_style() {
    let mut board = empty_board();
    // white rook on a1: square index 0; display row 7, col 0
    board[0] = Some(BoardPiece { color: PieceColor::White, role: Role::Rook });
    let buf = compose(&board, DisplayMode::Simple, 2, 1);
    let cell = buf[8][1];
    assert_eq!(cell.ch, '♖');
    assert_eq!(cell.style.fg, Hue::White);
    // black piece gets a black foreground over the square color
    let mut board2 = empty_board();
    board2[63] = Some(BoardPiece { color: PieceColor::Black, role: Role::Queen });
    let buf2 = compose(&board2, DisplayMode::Simple, 2, 1);
    let cell2 = buf2[1][15];
    assert_eq!(cell2.ch, '♕');
    assert_eq!(cell2.style.fg, Hue::Black);
}

#[test]
fn big_glyph_centered_in_cell() {
    let mut board = empty_board();
    // white rook on a8: square 56; display row 0, col 0; cell at (1,1), 5x3
    board[56] = Some(BoardPiece { color: PieceColor::White, role: Role::Rook });
    let buf = compose(&board, DisplayMode::Big, 5, 3);
    // shape "[R]" is 3 wide; offset (5-3)/2 = 1, so it starts at x = 2
    let line: String = (2..5).map(|x| buf[1][x].ch).collect();
    assert_eq!(line, "[R]");
    let line2: String = (2..5).map(|x| buf[2][x].ch).collect();
    assert_eq!(line2, "[R]");
}

#[test]
fn initial_position_grid_matches_engine() {
    let chess = shakmaty::Chess::default();
    let grid = board_grid(&chess);
    assert_eq!(grid.len(), 64);
    // e2 (square 12) holds a white pawn, e7 (square 52) a black pawn
    assert_eq!(grid[12], Some(BoardPiece { color: PieceColor::White, role: Role::Pawn }));
    assert_eq!(grid[52], Some(BoardPiece { color: PieceColor::Black, role: Role::Pawn }));
    // d1 (square 3) white queen, e8 (square 60) black king
    assert_eq!(grid[3], Some(BoardPiece { color: PieceColor::White, role: Role::Queen }));
    assert_eq!(grid[60], Some(BoardPiece { color: PieceColor::Black, role: Role::King }));
    assert_eq!(grid[35], None);
}
