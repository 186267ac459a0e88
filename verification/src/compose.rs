//! The board compositor: renders a 64-square board snapshot into a styled
//! character buffer with alternating square colors, piece glyphs, and
//! rank/file labels on the border.
use vstd::prelude::*;

use crate::glyph::{
    spec_has_shape, spec_piece_char, spec_piece_unicode, spec_shape_line, shape_lines, piece_char,
    piece_unicode, BoardPiece, DisplayMode, PieceColor,
};
use crate::style::{blank_cell, spec_cell, Cell, Hue, Style};

verus! {

/// A board snapshot holds one entry per square, square index
/// `file + 8 * rank`.
pub open spec fn board_wf(b: Seq<Option<BoardPiece>>) -> bool {
    b.len() == 64
}

/// Cell geometry the compositor accepts: positive, and small enough that
/// all buffer coordinates fit comfortably in `usize`.
pub open spec fn dims_ok(cw: int, ch: int) -> bool {
    1 <= cw <= 4096 && 1 <= ch <= 4096
}

/// The cell of buffer `b` at column `x` of line `y`.
pub open spec fn bufcell(b: Seq<Vec<Cell>>, x: int, y: int) -> Cell {
    b[y]@[x]
}

/// A well-formed buffer: `h` lines of `w` cells each.
pub open spec fn buf_wf(b: Seq<Vec<Cell>>, w: int, h: int) -> bool {
    b.len() == h && forall|y: int| 0 <= y < h ==> (#[trigger] b[y])@.len() == w
}

/// The background style of the display square at `row`, `col` (row 0 is
/// the top): light squares yellow, dark squares magenta.
pub open spec fn spec_square_style(row: int, col: int) -> Style {
    if (row + col) % 2 == 0 {
        Style { fg: Hue::White, bg: Hue::Yellow }
    } else {
        Style { fg: Hue::White, bg: Hue::Magenta }
    }
}

/// The style a piece is drawn in: its side as the foreground over the
/// square's background.
pub open spec fn spec_piece_style(c: PieceColor, sq: Style) -> Style {
    Style {
        fg: match c {
            PieceColor::White => Hue::White,
            PieceColor::Black => Hue::Black,
        },
        bg: sq.bg,
    }
}

/// The piece on the display square at `row`, `col`: display row 0 is rank
/// 8, display column 0 is file a.
pub open spec fn piece_at_display(b: Seq<Option<BoardPiece>>, row: int, col: int) -> Option<
    BoardPiece,
> {
    b[(7 - row) * 8 + col]
}

/// The width of a piece shape: the longest of its three lines.
pub open spec fn spec_shape_width(sym: char) -> int {
    let a = spec_shape_line(sym, 0).len() as int;
    let b = spec_shape_line(sym, 1).len() as int;
    let c = spec_shape_line(sym, 2).len() as int;
    if a >= b && a >= c {
        a
    } else if b >= c {
        b
    } else {
        c
    }
}

/// Horizontal centering offset of a shape in a cell of width `cw`.
pub open spec fn spec_off_x(cw: int, sym: char) -> int {
    if cw >= spec_shape_width(sym) {
        (cw - spec_shape_width(sym)) / 2
    } else {
        0
    }
}

/// Vertical centering offset of a shape (3 lines high) in a cell of
/// height `ch`.
pub open spec fn spec_off_y(ch: int) -> int {
    if ch >= 3 {
        (ch - 3) / 2
    } else {
        0
    }
}

/// Whether the square at `row`, `col` covers buffer position `x`, `y`
/// with its background fill.
pub open spec fn bg_covers(cw: int, ch: int, row: int, col: int, x: int, y: int) -> bool {
    col * cw + 1 <= x < col * cw + 1 + cw && row * ch + 1 <= y < row * ch + 1 + ch
}

/// Whether the expanded shape of `sym`, anchored in the square at `row`,
/// `col`, puts a character at buffer position `x`, `y`.
pub open spec fn big_covers(
    cw: int,
    ch: int,
    row: int,
    col: int,
    sym: char,
    x: int,
    y: int,
) -> bool {
    let sy = y - (row * ch + 1 + spec_off_y(ch));
    let k = x - (col * cw + 1 + spec_off_x(cw, sym));
    0 <= sy < 3 && 0 <= k < spec_shape_line(sym, sy).len()
}

/// The shape character that `sym`, anchored in the square at `row`,
/// `col`, puts at buffer position `x`, `y`.
pub open spec fn big_char(cw: int, ch: int, row: int, col: int, sym: char, x: int, y: int) -> char {
    let sy = y - (row * ch + 1 + spec_off_y(ch));
    let k = x - (col * cw + 1 + spec_off_x(cw, sym));
    spec_shape_line(sym, sy)[k]
}

/// What drawing square number `s` (0 to 63, row-major from the top) writes
/// at buffer position `x`, `y`: its piece glyph where one lands there,
/// else its background fill where it covers, else nothing.
pub open spec fn square_write(
    b: Seq<Option<BoardPiece>>,
    dm: DisplayMode,
    cw: int,
    ch: int,
    s: int,
    x: int,
    y: int,
) -> Option<Cell> {
    let row = s / 8;
    let col = s % 8;
    let st = spec_square_style(row, col);
    let glyph: Option<Cell> = match piece_at_display(b, row, col) {
        Some(p) => {
            let ps = spec_piece_style(p.color, st);
            match dm {
                DisplayMode::Simple => if x == col * cw + 1 && y == row * ch + 1 {
                    Some(spec_cell(spec_piece_unicode(p), ps))
                } else {
                    None
                },
                DisplayMode::Big => {
                    let sym = spec_piece_char(p);
                    if big_covers(cw, ch, row, col, sym, x, y) {
                        Some(spec_cell(big_char(cw, ch, row, col, sym, x, y), ps))
                    } else {
                        None
                    }
                },
            }
        },
        None => None,
    };
    match glyph {
        Some(c) => Some(c),
        None => if bg_covers(cw, ch, row, col, x, y) {
            Some(spec_cell(' ', st))
        } else {
            None
        },
    }
}

/// The buffer cell at `x`, `y` after the first `s` squares have been
/// drawn, in order, over a blank buffer: the latest write wins.
pub open spec fn cell_upto(
    b: Seq<Option<BoardPiece>>,
    dm: DisplayMode,
    cw: int,
    ch: int,
    s: int,
    x: int,
    y: int,
) -> Cell
    decreases s,
{
    if s <= 0 {
        blank_cell()
    } else {
        match square_write(b, dm, cw, ch, s - 1, x, y) {
            Some(c) => c,
            None => cell_upto(b, dm, cw, ch, s - 1, x, y),
        }
    }
}

/// The digit character of a rank label: display row 0 carries rank 8.
pub open spec fn spec_rank_char(row: int) -> char {
    if row == 0 {
        '8'
    } else if row == 1 {
        '7'
    } else if row == 2 {
        '6'
    } else if row == 3 {
        '5'
    } else if row == 4 {
        '4'
    } else if row == 5 {
        '3'
    } else if row == 6 {
        '2'
    } else {
        '1'
    }
}

/// The letter of a file label: display column 0 carries file A.
pub open spec fn spec_file_char(col: int) -> char {
    if col == 0 {
        'A'
    } else if col == 1 {
        'B'
    } else if col == 2 {
        'C'
    } else if col == 3 {
        'D'
    } else if col == 4 {
        'E'
    } else if col == 5 {
        'F'
    } else if col == 6 {
        'G'
    } else {
        'H'
    }
}

/// The rank label character on buffer line `y`, if one sits there: line
/// `(row + 1) * ch` carries the label of display row `row`.
pub open spec fn spec_rank_label(ch: int, y: int) -> Option<char> {
    if y % ch == 0 && 1 <= y / ch <= 8 {
        Some(spec_rank_char(y / ch - 1))
    } else {
        None
    }
}

/// The file label character in buffer column `x`, if one sits there:
/// column `(col + 1) * cw` carries the label of display column `col`.
pub open spec fn spec_file_label(cw: int, x: int) -> Option<char> {
    if x % cw == 0 && 1 <= x / cw <= 8 {
        Some(spec_file_char(x / cw - 1))
    } else {
        None
    }
}

/// The finished buffer cell at `x`, `y`: all 64 squares drawn, then the
/// rank labels in column 0 and the file labels on the bottom line laid
/// over them. A label replaces only the character; the style of the cell
/// underneath stays.
pub open spec fn composed_cell(
    b: Seq<Option<BoardPiece>>,
    dm: DisplayMode,
    cw: int,
    ch: int,
    x: int,
    y: int,
) -> Cell {
    let raw = cell_upto(b, dm, cw, ch, 64, x, y);
    if x == 0 && spec_rank_label(ch, y) is Some {
        spec_cell(spec_rank_label(ch, y)->0, raw.style)
    } else if y == 8 * ch + 1 && spec_file_label(cw, x) is Some {
        spec_cell(spec_file_label(cw, x)->0, raw.style)
    } else {
        raw
    }
}

/// Writes one cell of the buffer.
fn set_cell(buf: &mut Vec<Vec<Cell>>, x: usize, y: usize, c: Cell)
    requires
        y < old(buf)@.len(),
        x < old(buf)@[y as int]@.len(),
    ensures
        final(buf)@.len() == old(buf)@.len(),
        forall|r: int| 0 <= r < old(buf)@.len() && r != y ==> final(buf)@[r] == old(buf)@[r],
        final(buf)@[y as int]@ == old(buf)@[y as int]@.update(x as int, c),
{
    let line = &mut buf[y];
    line[x] = c;
}

/// A fresh buffer of `h` blank lines of `w` cells each.
fn make_buffer(w: usize, h: usize) -> (r: Vec<Vec<Cell>>)
    ensures
        buf_wf(r@, w as int, h as int),
        forall|x: int, y: int|
            0 <= y < h && 0 <= x < w ==> #[trigger] bufcell(r@, x, y) == blank_cell(),
{
    let mut buf: Vec<Vec<Cell>> = Vec::new();
    let mut y: usize = 0;
    while y < h
        invariant
            y <= h,
            buf@.len() == y,
            forall|r: int| 0 <= r < y ==> (#[trigger] buf@[r])@.len() == w,
            forall|x: int, r: int|
                0 <= r < y && 0 <= x < w ==> #[trigger] bufcell(buf@, x, r) == blank_cell(),
        decreases h - y,
    {
        let mut line: Vec<Cell> = Vec::new();
        let mut x: usize = 0;
        while x < w
            invariant
                x <= w,
                line@.len() == x,
                forall|i: int| 0 <= i < x ==> line@[i] == blank_cell(),
            decreases w - x,
        {
            line.push(Cell { ch: ' ', style: Style { fg: Hue::Reset, bg: Hue::Reset } });
            x = x + 1;
        }
        let ghost prev = buf@;
        buf.push(line);
        proof {
            assert forall|x: int, r: int|
                0 <= r < y + 1 && 0 <= x < w implies #[trigger] bufcell(buf@, x, r)
                == blank_cell() by {
                if r < y {
                    assert(buf@[r] == prev[r]);
                    assert(bufcell(prev, x, r) == blank_cell());
                } else {
                    assert(buf@[r] == line);
                }
            }
        }
        y = y + 1;
    }
    buf
}

/// Fills the rectangle of width `w0` and height `h0` whose top left corner
/// is `x0`, `y0` with copies of one cell.
fn fill_rect(buf: &mut Vec<Vec<Cell>>, w: usize, h: usize, x0: usize, y0: usize, w0: usize, h0: usize, c: Cell)
    requires
        buf_wf(old(buf)@, w as int, h as int),
        x0 + w0 <= w,
        y0 + h0 <= h,
    ensures
        buf_wf(final(buf)@, w as int, h as int),
        forall|x: int, y: int|
            0 <= y < h && 0 <= x < w ==> #[trigger] bufcell(final(buf)@, x, y) == (if x0 <= x < x0
                + w0 && y0 <= y < y0 + h0 {
                c
            } else {
                bufcell(old(buf)@, x, y)
            }),
{
    let mut dy: usize = 0;
    while dy < h0
        invariant
            dy <= h0,
            x0 + w0 <= w,
            y0 + h0 <= h,
            buf_wf(buf@, w as int, h as int),
            forall|x: int, y: int|
                0 <= y < h && 0 <= x < w ==> #[trigger] bufcell(buf@, x, y) == (if x0 <= x < x0
                    + w0 && y0 <= y < y0 + dy {
                    c
                } else {
                    bufcell(old(buf)@, x, y)
                }),
        decreases h0 - dy,
    {
        let mut dx: usize = 0;
        while dx < w0
            invariant
                dx <= w0,
                dy < h0,
                x0 + w0 <= w,
                y0 + h0 <= h,
                buf_wf(buf@, w as int, h as int),
                forall|x: int, y: int|
                    0 <= y < h && 0 <= x < w ==> #[trigger] bufcell(buf@, x, y) == (if (x0 <= x < x0
                        + w0 && y0 <= y < y0 + dy) || (x0 <= x < x0 + dx && y == y0 + dy) {
                        c
                    } else {
                        bufcell(old(buf)@, x, y)
                    }),
            decreases w0 - dx,
        {
            let ghost prev = buf@;
            set_cell(buf, x0 + dx, y0 + dy, c);
            proof {
                assert forall|x: int, y: int|
                    0 <= y < h && 0 <= x < w implies #[trigger] bufcell(buf@, x, y) == (if (x0 <= x
                    < x0 + w0 && y0 <= y < y0 + dy) || (x0 <= x < x0 + dx + 1 && y == y0 + dy) {
                    c
                } else {
                    bufcell(old(buf)@, x, y)
                }) by {
                    assert(bufcell(prev, x, y) == (if (x0 <= x < x0 + w0 && y0 <= y < y0 + dy) || (
                    x0 <= x < x0 + dx && y == y0 + dy) {
                        c
                    } else {
                        bufcell(old(buf)@, x, y)
                    }));
                    if y == y0 + dy {
                        assert(buf@[y]@ == prev[y]@.update(x0 + dx as int, c));
                    } else {
                        assert(buf@[y] == prev[y]);
                    }
                }
            }
            dx = dx + 1;
        }
        dy = dy + 1;
    }
}

/// Every shape line is 1 to 4 characters long.
pub proof fn lemma_shape_dims(sym: char)
    requires
        spec_has_shape(sym),
    ensures
        forall|i: int| 0 <= i < 3 ==> 1 <= (#[trigger] spec_shape_line(sym, i)).len() <= 4,
        1 <= spec_shape_width(sym) <= 4,
{
    reveal_strlit(" ^ ");
    reveal_strlit("(P)");
    reveal_strlit("/_\\");
    reveal_strlit(" __");
    reveal_strlit("/ N");
    reveal_strlit("\\_/");
    reveal_strlit("  ^");
    reveal_strlit(" /B\\");
    reveal_strlit(" \\_/");
    reveal_strlit("[R]");
    reveal_strlit(" Q ");
    reveal_strlit("( )");
    reveal_strlit(" \\|");
    reveal_strlit(" K ");
    reveal_strlit("(. )");
    reveal_strlit(" | ");
    reveal_strlit("(p)");
    reveal_strlit("/ n");
    reveal_strlit(" /b\\");
    reveal_strlit("[r]");
    reveal_strlit(" q ");
    reveal_strlit(" k ");
}

/// The part of a shape already drawn: lines before `sy_done`, and the
/// first `k_done` characters of line `sy_done`.
pub open spec fn big_covers_upto(
    cw: int,
    ch: int,
    row: int,
    col: int,
    sym: char,
    sy_done: int,
    k_done: int,
    x: int,
    y: int,
) -> bool {
    let sy = y - (row * ch + 1 + spec_off_y(ch));
    let k = x - (col * cw + 1 + spec_off_x(cw, sym));
    0 <= sy < 3 && 0 <= k < spec_shape_line(sym, sy).len() && (sy < sy_done || (sy == sy_done && k
        < k_done))
}

/// Writes the single compact glyph of a piece at `x0`, `y0`.
fn draw_simple(buf: &mut Vec<Vec<Cell>>, w: usize, h: usize, x0: usize, y0: usize, c: Cell)
    requires
        buf_wf(old(buf)@, w as int, h as int),
        x0 < w,
        y0 < h,
    ensures
        buf_wf(final(buf)@, w as int, h as int),
        forall|x: int, y: int|
            0 <= y < h && 0 <= x < w ==> #[trigger] bufcell(final(buf)@, x, y) == (if x == x0 && y
                == y0 {
                c
            } else {
                bufcell(old(buf)@, x, y)
            }),
{
    let ghost prev = buf@;
    set_cell(buf, x0, y0, c);
    proof {
        assert forall|x: int, y: int|
            0 <= y < h && 0 <= x < w implies #[trigger] bufcell(buf@, x, y) == (if x == x0 && y
            == y0 {
            c
        } else {
            bufcell(prev, x, y)
        }) by {
            if y == y0 {
                assert(buf@[y]@ == prev[y]@.update(x0 as int, c));
            } else {
                assert(buf@[y] == prev[y]);
            }
        }
    }
}

/// Draws the expanded three-line shape of the piece symbol `sym`, centered
/// in the cell of the square at `row`, `col`, clipped at the buffer edge.
fn draw_big(
    buf: &mut Vec<Vec<Cell>>,
    w: usize,
    h: usize,
    cw: usize,
    ch: usize,
    row: usize,
    col: usize,
    sym: char,
    ps: Style,
)
    requires
        buf_wf(old(buf)@, w as int, h as int),
        spec_has_shape(sym),
        row < 8,
        col < 8,
        dims_ok(cw as int, ch as int),
        w == 8 * cw + 2,
        h == 8 * ch + 2,
    ensures
        buf_wf(final(buf)@, w as int, h as int),
        forall|x: int, y: int|
            0 <= y < h && 0 <= x < w ==> #[trigger] bufcell(final(buf)@, x, y) == (if big_covers(
                cw as int,
                ch as int,
                row as int,
                col as int,
                sym,
                x,
                y,
            ) {
                spec_cell(big_char(cw as int, ch as int, row as int, col as int, sym, x, y), ps)
            } else {
                bufcell(old(buf)@, x, y)
            }),
{
    proof {
        lemma_shape_dims(sym);
    }
    let lines = match shape_lines(sym) {
        Some(l) => l,
        None => {
            proof {
                assert(false);
            }
            [" ", " ", " "]
        },
    };
    let l0 = lines[0];
    let l1 = lines[1];
    let l2 = lines[2];
    let n0 = l0.unicode_len();
    let n1 = l1.unicode_len();
    let n2 = l2.unicode_len();
    let shape_w: usize = if n0 >= n1 && n0 >= n2 {
        n0
    } else if n1 >= n2 {
        n1
    } else {
        n2
    };
    proof {
        assert(shape_w as int == spec_shape_width(sym));
    }
    let off_x: usize = if cw >= shape_w {
        (cw - shape_w) / 2
    } else {
        0
    };
    let off_y: usize = if ch >= 3 {
        (ch - 3) / 2
    } else {
        0
    };
    proof {
        assert((col as int) * (cw as int) <= 7 * 4096) by (nonlinear_arith)
            requires
                col < 8,
                cw as int <= 4096,
        ;
        assert((row as int) * (ch as int) <= 7 * 4096) by (nonlinear_arith)
            requires
                row < 8,
                ch as int <= 4096,
        ;
    }
    let cell_x = col * cw + 1;
    let cell_y = row * ch + 1;
    let ghost cwi = cw as int;
    let ghost chi = ch as int;
    let ghost rowi = row as int;
    let ghost coli = col as int;
    let ghost base = buf@;
    let mut sy: usize = 0;
    while sy < 3
        invariant
            sy <= 3,
            buf_wf(buf@, w as int, h as int),
            spec_has_shape(sym),
            row < 8,
            col < 8,
            dims_ok(cwi, chi),
            w == 8 * cw + 2,
            h == 8 * ch + 2,
            cwi == cw as int,
            chi == ch as int,
            rowi == row as int,
            coli == col as int,
            cell_x == col * cw + 1,
            cell_y == row * ch + 1,
            cell_x <= 7 * 4096 + 1,
            cell_y <= 7 * 4096 + 1,
            off_x <= 4096,
            off_y <= 4096,
            off_x as int == spec_off_x(cwi, sym),
            off_y as int == spec_off_y(chi),
            l0@ == spec_shape_line(sym, 0),
            l1@ == spec_shape_line(sym, 1),
            l2@ == spec_shape_line(sym, 2),
            forall|x: int, y: int|
                0 <= y < h && 0 <= x < w ==> #[trigger] bufcell(buf@, x, y) == (if big_covers_upto(
                    cwi,
                    chi,
                    rowi,
                    coli,
                    sym,
                    sy as int,
                    0,
                    x,
                    y,
                ) {
                    spec_cell(big_char(cwi, chi, rowi, coli, sym, x, y), ps)
                } else {
                    bufcell(base, x, y)
                }),
        decreases 3 - sy,
    {
        let ty = cell_y + off_y + sy;
        let line = if sy == 0 {
            l0
        } else if sy == 1 {
            l1
        } else {
            l2
        };
        let n = line.unicode_len();
        proof {
            assert(line@ == spec_shape_line(sym, sy as int));
            lemma_shape_dims(sym);
        }
        if ty < h {
            let mut k: usize = 0;
            while k < n && cell_x + off_x + k < w
                invariant
                    k <= n,
                    ty == cell_y + off_y + sy,
                    ty < h,
                    sy < 3,
                    n == line@.len(),
                    n <= 4,
                    line@ == spec_shape_line(sym, sy as int),
                    buf_wf(buf@, w as int, h as int),
                    spec_has_shape(sym),
                    row < 8,
                    col < 8,
                    dims_ok(cwi, chi),
                    w == 8 * cw + 2,
                    h == 8 * ch + 2,
                    cwi == cw as int,
                    chi == ch as int,
                    rowi == row as int,
                    coli == col as int,
                    cell_x == col * cw + 1,
                    cell_y == row * ch + 1,
                    cell_x <= 7 * 4096 + 1,
                    cell_y <= 7 * 4096 + 1,
                    off_x <= 4096,
                    off_y <= 4096,
                    off_x as int == spec_off_x(cwi, sym),
                    off_y as int == spec_off_y(chi),
                    forall|x: int, y: int|
                        0 <= y < h && 0 <= x < w ==> #[trigger] bufcell(buf@, x, y) == (if
                            big_covers_upto(
                            cwi,
                            chi,
                            rowi,
                            coli,
                            sym,
                            sy as int,
                            k as int,
                            x,
                            y,
                        ) {
                            spec_cell(big_char(cwi, chi, rowi, coli, sym, x, y), ps)
                        } else {
                            bufcell(base, x, y)
                        }),
                decreases n - k,
            {
                let tx = cell_x + off_x + k;
                let chr = line.get_char(k);
                let ghost prev = buf@;
                set_cell(buf, tx, ty, Cell { ch: chr, style: ps });
                proof {
                    assert forall|x: int, y: int|
                        0 <= y < h && 0 <= x < w implies #[trigger] bufcell(buf@, x, y) == (if
                        big_covers_upto(cwi, chi, rowi, coli, sym, sy as int, k + 1, x, y) {
                        spec_cell(big_char(cwi, chi, rowi, coli, sym, x, y), ps)
                    } else {
                        bufcell(base, x, y)
                    }) by {
                        assert(bufcell(prev, x, y) == (if big_covers_upto(
                            cwi,
                            chi,
                            rowi,
                            coli,
                            sym,
                            sy as int,
                            k as int,
                            x,
                            y,
                        ) {
                            spec_cell(big_char(cwi, chi, rowi, coli, sym, x, y), ps)
                        } else {
                            bufcell(base, x, y)
                        }));
                        if y == ty {
                            assert(buf@[y]@ == prev[y]@.update(tx as int, Cell { ch: chr, style: ps }));
                        } else {
                            assert(buf@[y] == prev[y]);
                        }
                        if x == tx && y == ty {
                            assert(big_covers_upto(cwi, chi, rowi, coli, sym, sy as int, k + 1, x, y));
                            assert(big_char(cwi, chi, rowi, coli, sym, x, y) == chr);
                        }
                    }
                }
                k = k + 1;
            }
            proof {
                assert forall|x: int, y: int|
                    0 <= y < h && 0 <= x < w implies #[trigger] bufcell(buf@, x, y) == (if
                    big_covers_upto(cwi, chi, rowi, coli, sym, sy + 1 as int, 0, x, y) {
                    spec_cell(big_char(cwi, chi, rowi, coli, sym, x, y), ps)
                } else {
                    bufcell(base, x, y)
                }) by {
                    if big_covers_upto(cwi, chi, rowi, coli, sym, sy + 1 as int, 0, x, y)
                        != big_covers_upto(cwi, chi, rowi, coli, sym, sy as int, k as int, x, y) {
                        assert(y - (rowi * chi + 1 + spec_off_y(chi)) == sy);
                        assert(x - (coli * cwi + 1 + spec_off_x(cwi, sym)) >= k);
                        assert(x >= w);
                    }
                }
            }
        } else {
            proof {
                assert forall|x: int, y: int|
                    0 <= y < h && 0 <= x < w implies big_covers_upto(
                    cwi,
                    chi,
                    rowi,
                    coli,
                    sym,
                    sy + 1 as int,
                    0,
                    x,
                    y,
                ) == big_covers_upto(cwi, chi, rowi, coli, sym, sy as int, 0, x, y) by {
                    if y - (rowi * chi + 1 + spec_off_y(chi)) == sy {
                        assert(y >= h);
                    }
                }
            }
        }
        sy = sy + 1;
    }
    proof {
        assert forall|x: int, y: int|
            0 <= y < h && 0 <= x < w implies #[trigger] bufcell(buf@, x, y) == (if big_covers(
            cwi,
            chi,
            rowi,
            coli,
            sym,
            x,
            y,
        ) {
            spec_cell(big_char(cwi, chi, rowi, coli, sym, x, y), ps)
        } else {
            bufcell(base, x, y)
        }) by {
            assert(big_covers(cwi, chi, rowi, coli, sym, x, y) == big_covers_upto(
                cwi,
                chi,
                rowi,
                coli,
                sym,
                3,
                0,
                x,
                y,
            ));
        }
    }
}

/// The rank label character of a display row.
fn rank_char(row: usize) -> (r: char)
    requires
        row < 8,
    ensures
        r == spec_rank_char(row as int),
{
    match row {
        0 => '8',
        1 => '7',
        2 => '6',
        3 => '5',
        4 => '4',
        5 => '3',
        6 => '2',
        _ => '1',
    }
}

/// The file label character of a display column.
fn file_char(col: usize) -> (r: char)
    requires
        col < 8,
    ensures
        r == spec_file_char(col as int),
{
    match col {
        0 => 'A',
        1 => 'B',
        2 => 'C',
        3 => 'D',
        4 => 'E',
        5 => 'F',
        6 => 'G',
        _ => 'H',
    }
}

/// Lays the rank labels "8" down to "1" into column 0, one per display
/// row, replacing only the character of the cell.
fn overlay_rank_labels(buf: &mut Vec<Vec<Cell>>, w: usize, h: usize, cw: usize, ch: usize)
    requires
        buf_wf(old(buf)@, w as int, h as int),
        dims_ok(cw as int, ch as int),
        w == 8 * cw + 2,
        h == 8 * ch + 2,
    ensures
        buf_wf(final(buf)@, w as int, h as int),
        forall|x: int, y: int|
            0 <= y < h && 0 <= x < w ==> #[trigger] bufcell(final(buf)@, x, y) == (if x == 0
                && spec_rank_label(ch as int, y) is Some {
                spec_cell(spec_rank_label(ch as int, y)->0, bufcell(old(buf)@, x, y).style)
            } else {
                bufcell(old(buf)@, x, y)
            }),
{
    let ghost base = buf@;
    let ghost chi = ch as int;
    let mut row: usize = 0;
    while row < 8
        invariant
            row <= 8,
            buf_wf(buf@, w as int, h as int),
            dims_ok(cw as int, ch as int),
            w == 8 * cw + 2,
            h == 8 * ch + 2,
            chi == ch as int,
            forall|x: int, y: int|
                0 <= y < h && 0 <= x < w ==> #[trigger] bufcell(buf@, x, y) == (if x == 0 && y % chi
                    == 0 && 1 <= y / chi <= row {
                    spec_cell(spec_rank_char(y / chi - 1), bufcell(base, x, y).style)
                } else {
                    bufcell(base, x, y)
                }),
        decreases 8 - row,
    {
        proof {
            assert((row + 1) * (ch as int) <= 8 * (ch as int)) by (nonlinear_arith)
                requires
                    row < 8,
                    ch >= 1,
            ;
        }
        let py = (row + 1) * ch;
        proof {
            vstd::arithmetic::div_mod::lemma_fundamental_div_mod_converse(
                py as int,
                chi,
                row + 1 as int,
                0,
            );
            assert(py as int % chi == 0 && py as int / chi == row + 1);
        }
        let line = &buf[py];
        let cur = line[0];
        let lab = rank_char(row);
        let ghost prev = buf@;
        set_cell(buf, 0, py, Cell { ch: lab, style: cur.style });
        proof {
            assert forall|x: int, y: int|
                0 <= y < h && 0 <= x < w implies #[trigger] bufcell(buf@, x, y) == (if x == 0 && y
                % chi == 0 && 1 <= y / chi <= row + 1 {
                spec_cell(spec_rank_char(y / chi - 1), bufcell(base, x, y).style)
            } else {
                bufcell(base, x, y)
            }) by {
                assert(bufcell(prev, x, y) == (if x == 0 && y % chi == 0 && 1 <= y / chi <= row {
                    spec_cell(spec_rank_char(y / chi - 1), bufcell(base, x, y).style)
                } else {
                    bufcell(base, x, y)
                }));
                if y == py {
                    assert(buf@[y]@ == prev[y]@.update(0, Cell { ch: lab, style: cur.style }));
                } else {
                    assert(buf@[y] == prev[y]);
                }
                if x == 0 && y % chi == 0 && 1 <= y / chi <= row + 1 && !(x == 0 && y % chi == 0 && 1
                    <= y / chi <= row) {
                    vstd::arithmetic::div_mod::lemma_fundamental_div_mod(y, chi);
                    assert(chi * (y / chi) == (y / chi) * chi) by (nonlinear_arith);
                    assert(y == (row + 1) * chi);
                }
            }
        }
        row = row + 1;
    }
    proof {
        assert forall|x: int, y: int| 0 <= y < h && 0 <= x < w implies #[trigger] bufcell(buf@, x, y)
            == (if x == 0 && spec_rank_label(chi, y) is Some {
            spec_cell(spec_rank_label(chi, y)->0, bufcell(base, x, y).style)
        } else {
            bufcell(base, x, y)
        }) by {
            assert(bufcell(buf@, x, y) == (if x == 0 && y % chi == 0 && 1 <= y / chi <= 8 {
                spec_cell(spec_rank_char(y / chi - 1), bufcell(base, x, y).style)
            } else {
                bufcell(base, x, y)
            }));
        }
    }
}

/// Lays the file labels "A" to "H" onto the bottom line, one per display
/// column, replacing only the character of the cell.
fn overlay_file_labels(buf: &mut Vec<Vec<Cell>>, w: usize, h: usize, cw: usize, ch: usize)
    requires
        buf_wf(old(buf)@, w as int, h as int),
        dims_ok(cw as int, ch as int),
        w == 8 * cw + 2,
        h == 8 * ch + 2,
    ensures
        buf_wf(final(buf)@, w as int, h as int),
        forall|x: int, y: int|
            0 <= y < h && 0 <= x < w ==> #[trigger] bufcell(final(buf)@, x, y) == (if y == 8 * ch
                + 1 && spec_file_label(cw as int, x) is Some {
                spec_cell(spec_file_label(cw as int, x)->0, bufcell(old(buf)@, x, y).style)
            } else {
                bufcell(old(buf)@, x, y)
            }),
{
    let ghost base = buf@;
    let ghost cwi = cw as int;
    let bottom = h - 1;
    let mut col: usize = 0;
    while col < 8
        invariant
            col <= 8,
            buf_wf(buf@, w as int, h as int),
            dims_ok(cw as int, ch as int),
            w == 8 * cw + 2,
            h == 8 * ch + 2,
            bottom == h - 1,
            cwi == cw as int,
            forall|x: int, y: int|
                0 <= y < h && 0 <= x < w ==> #[trigger] bufcell(buf@, x, y) == (if y == 8 * ch + 1
                    && x % cwi == 0 && 1 <= x / cwi <= col {
                    spec_cell(spec_file_char(x / cwi - 1), bufcell(base, x, y).style)
                } else {
                    bufcell(base, x, y)
                }),
        decreases 8 - col,
    {
        proof {
            assert((col + 1) * (cw as int) <= 8 * (cw as int)) by (nonlinear_arith)
                requires
                    col < 8,
                    cw >= 1,
            ;
        }
        let px = (col + 1) * cw;
        proof {
            vstd::arithmetic::div_mod::lemma_fundamental_div_mod_converse(
                px as int,
                cwi,
                col + 1 as int,
                0,
            );
        }
        let line = &buf[bottom];
        let cur = line[px];
        let lab = file_char(col);
        let ghost prev = buf@;
        set_cell(buf, px, bottom, Cell { ch: lab, style: cur.style });
        proof {
            assert forall|x: int, y: int|
                0 <= y < h && 0 <= x < w implies #[trigger] bufcell(buf@, x, y) == (if y == 8 * ch
                + 1 && x % cwi == 0 && 1 <= x / cwi <= col + 1 {
                spec_cell(spec_file_char(x / cwi - 1), bufcell(base, x, y).style)
            } else {
                bufcell(base, x, y)
            }) by {
                assert(bufcell(prev, x, y) == (if y == 8 * ch + 1 && x % cwi == 0 && 1 <= x / cwi
                    <= col {
                    spec_cell(spec_file_char(x / cwi - 1), bufcell(base, x, y).style)
                } else {
                    bufcell(base, x, y)
                }));
                if y == bottom {
                    assert(buf@[y]@ == prev[y]@.update(px as int, Cell { ch: lab, style: cur.style }));
                } else {
                    assert(buf@[y] == prev[y]);
                }
                if y == 8 * ch + 1 && x % cwi == 0 && 1 <= x / cwi <= col + 1 && !(y == 8 * ch + 1
                    && x % cwi == 0 && 1 <= x / cwi <= col) {
                    vstd::arithmetic::div_mod::lemma_fundamental_div_mod(x, cwi);
                    assert(cwi * (x / cwi) == (x / cwi) * cwi) by (nonlinear_arith);
                    assert(x == (col + 1) * cwi);
                }
            }
        }
        col = col + 1;
    }
    proof {
        assert forall|x: int, y: int| 0 <= y < h && 0 <= x < w implies #[trigger] bufcell(buf@, x, y)
            == (if y == 8 * ch + 1 && spec_file_label(cwi, x) is Some {
            spec_cell(spec_file_label(cwi, x)->0, bufcell(base, x, y).style)
        } else {
            bufcell(base, x, y)
        }) by {
            assert(bufcell(buf@, x, y) == (if y == 8 * ch + 1 && x % cwi == 0 && 1 <= x / cwi <= 8 {
                spec_cell(spec_file_char(x / cwi - 1), bufcell(base, x, y).style)
            } else {
                bufcell(base, x, y)
            }));
        }
    }
}

/// Renders a board snapshot into the styled character buffer: every square
/// filled with its background, every piece drawn in the chosen display
/// mode, and rank and file labels laid over the border.
///
/// The buffer is always exactly `8 * cell_height + 2` lines of
/// `8 * cell_width + 2` cells, and each cell is pinned by `composed_cell`.
pub fn compose(
    board: &Vec<Option<BoardPiece>>,
    display: DisplayMode,
    cell_width: usize,
    cell_height: usize,
) -> (r: Vec<Vec<Cell>>)
    requires
        board_wf(board@),
        dims_ok(cell_width as int, cell_height as int),
    ensures
        r@.len() == 8 * cell_height + 2,
        forall|y: int| 0 <= y < r@.len() ==> (#[trigger] r@[y])@.len() == 8 * cell_width + 2,
        forall|x: int, y: int|
            0 <= y < 8 * cell_height + 2 && 0 <= x < 8 * cell_width + 2 ==> #[trigger] bufcell(
                r@,
                x,
                y,
            ) == composed_cell(
                board@,
                display,
                cell_width as int,
                cell_height as int,
                x,
                y,
            ),
{
    let cw = cell_width;
    let ch = cell_height;
    let w = 8 * cw + 2;
    let h = 8 * ch + 2;
    let ghost cwi = cw as int;
    let ghost chi = ch as int;
    let ghost bv = board@;
    let mut buf = make_buffer(w, h);
    let mut row: usize = 0;
    while row < 8
        invariant
            row <= 8,
            buf_wf(buf@, w as int, h as int),
            board_wf(bv),
            bv == board@,
            dims_ok(cwi, chi),
            cwi == cw as int,
            chi == ch as int,
            w == 8 * cw + 2,
            h == 8 * ch + 2,
            forall|x: int, y: int|
                0 <= y < h && 0 <= x < w ==> #[trigger] bufcell(buf@, x, y) == cell_upto(
                    bv,
                    display,
                    cwi,
                    chi,
                    8 * row,
                    x,
                    y,
                ),
        decreases 8 - row,
    {
        let mut col: usize = 0;
        while col < 8
            invariant
                row < 8,
                col <= 8,
                buf_wf(buf@, w as int, h as int),
                board_wf(bv),
                bv == board@,
                dims_ok(cwi, chi),
                cwi == cw as int,
                chi == ch as int,
                w == 8 * cw + 2,
                h == 8 * ch + 2,
                forall|x: int, y: int|
                    0 <= y < h && 0 <= x < w ==> #[trigger] bufcell(buf@, x, y) == cell_upto(
                        bv,
                        display,
                        cwi,
                        chi,
                        8 * row + col,
                        x,
                        y,
                    ),
            decreases 8 - col,
        {
            let ghost s = 8 * (row as int) + (col as int);
            let ghost start = buf@;
            proof {
                assert((col as int) * cwi + cwi <= 8 * cwi && 0 <= (col as int) * cwi) by (nonlinear_arith)
                    requires
                        col < 8,
                        1 <= cwi,
                ;
                assert((row as int) * chi + chi <= 8 * chi && 0 <= (row as int) * chi) by (nonlinear_arith)
                    requires
                        row < 8,
                        1 <= chi,
                ;
                vstd::arithmetic::div_mod::lemma_fundamental_div_mod_converse(
                    s,
                    8,
                    row as int,
                    col as int,
                );
            }
            let st = if (row + col) % 2 == 0 {
                Style { fg: Hue::White, bg: Hue::Yellow }
            } else {
                Style { fg: Hue::White, bg: Hue::Magenta }
            };
            proof {
                assert(st == spec_square_style(row as int, col as int));
            }
            fill_rect(&mut buf, w, h, col * cw + 1, row * ch + 1, cw, ch, Cell { ch: ' ', style: st });
            let ghost mid = buf@;
            let idx = (7 - row) * 8 + col;
            let pc = board[idx];
            match pc {
                Some(piece) => {
                    let ps = Style {
                        fg: match piece.color {
                            PieceColor::White => Hue::White,
                            PieceColor::Black => Hue::Black,
                        },
                        bg: st.bg,
                    };
                    proof {
                        assert(ps == spec_piece_style(piece.color, st));
                    }
                    match display {
                        DisplayMode::Simple => {
                            let g = piece_unicode(piece);
                            draw_simple(
                                &mut buf,
                                w,
                                h,
                                col * cw + 1,
                                row * ch + 1,
                                Cell { ch: g, style: ps },
                            );
                        },
                        DisplayMode::Big => {
                            let sym = piece_char(piece);
                            draw_big(&mut buf, w, h, cw, ch, row, col, sym, ps);
                        },
                    }
                },
                None => {},
            }
            proof {
                assert forall|x: int, y: int|
                    0 <= y < h && 0 <= x < w implies #[trigger] bufcell(buf@, x, y) == cell_upto(
                    bv,
                    display,
                    cwi,
                    chi,
                    s + 1,
                    x,
                    y,
                ) by {
                    assert(bufcell(start, x, y) == cell_upto(bv, display, cwi, chi, s, x, y));
                    assert(bufcell(mid, x, y) == (if bg_covers(
                        cwi,
                        chi,
                        row as int,
                        col as int,
                        x,
                        y,
                    ) {
                        spec_cell(' ', st)
                    } else {
                        bufcell(start, x, y)
                    }));
                    assert(cell_upto(bv, display, cwi, chi, s + 1, x, y) == (match square_write(
                        bv,
                        display,
                        cwi,
                        chi,
                        s,
                        x,
                        y,
                    ) {
                        Some(c) => c,
                        None => cell_upto(bv, display, cwi, chi, s, x, y),
                    }));
                }
            }
            col = col + 1;
        }
        row = row + 1;
    }
    proof {
        assert(8 * (row as int) == 64);
    }
    overlay_rank_labels(&mut buf, w, h, cw, ch);
    let ghost after_rank = buf@;
    overlay_file_labels(&mut buf, w, h, cw, ch);
    proof {
        assert forall|x: int, y: int|
            0 <= y < h && 0 <= x < w implies #[trigger] bufcell(buf@, x, y) == composed_cell(
            bv,
            display,
            cwi,
            chi,
            x,
            y,
        ) by {
            let raw = cell_upto(bv, display, cwi, chi, 64, x, y);
            if x == 0 {
                assert(spec_file_label(cwi, x) is None);
            }
        }
    }
    buf
}

} // verus!
