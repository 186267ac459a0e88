//! The glyph catalog: piece symbols for the compact display and small
//! multi-line ASCII shapes for the expanded display.
use std::collections::HashMap;

use vstd::prelude::*;

verus! {

/// A chess piece kind.
#[derive(Clone, Copy, Debug, PartialEq, Eq, Structural)]
pub enum Role {
    Pawn,
    Knight,
    Bishop,
    Rook,
    Queen,
    King,
}

/// The side a piece belongs to.
#[derive(Clone, Copy, Debug, PartialEq, Eq, Structural)]
pub enum PieceColor {
    White,
    Black,
}

/// A piece as it sits on a square: a kind and a side.
#[derive(Clone, Copy, Debug, PartialEq, Eq, Structural)]
pub struct BoardPiece {
    pub color: PieceColor,
    pub role: Role,
}

/// How the board is drawn: `Big` uses multi-line ASCII shapes, `Simple` a
/// single symbol per piece.
#[derive(Clone, Copy, Debug, PartialEq, Eq, Structural)]
pub enum DisplayMode {
    Big,
    Simple,
}

/// The default cell geometry of a display mode: `Big` cells are 5 wide and
/// 3 high, `Simple` cells 2 wide and 1 high.
pub open spec fn spec_default_cell_dimensions(m: DisplayMode) -> (int, int) {
    match m {
        DisplayMode::Big => (5int, 3int),
        DisplayMode::Simple => (2int, 1int),
    }
}

impl DisplayMode {
    /// Default (cell width, cell height) for this display mode.
    pub fn default_cell_dimensions(&self) -> (r: (usize, usize))
        ensures
            (r.0 as int, r.1 as int) == spec_default_cell_dimensions(*self),
    {
        match self {
            DisplayMode::Big => (5, 3),
            DisplayMode::Simple => (2, 1),
        }
    }
}

/// The one-letter symbol of a piece: the English piece letter, uppercase
/// for white and lowercase for black.
pub open spec fn spec_piece_char(p: BoardPiece) -> char {
    match p.color {
        PieceColor::White => match p.role {
            Role::Pawn => 'P',
            Role::Knight => 'N',
            Role::Bishop => 'B',
            Role::Rook => 'R',
            Role::Queen => 'Q',
            Role::King => 'K',
        },
        PieceColor::Black => match p.role {
            Role::Pawn => 'p',
            Role::Knight => 'n',
            Role::Bishop => 'b',
            Role::Rook => 'r',
            Role::Queen => 'q',
            Role::King => 'k',
        },
    }
}

/// Converts a piece into its one-letter symbol.
pub fn piece_char(piece: BoardPiece) -> (r: char)
    ensures
        r == spec_piece_char(piece),
{
    let ch = match piece.role {
        Role::Pawn => 'P',
        Role::Knight => 'N',
        Role::Bishop => 'B',
        Role::Rook => 'R',
        Role::Queen => 'Q',
        Role::King => 'K',
    };
    match piece.color {
        PieceColor::Black => match ch {
            'P' => 'p',
            'N' => 'n',
            'B' => 'b',
            'R' => 'r',
            'Q' => 'q',
            _ => 'k',
        },
        PieceColor::White => ch,
    }
}

/// The single display symbol of a piece kind in the compact display; the
/// same symbol serves both sides, the side shows through the style.
pub open spec fn spec_piece_unicode(p: BoardPiece) -> char {
    match p.role {
        Role::Pawn => '♙',
        Role::Knight => '♘',
        Role::Bishop => '♗',
        Role::Rook => '♖',
        Role::Queen => '♕',
        Role::King => '♔',
    }
}

/// Converts a piece into its single display symbol.
pub fn piece_unicode(piece: BoardPiece) -> (r: char)
    ensures
        r == spec_piece_unicode(piece),
{
    match piece.role {
        Role::Pawn => '♙',
        Role::Knight => '♘',
        Role::Bishop => '♗',
        Role::Rook => '♖',
        Role::Queen => '♕',
        Role::King => '♔',
    }
}

/// Whether a character is one of the twelve piece symbols that have an
/// ASCII shape.
pub open spec fn spec_has_shape(sym: char) -> bool {
    sym == 'P' || sym == 'N' || sym == 'B' || sym == 'R' || sym == 'Q' || sym == 'K' || sym == 'p'
        || sym == 'n' || sym == 'b' || sym == 'r' || sym == 'q' || sym == 'k'
}

/// Line `i` (0 to 2) of the ASCII shape of the piece symbol `sym`.
pub open spec fn spec_shape_line(sym: char, i: int) -> Seq<char> {
    if sym == 'P' {
        if i == 0 { " ^ "@ } else if i == 1 { "(P)"@ } else { "/_\\"@ }
    } else if sym == 'N' {
        if i == 0 { " __"@ } else if i == 1 { "/ N"@ } else { "\\_/"@ }
    } else if sym == 'B' {
        if i == 0 { "  ^"@ } else if i == 1 { " /B\\"@ } else { " \\_/"@ }
    } else if sym == 'R' {
        if i == 0 { "[R]"@ } else if i == 1 { "[R]"@ } else { "[R]"@ }
    } else if sym == 'Q' {
        if i == 0 { " Q "@ } else if i == 1 { "( )"@ } else { " \\|"@ }
    } else if sym == 'K' {
        if i == 0 { " K "@ } else if i == 1 { "(. )"@ } else { " | "@ }
    } else if sym == 'p' {
        if i == 0 { " ^ "@ } else if i == 1 { "(p)"@ } else { "/_\\"@ }
    } else if sym == 'n' {
        if i == 0 { " __"@ } else if i == 1 { "/ n"@ } else { "\\_/"@ }
    } else if sym == 'b' {
        if i == 0 { "  ^"@ } else if i == 1 { " /b\\"@ } else { " \\_/"@ }
    } else if sym == 'r' {
        if i == 0 { "[r]"@ } else if i == 1 { "[r]"@ } else { "[r]"@ }
    } else if sym == 'q' {
        if i == 0 { " q "@ } else if i == 1 { "( )"@ } else { " \\|"@ }
    } else {
        if i == 0 { " k "@ } else if i == 1 { "(. )"@ } else { " | "@ }
    }
}

/// The three ASCII shape lines of the piece symbol `sym`, or `None` if
/// `sym` is not a piece symbol.
pub fn shape_lines(sym: char) -> (r: Option<[&'static str; 3]>)
    ensures
        r is Some <==> spec_has_shape(sym),
        r is Some ==> forall|i: int|
            0 <= i < 3 ==> (#[trigger] r->0@[i])@ == spec_shape_line(sym, i),
{
    let lines: Option<[&'static str; 3]> = match sym {
        'P' => Some([" ^ ", "(P)", "/_\\"]),
        'N' => Some([" __", "/ N", "\\_/"]),
        'B' => Some(["  ^", " /B\\", " \\_/"]),
        'R' => Some(["[R]", "[R]", "[R]"]),
        'Q' => Some([" Q ", "( )", " \\|"]),
        'K' => Some([" K ", "(. )", " | "]),
        'p' => Some([" ^ ", "(p)", "/_\\"]),
        'n' => Some([" __", "/ n", "\\_/"]),
        'b' => Some(["  ^", " /b\\", " \\_/"]),
        'r' => Some(["[r]", "[r]", "[r]"]),
        'q' => Some([" q ", "( )", " \\|"]),
        'k' => Some([" k ", "(. )", " | "]),
        _ => None,
    };
    lines
}

/// The three shape lines of a piece symbol, as one sequence.
pub open spec fn spec_shape_lines3(sym: char) -> Seq<Seq<char>> {
    seq![spec_shape_line(sym, 0), spec_shape_line(sym, 1), spec_shape_line(sym, 2)]
}

/// Builds one shape entry.
fn shape_vec(l0: &str, l1: &str, l2: &str) -> (r: Vec<String>)
    ensures
        r.deep_view() == seq![l0@, l1@, l2@],
{
    let mut v: Vec<String> = Vec::new();
    v.push(String::from_str(l0));
    v.push(String::from_str(l1));
    v.push(String::from_str(l2));
    proof {
        assert(v.deep_view() =~= seq![l0@, l1@, l2@]);
    }
    v
}

/// The full glyph catalog as a map from the piece symbol's ASCII byte to
/// its three shape lines: one entry for each of the twelve piece symbols,
/// and nothing else.
pub fn piece_ascii_map() -> (r: HashMap<u8, Vec<String>>)
    ensures
        forall|c: char|
            #[trigger] spec_has_shape(c) ==> r@.contains_key(c as u8) && r@[c as u8].deep_view()
                == spec_shape_lines3(c),
        forall|b: u8| #[trigger] r@.contains_key(b) ==> spec_has_shape(b as char),
{
    broadcast use vstd::std_specs::hash::group_hash_axioms;

    let mut map: HashMap<u8, Vec<String>> = HashMap::new();
    map.insert('P' as u8, shape_vec(" ^ ", "(P)", "/_\\"));
    map.insert('N' as u8, shape_vec(" __", "/ N", "\\_/"));
    map.insert('B' as u8, shape_vec("  ^", " /B\\", " \\_/"));
    map.insert('R' as u8, shape_vec("[R]", "[R]", "[R]"));
    map.insert('Q' as u8, shape_vec(" Q ", "( )", " \\|"));
    map.insert('K' as u8, shape_vec(" K ", "(. )", " | "));
    map.insert('p' as u8, shape_vec(" ^ ", "(p)", "/_\\"));
    map.insert('n' as u8, shape_vec(" __", "/ n", "\\_/"));
    map.insert('b' as u8, shape_vec("  ^", " /b\\", " \\_/"));
    map.insert('r' as u8, shape_vec("[r]", "[r]", "[r]"));
    map.insert('q' as u8, shape_vec(" q ", "( )", " \\|"));
    map.insert('k' as u8, shape_vec(" k ", "(. )", " | "));
    map
}

} // verus!
