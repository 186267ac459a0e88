use chess_tui::glyph::{
    piece_ascii_map, piece_char, piece_unicode, shape_lines, BoardPiece, DisplayMode, PieceColor,
    Role,
};
use chess_tui::text::{dec_chars, to_lower, trim};

fn piece(color: PieceColor, role: Role) -> BoardPiece {
    BoardPiece { color, role }
}

#[test]
fn default_cell_dimensions() {
    assert_eq!(DisplayMode::Big.default_cell_dimensions(), (5, 3));
    assert_eq!(DisplayMode::Simple.default_cell_dimensions(), (2, 1));
}

#[test]
fn piece_letters() {
    assert_eq!(piece_char(piece(PieceColor::White, Role::Knight)), 'N');
    assert_eq!(piece_char(piece(PieceColor::Black, Role::Knight)), 'n');
    assert_eq!(piece_char(piece(PieceColor::White, Role::King)), 'K');
    assert_eq!(piece_char(piece(PieceColor::Black, Role::Pawn)), 'p');
}

#[test]
fn unicode_symbols_ignore_color() {
    assert_eq!(piece_unicode(piece(PieceColor::White, Role::Queen)), '♕');
    assert_eq!(piece_unicode(piece(PieceColor::Black, Role::Queen)), '♕');
    assert_eq!(piece_unicode(piece(PieceColor::White, Role::Pawn)), '♙');
}

#[test]
fn ascii_map_holds_all_twelve_shapes() {
    let map = piece_ascii_map();
    assert_eq!(map.len(), 12);
    let pawn = map.get(&b'P').unwrap();
    assert_eq!(pawn, &vec![" ^ ".to_string(), "(P)".to_string(), "/_\\".to_string()]);
    let rook = map.get(&b'r').unwrap();
    assert_eq!(rook, &vec!["[r]".to_string(), "[r]".to_string(), "[r]".to_string()]);
    assert!(map.get(&b'x').is_none());
}

#[test]
fn shape_lines_match_map() {
    let map = piece_ascii_map();
    for sym in "PNBRQKpnbrqk".chars() {
        let lines = shape_lines(sym).unwrap();
        let from_map = map.get(&(sym as u8)).unwrap();
        for i in 0..3 {
            assert_eq!(lines[i], from_map[i]);
        }
    }
    assert!(shape_lines('x').is_none());
}

#[test]
fn decimal_rendering() {
    let s: String = dec_chars(0).into_iter().collect();
    assert_eq!(s, "0");
    let s: String = dec_chars(7).into_iter().collect();
    assert_eq!(s, "7");
    let s: String = dec_chars(1500).into_iter().collect();
    assert_eq!(s, "1500");
    let s: String = dec_chars(65535).into_iter().collect();
    assert_eq!(s, "65535");
}

#[test]
fn lower_and_trim() {
    let v: Vec<char> = "  E2E4\t".chars().collect();
    let t: String = trim(&v).into_iter().collect();
    assert_eq!(t, "E2E4");
    let l: String = to_lower(&trim(&v)).into_iter().collect();
    assert_eq!(l, "e2e4");
    let all_ws: Vec<char> = "  \n".chars().collect();
    assert!(trim(&all_ws).is_empty());
}
