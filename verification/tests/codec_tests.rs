use chess_tui::codec::{find_uci_match, move_to_uci, resolve_input, MoveCoords};

fn uci_string(m: &MoveCoords) -> String {
    move_to_uci(m).into_iter().collect()
}

#[test]
fn uci_of_normal_move() {
    // e2 is file 4, rank 1 -> square 12; e4 is file 4, rank 3 -> square 28
    let m = MoveCoords { from: Some(12), to: 28 };
    assert_eq!(uci_string(&m), "e2e4");
}

#[test]
fn uci_of_corner_squares() {
    let m = MoveCoords { from: Some(0), to: 63 };
    assert_eq!(uci_string(&m), "a1h8");
}

#[test]
fn uci_of_drop_has_only_target() {
    let m = MoveCoords { from: None, to: 28 };
    assert_eq!(uci_string(&m), "e4");
}

#[test]
fn find_match_picks_first() {
    let ms = vec![
        MoveCoords { from: Some(12), to: 28 },
        MoveCoords { from: Some(12), to: 20 },
        MoveCoords { from: Some(12), to: 28 },
    ];
    let target: Vec<char> = "e2e4".chars().collect();
    assert_eq!(find_uci_match(&ms, &target), Some(0));
    let target2: Vec<char> = "e2e3".chars().collect();
    assert_eq!(find_uci_match(&ms, &target2), Some(1));
}

#[test]
fn find_match_none_when_absent() {
    let ms = vec![MoveCoords { from: Some(12), to: 28 }];
    let target: Vec<char> = "a1a2".chars().collect();
    assert_eq!(find_uci_match(&ms, &target), None);
}

#[test]
fn resolve_input_folds_case() {
    let ms = vec![MoveCoords { from: Some(12), to: 28 }];
    let target: Vec<char> = "E2E4".chars().collect();
    assert_eq!(resolve_input(&ms, &target), Some(0));
}
