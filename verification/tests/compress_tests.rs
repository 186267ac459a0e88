use chess_tui::compress::{compress, Run};
use chess_tui::style::{Cell, Hue, Style};

fn cell(ch: char, fg: Hue, bg: Hue) -> Cell {
    Cell { ch, style: Style { fg, bg } }
}

fn expand_runs(runs: &[Run]) -> Vec<Cell> {
    let mut out = Vec::new();
    for r in runs {
        for &ch in r.text.iter() {
            out.push(Cell { ch, style: r.style });
        }
    }
    out
}

#[test]
fn uniform_row_is_one_run() {
    let row = vec![
        cell('a', Hue::White, Hue::Reset),
        cell('b', Hue::White, Hue::Reset),
        cell('c', Hue::White, Hue::Reset),
    ];
    let runs = compress(&row);
    assert_eq!(runs.len(), 1);
    let text: String = runs[0].text.iter().collect();
    assert_eq!(text, "abc");
    assert_eq!(runs[0].style, Style { fg: Hue::White, bg: Hue::Reset });
}

#[test]
fn style_changes_split_runs() {
    let row = vec![
        cell('x', Hue::White, Hue::Yellow),
        cell('y', Hue::White, Hue::Yellow),
        cell('z', Hue::Black, Hue::Magenta),
        cell('w', Hue::White, Hue::Yellow),
    ];
    let runs = compress(&row);
    assert_eq!(runs.len(), 3);
    let texts: Vec<String> = runs.iter().map(|r| r.text.iter().collect()).collect();
    assert_eq!(texts, vec!["xy".to_string(), "z".to_string(), "w".to_string()]);
}

#[test]
fn compression_is_lossless() {
    let row = vec![
        cell(' ', Hue::White, Hue::Yellow),
        cell('R', Hue::Black, Hue::Yellow),
        cell('R', Hue::Black, Hue::Magenta),
        cell(' ', Hue::Black, Hue::Magenta),
        cell('1', Hue::Reset, Hue::Reset),
    ];
    let runs = compress(&row);
    assert_eq!(expand_runs(&runs), row);
    // adjacent runs always differ in style
    for w in runs.windows(2) {
        assert_ne!(w[0].style, w[1].style);
    }
    // runs are never empty
    for r in &runs {
        assert!(!r.text.is_empty());
    }
}

#[test]
fn single_cell_row() {
    let row = vec![cell('q', Hue::Reset, Hue::Reset)];
    let runs = compress(&row);
    assert_eq!(runs.len(), 1);
    assert_eq!(expand_runs(&runs), row);
}
