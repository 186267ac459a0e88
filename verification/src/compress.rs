//! The line compressor: turns a row of styled cells into the minimal
//! run-length sequence of (text, style) pairs.
use vstd::prelude::*;

use crate::style::{spec_cell, Cell, Style};

verus! {

/// A maximal stretch of consecutive characters that share one style.
#[derive(Debug)]
pub struct Run {
    pub text: Vec<char>,
    pub style: Style,
}

/// The cells that a text in one uniform style stands for.
pub open spec fn cells_of(text: Seq<char>, style: Style) -> Seq<Cell> {
    Seq::new(text.len(), |i: int| spec_cell(text[i], style))
}

/// The cells a run stands for: its characters, each paired with its style.
pub open spec fn run_cells(r: Run) -> Seq<Cell> {
    cells_of(r.text@, r.style)
}

/// The cells a sequence of runs stands for, in order.
pub open spec fn expand(runs: Seq<Run>) -> Seq<Cell>
    decreases runs.len(),
{
    if runs.len() == 0 {
        Seq::<Cell>::empty()
    } else {
        run_cells(runs[0]) + expand(runs.drop_first())
    }
}

proof fn lemma_expand_push(runs: Seq<Run>, r: Run)
    ensures
        expand(runs.push(r)) == expand(runs) + run_cells(r),
    decreases runs.len(),
{
    let s = runs.push(r);
    if runs.len() == 0 {
        assert(s[0] == r);
        assert(s.drop_first() =~= Seq::<Run>::empty());
        assert(expand(s) == run_cells(r) + expand(Seq::<Run>::empty()));
        assert(expand(s) =~= expand(runs) + run_cells(r));
    } else {
        assert(s.drop_first() =~= runs.drop_first().push(r));
        lemma_expand_push(runs.drop_first(), r);
        assert(s[0] == runs[0]);
        assert(expand(s) == run_cells(runs[0]) + (expand(runs.drop_first()) + run_cells(r)));
        assert(expand(s) =~= expand(runs) + run_cells(r));
    }
}

/// Compresses one row of styled cells into runs, merging adjacent cells of
/// equal style, scanning left to right.
///
/// The compression is lossless: expanding the runs gives back exactly the
/// input row. Every run is non-empty and adjacent runs differ in style, so
/// the result is the minimal such sequence.
#[verifier::rlimit(60)]
pub fn compress(row: &Vec<Cell>) -> (r: Vec<Run>)
    requires
        row@.len() > 0,
    ensures
        expand(r@) == row@,
        r@.len() > 0,
        forall|i: int| 0 <= i < r@.len() ==> (#[trigger] r@[i]).text@.len() > 0,
        forall|i: int| 0 <= i < r@.len() - 1 ==> (#[trigger] r@[i]).style != r@[i + 1].style,
{
    let mut runs: Vec<Run> = Vec::new();
    let mut cur_text: Vec<char> = Vec::new();
    let mut cur_style: Style = row[0].style;
    let mut k: usize = 0;
    proof {
        assert(expand(runs@) + cells_of(cur_text@, cur_style) =~= row@.take(0));
    }
    while k < row.len()
        invariant
            k <= row@.len(),
            row@.len() > 0,
            cur_text@.len() == 0 ==> k == 0 && runs@.len() == 0,
            k > 0 ==> cur_text@.len() > 0,
            k == 0 ==> cur_style == row@[0].style,
            expand(runs@) + cells_of(cur_text@, cur_style) == row@.take(k as int),
            forall|i: int| 0 <= i < runs@.len() ==> (#[trigger] runs@[i]).text@.len() > 0,
            forall|i: int| 0 <= i < runs@.len() - 1 ==> (#[trigger] runs@[i]).style != runs@[i + 1].style,
            runs@.len() > 0 ==> runs@[runs@.len() - 1].style != cur_style,
        decreases row@.len() - k,
    {
        let ghost prev_runs = runs@;
        let ghost prev_text = cur_text@;
        let ghost prev_style = cur_style;
        let cell = row[k];
        if cell.style == cur_style || cur_text.len() == 0 {
            cur_style = cell.style;
            cur_text.push(cell.ch);
            proof {
                assert(cells_of(cur_text@, cur_style) =~= cells_of(prev_text, prev_style).push(cell));
                assert(row@.take(k + 1 as int) =~= row@.take(k as int).push(cell));
                assert(expand(runs@) + cells_of(cur_text@, cur_style) =~= row@.take(k + 1 as int));
            }
        } else {
            let done = Run { text: cur_text, style: cur_style };
            proof {
                lemma_expand_push(prev_runs, done);
            }
            runs.push(done);
            cur_text = Vec::new();
            cur_text.push(cell.ch);
            cur_style = cell.style;
            proof {
                assert(cells_of(cur_text@, cur_style) =~= Seq::<Cell>::empty().push(cell));
                assert(expand(runs@) == expand(prev_runs) + cells_of(prev_text, prev_style));
                assert(row@.take(k + 1 as int) =~= row@.take(k as int).push(cell));
                assert(expand(runs@) + cells_of(cur_text@, cur_style) =~= row@.take(k + 1 as int));
            }
        }
        k = k + 1;
    }
    let done = Run { text: cur_text, style: cur_style };
    proof {
        lemma_expand_push(runs@, done);
    }
    runs.push(done);
    proof {
        assert(cells_of(Seq::<char>::empty(), done.style) =~= Seq::<Cell>::empty());
        assert(row@.take(row@.len() as int) =~= row@);
        assert(expand(runs@) =~= row@);
    }
    runs
}

} // verus!
