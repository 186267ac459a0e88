//! The move notation codec: a move's source and target squares as a
//! lowercase coordinate string such as "e2e4", and the resolution of such
//! a string against a list of legal moves by first match.
use vstd::prelude::*;

use crate::text::{spec_lower, to_lower};

verus! {

/// The coordinates of a move: the source square (none for a piece drop)
/// and the target square, each a square index `file + 8 * rank`.
#[derive(Clone, Copy, Debug, PartialEq, Eq, Structural)]
pub struct MoveCoords {
    pub from: Option<u8>,
    pub to: u8,
}

/// Square indices fit the board.
pub open spec fn coords_wf(m: MoveCoords) -> bool {
    &&& (m.from is Some ==> m.from->0 < 64)
    &&& m.to < 64
}

/// The file letter of a square: 'a' for file 0 up to 'h'.
pub open spec fn spec_file_letter(sq: int) -> char {
    let f = sq % 8;
    if f == 0 {
        'a'
    } else if f == 1 {
        'b'
    } else if f == 2 {
        'c'
    } else if f == 3 {
        'd'
    } else if f == 4 {
        'e'
    } else if f == 5 {
        'f'
    } else if f == 6 {
        'g'
    } else {
        'h'
    }
}

/// The rank digit of a square: '1' for rank 0 up to '8'.
pub open spec fn spec_rank_digit(sq: int) -> char {
    let r = sq / 8;
    if r == 0 {
        '1'
    } else if r == 1 {
        '2'
    } else if r == 2 {
        '3'
    } else if r == 3 {
        '4'
    } else if r == 4 {
        '5'
    } else if r == 5 {
        '6'
    } else if r == 6 {
        '7'
    } else {
        '8'
    }
}

/// The two-character name of a square, file letter then rank digit.
pub open spec fn spec_square_name(sq: int) -> Seq<char> {
    seq![spec_file_letter(sq), spec_rank_digit(sq)]
}

/// The coordinate notation of a move: source square name (empty for a
/// drop) followed by the target square name. Promotion and capture
/// annotations are deliberately discarded.
pub open spec fn spec_uci(m: MoveCoords) -> Seq<char> {
    match m.from {
        Some(f) => spec_square_name(f as int) + spec_square_name(m.to as int),
        None => spec_square_name(m.to as int),
    }
}

/// Writes the name of one square.
fn push_square_name(out: &mut Vec<char>, sq: u8)
    requires
        sq < 64,
    ensures
        final(out)@ == old(out)@ + spec_square_name(sq as int),
{
    let file: u8 = sq % 8;
    let rank: u8 = sq / 8;
    let fc = match file {
        0 => 'a',
        1 => 'b',
        2 => 'c',
        3 => 'd',
        4 => 'e',
        5 => 'f',
        6 => 'g',
        _ => 'h',
    };
    let rc = match rank {
        0 => '1',
        1 => '2',
        2 => '3',
        3 => '4',
        4 => '5',
        5 => '6',
        6 => '7',
        _ => '8',
    };
    out.push(fc);
    out.push(rc);
    proof {
        assert(final(out)@ =~= old(out)@ + spec_square_name(sq as int));
    }
}

/// Converts a move to its coordinate notation.
pub fn move_to_uci(m: &MoveCoords) -> (r: Vec<char>)
    requires
        coords_wf(*m),
    ensures
        r@ == spec_uci(*m),
{
    let mut out: Vec<char> = Vec::new();
    match m.from {
        Some(f) => {
            push_square_name(&mut out, f);
        },
        None => {},
    }
    push_square_name(&mut out, m.to);
    proof {
        assert(out@ =~= spec_uci(*m));
    }
    out
}

/// Whether two character vectors hold the same characters.
fn chars_eq(a: &Vec<char>, b: &Vec<char>) -> (r: bool)
    ensures
        r == (a@ == b@),
{
    if a.len() != b.len() {
        proof {
            assert(a@ != b@);
        }
        return false;
    }
    let mut i: usize = 0;
    while i < a.len()
        invariant
            a@.len() == b@.len(),
            i <= a@.len(),
            forall|j: int| 0 <= j < i ==> a@[j] == b@[j],
        decreases a@.len() - i,
    {
        if a[i] != b[i] {
            return false;
        }
        i = i + 1;
    }
    proof {
        assert(a@ =~= b@);
    }
    true
}

/// The first index in `ms` whose coordinate notation is `target`, if any.
pub fn find_uci_match(ms: &Vec<MoveCoords>, target: &Vec<char>) -> (r: Option<usize>)
    requires
        forall|i: int| 0 <= i < ms@.len() ==> coords_wf(#[trigger] ms@[i]),
    ensures
        match r {
            Some(i) => i < ms@.len() && spec_uci(ms@[i as int]) == target@ && forall|j: int|
                0 <= j < i ==> spec_uci(#[trigger] ms@[j]) != target@,
            None => forall|j: int| 0 <= j < ms@.len() ==> spec_uci(#[trigger] ms@[j]) != target@,
        },
{
    let mut i: usize = 0;
    while i < ms.len()
        invariant
            i <= ms@.len(),
            forall|k: int| 0 <= k < ms@.len() ==> coords_wf(#[trigger] ms@[k]),
            forall|j: int| 0 <= j < i ==> spec_uci(#[trigger] ms@[j]) != target@,
        decreases ms@.len() - i,
    {
        let mc = ms[i];
        let uci = move_to_uci(&mc);
        if chars_eq(&uci, target) {
            return Some(i);
        }
        i = i + 1;
    }
    None
}

/// Resolves a user-typed string against a list of legal move coordinates:
/// the input is folded to lowercase and the first move whose notation
/// matches is chosen.
pub fn resolve_input(ms: &Vec<MoveCoords>, input: &Vec<char>) -> (r: Option<usize>)
    requires
        forall|i: int| 0 <= i < ms@.len() ==> coords_wf(#[trigger] ms@[i]),
    ensures
        match r {
            Some(i) => i < ms@.len() && spec_uci(ms@[i as int]) == spec_lower(input@) && forall|
                j: int,
            |
                0 <= j < i ==> spec_uci(#[trigger] ms@[j]) != spec_lower(input@),
            None => forall|j: int|
                0 <= j < ms@.len() ==> spec_uci(#[trigger] ms@[j]) != spec_lower(input@),
        },
{
    let lowered = to_lower(input);
    find_uci_match(ms, &lowered)
}

/// Square names are distinct for distinct squares, so coordinate notation
/// pins the move coordinates down.
pub proof fn lemma_uci_injective(a: MoveCoords, b: MoveCoords)
    requires
        coords_wf(a),
        coords_wf(b),
        spec_uci(a) == spec_uci(b),
    ensures
        a == b,
{
    lemma_square_name_injective();
    match (a.from, b.from) {
        (Some(fa), Some(fb)) => {
            assert(spec_uci(a)[0] == spec_file_letter(fa as int));
            assert(spec_uci(a)[1] == spec_rank_digit(fa as int));
            assert(spec_uci(a)[2] == spec_file_letter(a.to as int));
            assert(spec_uci(a)[3] == spec_rank_digit(a.to as int));
            assert(spec_uci(b)[0] == spec_file_letter(fb as int));
            assert(spec_uci(b)[1] == spec_rank_digit(fb as int));
            assert(spec_uci(b)[2] == spec_file_letter(b.to as int));
            assert(spec_uci(b)[3] == spec_rank_digit(b.to as int));
        },
        (None, None) => {
            assert(spec_uci(a)[0] == spec_file_letter(a.to as int));
            assert(spec_uci(a)[1] == spec_rank_digit(a.to as int));
            assert(spec_uci(b)[0] == spec_file_letter(b.to as int));
            assert(spec_uci(b)[1] == spec_rank_digit(b.to as int));
        },
        (Some(_), None) => {
            assert(spec_uci(a).len() == 4 && spec_uci(b).len() == 2);
        },
        (None, Some(_)) => {
            assert(spec_uci(a).len() == 2 && spec_uci(b).len() == 4);
        },
    }
}

/// Two squares with the same file letter and rank digit are the same
/// square.
proof fn lemma_square_name_injective()
    ensures
        forall|p: int, q: int|
            0 <= p < 64 && 0 <= q < 64 && #[trigger] spec_square_name(p) == #[trigger]
                spec_square_name(q) ==> p == q,
{
    assert forall|p: int, q: int|
        0 <= p < 64 && 0 <= q < 64 && #[trigger] spec_square_name(p) == #[trigger] spec_square_name(
        q,
    ) implies p == q by {
        assert(spec_square_name(p)[0] == spec_file_letter(p));
        assert(spec_square_name(p)[1] == spec_rank_digit(p));
        assert(spec_square_name(q)[0] == spec_file_letter(q));
        assert(spec_square_name(q)[1] == spec_rank_digit(q));
        assert(p % 8 == q % 8);
        assert(p / 8 == q / 8);
        vstd::arithmetic::div_mod::lemma_fundamental_div_mod(p, 8);
        vstd::arithmetic::div_mod::lemma_fundamental_div_mod(q, 8);
    }
}

/// Coordinate notation is already lowercase: folding it changes nothing.
pub proof fn lemma_uci_lower(m: MoveCoords)
    requires
        coords_wf(m),
    ensures
        spec_lower(spec_uci(m)) == spec_uci(m),
{
    let u = spec_uci(m);
    assert forall|i: int| 0 <= i < u.len() implies crate::text::spec_lower_char(u[i]) == u[i] by {
        if m.from is Some {
            assert(u[0] == spec_file_letter(m.from->0 as int));
            assert(u[1] == spec_rank_digit(m.from->0 as int));
            assert(u[2] == spec_file_letter(m.to as int));
            assert(u[3] == spec_rank_digit(m.to as int));
        } else {
            assert(u[0] == spec_file_letter(m.to as int));
            assert(u[1] == spec_rank_digit(m.to as int));
        }
    }
    assert(spec_lower(u) =~= u);
}

/// Round trip of the notation codec: writing a legal move's notation and
/// resolving it against the same move list always finds a move with the
/// very same coordinates, and the move itself wherever its coordinates
/// are unique in the list.
pub proof fn lemma_notation_round_trip(ms: Seq<MoveCoords>, i: int, j: int)
    requires
        0 <= i < ms.len(),
        forall|k: int| 0 <= k < ms.len() ==> coords_wf(#[trigger] ms[k]),
        0 <= j < ms.len(),
        spec_uci(ms[j]) == spec_lower(spec_uci(ms[i])),
    ensures
        ms[j] == ms[i],
{
    lemma_uci_lower(ms[i]);
    lemma_uci_injective(ms[i], ms[j]);
}

} // verus!
