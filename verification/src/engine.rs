//! The boundary to the chess rules engine (shakmaty): declared types,
//! named results, and the trusted wrappers the verified logic calls.
//!
//! The position and move types are opaque here; what the library reads of
//! them is modelled by named spec functions (`piece_on`, `turn_of`,
//! `legal_moves_of`, ...), and each wrapper's contract ties the outside
//! call to those names.
use vstd::prelude::*;

use crate::codec::{coords_wf, spec_uci, MoveCoords};
use crate::text::spec_lower;
use shakmaty::Position;
use crate::glyph::{BoardPiece, PieceColor, Role};

verus! {

#[verifier::external_type_specification]
#[verifier::external_body]
pub struct ExChess(shakmaty::Chess);

#[verifier::external_type_specification]
#[verifier::external_body]
pub struct ExMove(shakmaty::Move);

/// The outcome of a finished game.
#[derive(Clone, Copy, Debug, PartialEq, Eq, Structural)]
pub enum GameOutcome {
    WhiteWins,
    BlackWins,
    Draw,
}

/// The piece on square `sq` (index `file + 8 * rank`) of a position.
pub uninterp spec fn piece_on(p: shakmaty::Chess, sq: int) -> Option<BoardPiece>;

/// The side to move of a position.
pub uninterp spec fn turn_of(p: shakmaty::Chess) -> PieceColor;

/// The legal moves of a position, in the engine's enumeration order.
pub uninterp spec fn legal_moves_of(p: shakmaty::Chess) -> Seq<shakmaty::Move>;

/// The source square index of a move, none for a piece drop.
pub uninterp spec fn from_sq_of(m: shakmaty::Move) -> Option<u8>;

/// The target square index of a move.
pub uninterp spec fn to_sq_of(m: shakmaty::Move) -> u8;

/// The position that playing a legal move yields.
pub uninterp spec fn play_of(p: shakmaty::Chess, m: shakmaty::Move) -> shakmaty::Chess;

/// Whether a position is over (checkmate, stalemate, insufficient
/// material).
pub uninterp spec fn is_over_of(p: shakmaty::Chess) -> bool;

/// The outcome of a position, none while the game is open.
pub uninterp spec fn outcome_of(p: shakmaty::Chess) -> Option<GameOutcome>;

/// The legal move a SAN string resolves to against a position, if it
/// parses and resolves unambiguously.
pub uninterp spec fn san_move_of(p: shakmaty::Chess, s: Seq<char>) -> Option<shakmaty::Move>;

/// The coordinates of a move.
pub open spec fn spec_move_coords(m: shakmaty::Move) -> MoveCoords {
    MoveCoords { from: from_sq_of(m), to: to_sq_of(m) }
}

/// The coordinates of every legal move of a position, in order.
pub open spec fn spec_legal_coords(p: shakmaty::Chess) -> Seq<MoveCoords> {
    Seq::new(legal_moves_of(p).len(), |i: int| spec_move_coords(legal_moves_of(p)[i]))
}

/// The `i`-th legal move of `p` is the first whose coordinate notation
/// is exactly `target`.
pub open spec fn matches_at(p: shakmaty::Chess, target: Seq<char>, i: int) -> bool {
    &&& 0 <= i < spec_legal_coords(p).len()
    &&& spec_uci(spec_legal_coords(p)[i]) == target
    &&& forall|j: int| 0 <= j < i ==> spec_uci(#[trigger] spec_legal_coords(p)[j]) != target
}

/// No legal move of `p` has the coordinate notation `target`.
pub open spec fn match_fails(p: shakmaty::Chess, target: Seq<char>) -> bool {
    forall|j: int|
        0 <= j < spec_legal_coords(p).len() ==> spec_uci(#[trigger] spec_legal_coords(p)[j])
            != target
}

/// The index of the first legal move of `p` whose coordinate notation is
/// `target`, if any move matches.
pub open spec fn decode_index(p: shakmaty::Chess, target: Seq<char>) -> Option<int> {
    if exists|i: int| matches_at(p, target, i) {
        Some(choose|i: int| matches_at(p, target, i))
    } else {
        None
    }
}

/// At most one index is the first match.
pub proof fn lemma_matches_at_unique(p: shakmaty::Chess, target: Seq<char>, i: int, j: int)
    requires
        matches_at(p, target, i),
        matches_at(p, target, j),
    ensures
        i == j,
{
    if i < j {
        assert(spec_uci(spec_legal_coords(p)[i]) != target);
    }
    if j < i {
        assert(spec_uci(spec_legal_coords(p)[j]) != target);
    }
}

/// A first match decides the decode result.
pub proof fn lemma_decode_some(p: shakmaty::Chess, target: Seq<char>, i: int)
    requires
        matches_at(p, target, i),
    ensures
        decode_index(p, target) == Some(i),
{
    let w = choose|k: int| matches_at(p, target, k);
    lemma_matches_at_unique(p, target, i, w);
}

/// If some legal move's notation is `target`, a first match exists.
proof fn lemma_first_match_exists(p: shakmaty::Chess, target: Seq<char>, i: int)
    requires
        0 <= i < spec_legal_coords(p).len(),
        spec_uci(spec_legal_coords(p)[i]) == target,
    ensures
        exists|j: int| matches_at(p, target, j),
    decreases i,
{
    if forall|k: int| 0 <= k < i ==> spec_uci(#[trigger] spec_legal_coords(p)[k]) != target {
        assert(matches_at(p, target, i));
    } else {
        let k = choose|k: int|
            0 <= k < i && spec_uci(#[trigger] spec_legal_coords(p)[k]) == target;
        lemma_first_match_exists(p, target, k);
    }
}

/// Round trip of the notation codec over a position's legal moves:
/// resolving the notation of any legal move finds a legal move again — an
/// index into the legal move list, no later than the move itself, with the
/// very same coordinates — and finds the move itself wherever its
/// coordinates are unique among the legal moves.
pub proof fn lemma_position_round_trip(p: shakmaty::Chess, i: int)
    requires
        0 <= i < spec_legal_coords(p).len(),
        forall|k: int|
            0 <= k < spec_legal_coords(p).len() ==> crate::codec::coords_wf(
                #[trigger] spec_legal_coords(p)[k],
            ),
    ensures
        exists|j: int|
            #[trigger] matches_at(p, spec_lower(spec_uci(spec_legal_coords(p)[i])), j) && j <= i
                && spec_legal_coords(p)[j] == spec_legal_coords(p)[i],
        (forall|k: int|
            0 <= k < spec_legal_coords(p).len() && k != i ==> #[trigger] spec_legal_coords(p)[k]
                != spec_legal_coords(p)[i]) ==> matches_at(
            p,
            spec_lower(spec_uci(spec_legal_coords(p)[i])),
            i,
        ),
{
    let target = spec_lower(spec_uci(spec_legal_coords(p)[i]));
    crate::codec::lemma_uci_lower(spec_legal_coords(p)[i]);
    lemma_first_match_exists(p, target, i);
    let j = choose|j: int| matches_at(p, target, j);
    if j > i {
        assert(spec_uci(spec_legal_coords(p)[i]) != target);
    }
    crate::codec::lemma_uci_injective(spec_legal_coords(p)[j], spec_legal_coords(p)[i]);
    assert(matches_at(p, target, j) && j <= i && spec_legal_coords(p)[j] == spec_legal_coords(
        p,
    )[i]);
    if forall|k: int|
        0 <= k < spec_legal_coords(p).len() && k != i ==> #[trigger] spec_legal_coords(p)[k]
            != spec_legal_coords(p)[i] {
        assert(j == i);
    }
}

/// No match anywhere decides the decode result too.
pub proof fn lemma_decode_none(p: shakmaty::Chess, target: Seq<char>)
    requires
        match_fails(p, target),
    ensures
        decode_index(p, target) is None,
{
    if exists|i: int| matches_at(p, target, i) {
        let i = choose|i: int| matches_at(p, target, i);
        assert(spec_uci(spec_legal_coords(p)[i]) != target);
    }
}

/// The piece the standard initial position holds on square `sq`.
pub open spec fn spec_initial_square(sq: int) -> Option<BoardPiece> {
    let rank = sq / 8;
    let file = sq % 8;
    if rank == 1 {
        Some(BoardPiece { color: PieceColor::White, role: Role::Pawn })
    } else if rank == 6 {
        Some(BoardPiece { color: PieceColor::Black, role: Role::Pawn })
    } else if rank == 0 {
        Some(BoardPiece { color: PieceColor::White, role: spec_back_rank_role(file) })
    } else if rank == 7 {
        Some(BoardPiece { color: PieceColor::Black, role: spec_back_rank_role(file) })
    } else {
        None
    }
}

/// The piece kind of the back rank, by file.
pub open spec fn spec_back_rank_role(file: int) -> Role {
    if file == 0 || file == 7 {
        Role::Rook
    } else if file == 1 || file == 6 {
        Role::Knight
    } else if file == 2 || file == 5 {
        Role::Bishop
    } else if file == 3 {
        Role::Queen
    } else {
        Role::King
    }
}

/// Relies on shakmaty's `Chess::default`: the standard initial position,
/// white to move.
#[verifier::external_body]
pub fn initial_chess() -> (r: shakmaty::Chess)
    ensures
        turn_of(r) == PieceColor::White,
        forall|sq: int| 0 <= sq < 64 ==> #[trigger] piece_on(r, sq) == spec_initial_square(sq),
{
    shakmaty::Chess::default()
}

/// Relies on shakmaty's `Board::piece_at`: the piece on one square, a
/// function of the position alone.
#[verifier::external_body]
fn ex_piece_at(p: &shakmaty::Chess, sq: u8) -> (r: Option<BoardPiece>)
    requires
        sq < 64,
    ensures
        r == piece_on(*p, sq as int),
{
    p.board().piece_at(shakmaty::Square::new(sq as u32)).map(|piece| BoardPiece {
        color: match piece.color {
            shakmaty::Color::White => PieceColor::White,
            shakmaty::Color::Black => PieceColor::Black,
        },
        role: match piece.role {
            shakmaty::Role::Pawn => Role::Pawn,
            shakmaty::Role::Knight => Role::Knight,
            shakmaty::Role::Bishop => Role::Bishop,
            shakmaty::Role::Rook => Role::Rook,
            shakmaty::Role::Queen => Role::Queen,
            shakmaty::Role::King => Role::King,
        },
    })
}

/// Relies on shakmaty's `Position::turn`: the side to move.
#[verifier::external_body]
pub fn ex_turn(p: &shakmaty::Chess) -> (r: PieceColor)
    ensures
        r == turn_of(*p),
{
    match p.turn() {
        shakmaty::Color::White => PieceColor::White,
        shakmaty::Color::Black => PieceColor::Black,
    }
}

/// Relies on shakmaty's `Position::legal_moves`: all legal moves of the
/// position, in the engine's deterministic enumeration order.
#[verifier::external_body]
pub fn ex_legal_moves(p: &shakmaty::Chess) -> (r: Vec<shakmaty::Move>)
    ensures
        r@ == legal_moves_of(*p),
{
    p.legal_moves().into_iter().collect()
}

/// Relies on shakmaty's `Move::from`: the source square, none for drops;
/// a square index is below 64.
#[verifier::external_body]
fn ex_move_from(m: &shakmaty::Move) -> (r: Option<u8>)
    ensures
        r == from_sq_of(*m),
        r is Some ==> r->0 < 64,
{
    m.from().map(u8::from)
}

/// Relies on shakmaty's `Move::to`: the target square; a square index is
/// below 64.
#[verifier::external_body]
fn ex_move_to(m: &shakmaty::Move) -> (r: u8)
    ensures
        r == to_sq_of(*m),
        r < 64,
{
    u8::from(m.to())
}

/// Relies on the derived `Clone` of shakmaty's `Chess`: a field-for-field
/// copy.
#[verifier::external_body]
pub fn ex_clone_chess(p: &shakmaty::Chess) -> (r: shakmaty::Chess)
    ensures
        r == *p,
{
    p.clone()
}

/// Relies on the derived `Clone` of shakmaty's `Move`: a field-for-field
/// copy.
#[verifier::external_body]
pub fn ex_clone_move(m: &shakmaty::Move) -> (r: shakmaty::Move)
    ensures
        r == *m,
{
    m.clone()
}

/// Relies on shakmaty's `Position::play`: succeeds exactly on legal moves
/// and returns the resulting position, a function of position and move.
#[verifier::external_body]
pub fn ex_play(p: &shakmaty::Chess, m: &shakmaty::Move) -> (r: Option<shakmaty::Chess>)
    ensures
        legal_moves_of(*p).contains(*m) ==> r is Some,
        r is Some ==> r->0 == play_of(*p, *m),
{
    p.clone().play(m).ok()
}

/// Relies on shakmaty's `Position::is_game_over`: whether the game has
/// ended by checkmate, stalemate or insufficient material.
#[verifier::external_body]
pub fn ex_is_game_over(p: &shakmaty::Chess) -> (r: bool)
    ensures
        r == is_over_of(*p),
{
    p.is_game_over()
}

/// Relies on shakmaty's `Position::outcome`: the winner or a draw once
/// the game is over, nothing while it is open.
#[verifier::external_body]
pub fn ex_outcome(p: &shakmaty::Chess) -> (r: Option<GameOutcome>)
    ensures
        r == outcome_of(*p),
{
    match p.outcome() {
        Some(shakmaty::Outcome::Decisive { winner: shakmaty::Color::White }) => Some(
            GameOutcome::WhiteWins,
        ),
        Some(shakmaty::Outcome::Decisive { winner: shakmaty::Color::Black }) => Some(
            GameOutcome::BlackWins,
        ),
        Some(shakmaty::Outcome::Draw) => Some(GameOutcome::Draw),
        None => None,
    }
}

/// Relies on shakmaty's `san::San::from_ascii` and `San::to_move`:
/// parsing and resolving a SAN string is a function of the text and the
/// position, and a resolved move is drawn from the legal moves.
#[verifier::external_body]
pub fn ex_san_to_move(p: &shakmaty::Chess, input: &Vec<char>) -> (r: Option<shakmaty::Move>)
    ensures
        r == san_move_of(*p, input@),
        r is Some ==> legal_moves_of(*p).contains(r->0),
{
    let text: String = input.iter().collect();
    match shakmaty::san::San::from_ascii(text.as_bytes()) {
        Ok(san) => san.to_move(p).ok(),
        Err(_) => None,
    }
}

/// Reads the whole board of a position into a 64-square snapshot.
pub fn board_grid(p: &shakmaty::Chess) -> (r: Vec<Option<BoardPiece>>)
    ensures
        r@.len() == 64,
        forall|sq: int| 0 <= sq < 64 ==> #[trigger] r@[sq] == piece_on(*p, sq),
{
    let mut out: Vec<Option<BoardPiece>> = Vec::new();
    let mut sq: u8 = 0;
    while sq < 64
        invariant
            sq <= 64,
            out@.len() == sq,
            forall|j: int| 0 <= j < sq ==> #[trigger] out@[j] == piece_on(*p, j),
        decreases 64 - sq,
    {
        out.push(ex_piece_at(p, sq));
        sq = sq + 1;
    }
    out
}

/// Reads the coordinates of one move.
pub fn move_coords(m: &shakmaty::Move) -> (r: MoveCoords)
    ensures
        r == spec_move_coords(*m),
        coords_wf(r),
{
    MoveCoords { from: ex_move_from(m), to: ex_move_to(m) }
}

/// The legal moves of a position together with their coordinates.
pub fn legal_moves_with_coords(p: &shakmaty::Chess) -> (r: (Vec<shakmaty::Move>, Vec<MoveCoords>))
    ensures
        r.0@ == legal_moves_of(*p),
        r.1@ == spec_legal_coords(*p),
        forall|i: int| 0 <= i < r.1@.len() ==> coords_wf(#[trigger] r.1@[i]),
{
    let moves = ex_legal_moves(p);
    let mut coords: Vec<MoveCoords> = Vec::new();
    let mut i: usize = 0;
    while i < moves.len()
        invariant
            moves@ == legal_moves_of(*p),
            i <= moves@.len(),
            coords@.len() == i,
            forall|j: int| 0 <= j < i ==> #[trigger] coords@[j] == spec_move_coords(moves@[j]),
            forall|j: int| 0 <= j < i ==> coords_wf(#[trigger] coords@[j]),
        decreases moves@.len() - i,
    {
        let mc = move_coords(&moves[i]);
        coords.push(mc);
        i = i + 1;
    }
    proof {
        assert(coords@ =~= spec_legal_coords(*p));
    }
    (moves, coords)
}

/// Finds the first legal move of `p` whose coordinate notation is exactly
/// `target`, and hands it out together with its index.
pub fn find_legal_by_uci(p: &shakmaty::Chess, target: &Vec<char>) -> (r: Option<
    (shakmaty::Move, usize),
>)
    ensures
        match r {
            Some(pair) => matches_at(*p, target@, pair.1 as int) && pair.0 == legal_moves_of(
                *p,
            )[pair.1 as int],
            None => match_fails(*p, target@),
        },
{
    let (moves, coords) = legal_moves_with_coords(p);
    match crate::codec::find_uci_match(&coords, target) {
        Some(i) => {
            let mv = ex_clone_move(&moves[i]);
            Some((mv, i))
        },
        None => None,
    }
}

/// Resolves a user-typed move string against the current position: fold
/// to lowercase, then take the first legal move whose coordinate notation
/// matches.
pub fn parse_uci_move(p: &shakmaty::Chess, input: &Vec<char>) -> (r: Option<
    (shakmaty::Move, usize),
>)
    ensures
        match r {
            Some(pair) => matches_at(*p, spec_lower(input@), pair.1 as int) && pair.0
                == legal_moves_of(*p)[pair.1 as int],
            None => match_fails(*p, spec_lower(input@)),
        },
{
    let lowered = crate::text::to_lower(input);
    find_legal_by_uci(p, &lowered)
}

} // verus!
