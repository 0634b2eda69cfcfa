use super::constants::CB_RANK_1;
use crate::engine::position::{moves_after_pass, legal_moves_from, Layout, Position, PositionView};
use crate::misc::bits::{lemma_ones8_union, lemma_ones_bounds, lemma_ones_first_rank, ones, ones8};
use crate::misc::types::MoveScore;
use vstd::prelude::*;
use vstd::std_specs::bits::{axiom_u64_trailing_zeros, u64_trailing_zeros};

verus! {

/// Every square that lies on or to the north of a set square of `p`.
pub open spec fn north_fill_spec(p: u64) -> u64 {
    p | (p << 8) | (p << 16) | (p << 24) | (p << 32) | (p << 40) | (p << 48) | (p << 56)
}

/// Every square that lies on or to the south of a set square of `p`.
pub open spec fn south_fill_spec(p: u64) -> u64 {
    p | (p >> 8) | (p >> 16) | (p >> 24) | (p >> 32) | (p >> 40) | (p >> 48) | (p >> 56)
}

/// Every square on a file that holds a set square of `p`.
pub open spec fn file_fill_spec(p: u64) -> u64 {
    north_fill_spec(p) | south_fill_spec(p)
}

/// The files that hold a set square of `p`, as a set of squares on the first rank.
pub open spec fn files_of(p: u64) -> u64 {
    (p & 0xff) | ((p >> 8) & 0xff) | ((p >> 16) & 0xff) | ((p >> 24) & 0xff) | ((p >> 32) & 0xff)
        | ((p >> 40) & 0xff) | ((p >> 48) & 0xff) | ((p >> 56) & 0xff)
}

/// The number of set squares of `pp` beyond the first one on each file.
pub open spec fn multiple_on_file_spec(pp: u64) -> int {
    ones(pp) - ones(files_of(pp))
}

/// Fill the bitboard to the north of the set field.
pub fn north_fill(p: u64) -> (r: u64)
    ensures
        r == north_fill_spec(p),
{
    let mut result = p | (p << 8);
    result = result | (result << 16);
    let filled = result | (result << 32);
    assert(filled == north_fill_spec(p)) by (bit_vector)
        requires
            filled == (p | (p << 8) | ((p | (p << 8)) << 16)) | ((p | (p << 8) | ((p | (p << 8))
                << 16)) << 32),
    ;
    filled
}

/// Fill the bitboard to the south of the set field.
pub fn south_fill(p: u64) -> (r: u64)
    ensures
        r == south_fill_spec(p),
{
    let mut result = p | (p >> 8);
    result = result | (result >> 16);
    let filled = result | (result >> 32);
    assert(filled == south_fill_spec(p)) by (bit_vector)
        requires
            filled == (p | (p >> 8) | ((p | (p >> 8)) >> 16)) | ((p | (p >> 8) | ((p | (p >> 8))
                >> 16)) >> 32),
    ;
    filled
}

/// Fill the file of the set field.
pub fn file_fill(p: u64) -> (r: u64)
    ensures
        r == file_fill_spec(p),
{
    north_fill(p) | south_fill(p)
}

/// The first rank of a filled file is the set of files that the bitboard touches, and no file
/// is counted more often than it has set squares.
pub proof fn lemma_files_of(p: u64)
    ensures
        file_fill_spec(p) & CB_RANK_1 == files_of(p),
        files_of(p) <= 0xff,
        0 <= ones(files_of(p)) <= ones(p),
{
    reveal(ones);
    assert(file_fill_spec(p) & 0xff == files_of(p) && files_of(p) <= 0xff) by (bit_vector);
    let b0 = p & 0xff;
    let b1 = (p >> 8) & 0xff;
    let b2 = (p >> 16) & 0xff;
    let b3 = (p >> 24) & 0xff;
    let b4 = (p >> 32) & 0xff;
    let b5 = (p >> 40) & 0xff;
    let b6 = (p >> 48) & 0xff;
    let b7 = (p >> 56) & 0xff;
    lemma_ones8_union(b0, b1);
    lemma_ones8_union(b0 | b1, b2);
    lemma_ones8_union(b0 | b1 | b2, b3);
    lemma_ones8_union(b0 | b1 | b2 | b3, b4);
    lemma_ones8_union(b0 | b1 | b2 | b3 | b4, b5);
    lemma_ones8_union(b0 | b1 | b2 | b3 | b4 | b5, b6);
    lemma_ones8_union(b0 | b1 | b2 | b3 | b4 | b5 | b6, b7);
    lemma_ones_first_rank(files_of(p));
    lemma_ones_bounds(files_of(p));
}

/// Give all double or multiple pawns.
pub fn multiple_on_file(pp: u64) -> (r: u32)
    ensures
        r == multiple_on_file_spec(pp),
        r <= 64,
{
    proof {
        lemma_files_of(pp);
        lemma_ones_bounds(pp);
    }
    pp.count_ones() - (file_fill(pp) & CB_RANK_1).count_ones()
}

/// The files without pawns.
pub open spec fn open_files_spec(l: Layout) -> u64 {
    !file_fill_spec(l.pawns)
}

/// The files with pawns of one colour only.
pub open spec fn half_open_files_spec(l: Layout) -> u64 {
    let white = file_fill_spec(l.pawns & l.white);
    let black = file_fill_spec(l.pawns & l.black);
    (white & !black) | (!white & black)
}

/// The square of the king of one colour: the lowest square of that colour's kings, 64 where
/// there is none.
pub open spec fn king_square(l: Layout, white: bool) -> int {
    if white {
        u64_trailing_zeros(l.kings & l.white) as int
    } else {
        u64_trailing_zeros(l.kings & l.black) as int
    }
}

/// The number of king steps between two squares: the greater of the distances in ranks and
/// in files.
pub open spec fn square_distance(a: int, b: int) -> int {
    let ranks = if a / 8 >= b / 8 {
        a / 8 - b / 8
    } else {
        b / 8 - a / 8
    };
    let files = if a % 8 >= b % 8 {
        a % 8 - b % 8
    } else {
        b % 8 - a % 8
    };
    if ranks >= files {
        ranks
    } else {
        files
    }
}

/// The distance between both kings.
pub open spec fn kings_distance_spec(l: Layout) -> int {
    square_distance(king_square(l, true), king_square(l, false))
}

/// The squares of the king of one colour.
pub open spec fn king_of(l: Layout, white: bool) -> u64 {
    if white {
        l.white & l.kings
    } else {
        l.black & l.kings
    }
}

/// The number of moves that the king of one colour has once the side to move has passed.
pub open spec fn defending_kings_moves_spec(p: PositionView, white: bool) -> nat {
    moves_after_pass(p.fen, king_of(p.layout, white)).len()
}

/// The number of moves that the king of the side to move has.
pub open spec fn own_kings_moves_spec(p: PositionView) -> nat {
    legal_moves_from(p.fen, king_of(p.layout, p.layout.white_to_move)).len()
}

/// The queens, rooks, bishops and knights of one colour.
pub open spec fn qrbn_of(l: Layout, white: bool) -> u64 {
    (l.queens | l.rooks | l.bishops | l.knights) & (if white {
        l.white
    } else {
        l.black
    })
}

/// The moves of the queens, rooks, bishops and knights of the side to move, less those that
/// the other side's have once the side to move has passed.
pub open spec fn count_moves_qrbn_spec(p: PositionView) -> int {
    legal_moves_from(p.fen, qrbn_of(p.layout, p.layout.white_to_move)).len() - moves_after_pass(
        p.fen,
        qrbn_of(p.layout, !p.layout.white_to_move),
    ).len()
}

/// Gives the number of available moves for the defending king: the moves that the king of
/// the given colour has once the side to move has passed, 0 where it cannot pass.
pub fn defending_kings_moves_count(b: &Position, white: bool) -> (r: usize)
    ensures
        r == defending_kings_moves_spec(b@, white),
        r <= crate::engine::position::MAX_MOVES,
        r <= crate::engine::position::MAX_MOVES_OF_A_MAN * ones(king_of(b.layout, white)),
{
    let kings_square = if white {
        b.layout.white & b.layout.kings
    } else {
        b.layout.black & b.layout.kings
    };
    let moves = b.legal_moves_after_pass(kings_square);
    moves.len()
}

/// Gives the number of available moves for the king of the side to move.
pub fn own_kings_moves_count(b: &Position) -> (r: usize)
    ensures
        r == own_kings_moves_spec(b@),
        r <= crate::engine::position::MAX_MOVES,
        r <= crate::engine::position::MAX_MOVES_OF_A_MAN * ones(
            king_of(b.layout, b.layout.white_to_move),
        ),
{
    let kings_square = if b.layout.white_to_move {
        b.layout.white & b.layout.kings
    } else {
        b.layout.black & b.layout.kings
    };
    let moves = b.legal_moves_of(kings_square);
    moves.len()
}

/// The distance between both kings of a layout.
pub fn layout_kings_distance(l: &Layout) -> (r: MoveScore)
    ensures
        r == kings_distance_spec(*l),
        0 <= r <= 8,
{
    broadcast use axiom_u64_trailing_zeros;

    let wk = (l.kings & l.white).trailing_zeros();
    let bk = (l.kings & l.black).trailing_zeros();
    let wr = (wk / 8) as MoveScore;
    let br = (bk / 8) as MoveScore;
    let wf = (wk % 8) as MoveScore;
    let bf = (bk % 8) as MoveScore;
    let ranks = if wr >= br {
        wr - br
    } else {
        br - wr
    };
    let files = if wf >= bf {
        wf - bf
    } else {
        bf - wf
    };
    if ranks >= files {
        ranks
    } else {
        files
    }
}

/// Calculate the distance between both kings.
pub fn kings_distance(b: &Position) -> (r: MoveScore)
    ensures
        r == kings_distance_spec(b.layout),
        0 <= r <= 8,
{
    layout_kings_distance(&b.layout)
}

/// Give all open files (files without pawns).
pub fn open_files(b: &Position) -> (r: u64)
    ensures
        r == open_files_spec(b.layout),
{
    let pawns = b.layout.pawns;
    !file_fill(pawns)
}

/// Give all half open files (files with own pawn, but no oppisite pawn).
pub fn half_open_files(b: &Position) -> (r: u64)
    ensures
        r == half_open_files_spec(b.layout),
{
    let white = file_fill(b.layout.pawns & b.layout.white);
    let black = file_fill(b.layout.pawns & b.layout.black);
    (white & !black) | (!white & black)
}

/// Efficiently count the legal moves for queens, rooks, bishops, and knights.
/// The move count of the defender is subtracted accordingly.
pub fn count_moves_qrbn(b1: &Position) -> (r: MoveScore)
    ensures
        r == count_moves_qrbn_spec(b1@),
{
    let l = &b1.layout;
    let pieces = l.queens | l.rooks | l.bishops | l.knights;
    let (own, other) = if l.white_to_move {
        (l.white, l.black)
    } else {
        (l.black, l.white)
    };
    let mine = b1.legal_moves_of(pieces & own);
    let theirs = b1.legal_moves_after_pass(pieces & other);
    mine.len() as MoveScore - theirs.len() as MoveScore
}

} // verus!
