use super::{
    constants::{
        CB_BOARD_0, CB_BOARD_1, CB_CENTER, CB_CENTER_0, CB_CENTER_0_GOOD, CB_CENTER_1,
        CB_GOOD_BISHOP, CB_GOOD_QUEEN, CB_RANK_1, CB_RANK_2, CB_RANK_3, CB_RANK_6, CB_RANK_7,
        CB_RANK_8, CB_SAFE_KING,
    },
    evaluation::Evaluation,
    helpers::{
        defending_kings_moves_count, defending_kings_moves_spec, file_fill, file_fill_spec,
        files_of, half_open_files_spec, king_of, king_square, kings_distance_spec,
        layout_kings_distance, lemma_files_of, multiple_on_file, multiple_on_file_spec,
        open_files_spec, own_kings_moves_count, own_kings_moves_spec, square_distance,
    },
};
use crate::engine::constants::MATE_LEVEL;
use crate::engine::position::{Layout, Position, PositionView, MAX_MOVES, MAX_MOVES_OF_A_MAN};
use crate::misc::bits::{
    flip_ranks, lemma_flip_ranks_algebra, lemma_flip_ranks_keeps_ones, lemma_ones_bounds,
    lemma_ones_disjoint, lemma_ones_single, lemma_ones_subset, ones,
};
use crate::misc::types::MoveScore;
use vstd::prelude::*;
use vstd::std_specs::bits::{axiom_u64_trailing_zeros, u64_trailing_zeros};

verus! {

/// A simple static evaluation.
#[derive(Default)]
pub struct Simple {}

/// No static value lies further from 0 than this.
pub const EVALUATION_LIMIT: MoveScore = 500_000;

/// What the pieces of one colour are worth where they stand. Ranks are counted from that
/// colour's own side of the board.
#[verifier::opaque]
pub open spec fn side_score_spec(l: Layout, white: bool) -> int {
    let mine = if white {
        l.white
    } else {
        l.black
    };
    let rank1 = if white {
        CB_RANK_1
    } else {
        CB_RANK_8
    };
    let rank6 = if white {
        CB_RANK_6
    } else {
        CB_RANK_3
    };
    let rank7 = if white {
        CB_RANK_7
    } else {
        CB_RANK_2
    };
    let pawns = mine & l.pawns;
    let knights = mine & l.knights;
    let bishops = mine & l.bishops;
    let rooks = mine & l.rooks;
    let queens = mine & l.queens;
    let king = mine & l.kings;
    200 * ones(pawns) + 15 * ones(pawns & CB_CENTER_0_GOOD) + 30 * ones(pawns & CB_CENTER_1) + 50
        * ones(pawns & rank6) + 650 * ones(pawns & rank7) - 30 * multiple_on_file_spec(pawns)
        + 600 * ones(knights) - 29 * ones(knights & CB_BOARD_0) + 620 * ones(bishops) + 950
        * ones(rooks) + 40 * ones(rooks & open_files_spec(l)) + 10 * ones(
        rooks & half_open_files_spec(l),
    ) + 80 * ones(rooks & rank7) + 1800 * ones(queens) - 30 * ones(queens & CB_CENTER) + (if ones(
        l.occupied_spec(),
    ) > 20 {
        20 * ones(bishops & CB_GOOD_BISHOP) + 30 * ones(queens & CB_GOOD_QUEEN) + 150 * ones(
            king & CB_SAFE_KING,
        ) - 51 * ones(knights & rank1) - 100 * ones(bishops & rank1)
    } else {
        0
    })
}

/// What the place of the king of one colour costs that colour when few pieces are left,
/// given the number of moves that this king has: a king that stands at the edge, near the
/// other king and with few moves is a gain for the other side.
#[verifier::opaque]
pub open spec fn kings_value_spec(l: Layout, white: bool, king_moves: int) -> int {
    let king = king_of(l, white);
    50 * ones(king & CB_BOARD_0) - 10 * kings_distance_spec(l) - 10 * king_moves - 80 * ones(
        king & CB_CENTER_0,
    ) - 40 * ones(king & CB_CENTER_1) - 10 * ones(king & CB_BOARD_1)
}

/// What material and position are worth to the side to move: its own pieces less those of
/// the other side.
pub open spec fn base_spec(l: Layout) -> int {
    side_score_spec(l, l.white_to_move) - side_score_spec(l, !l.white_to_move)
}

/// Whether the side to move is ahead in material and position.
pub open spec fn ahead_spec(l: Layout) -> bool {
    base_spec(l) > 0
}

/// The colour of the losing side, as white or not: the side that is not to move where the
/// side to move is ahead, else the side to move.
pub open spec fn losing_side(l: Layout) -> bool {
    if ahead_spec(l) {
        !l.white_to_move
    } else {
        l.white_to_move
    }
}

/// The static value of a layout for the side to move, given the number of moves of the king
/// of the losing side. With fewer than eight pieces on the board the place of that king
/// counts: what it costs the losing side is added for a side to move that is ahead and
/// taken off for one that is not, so that the losing side is driven to the edge and keeps
/// its king in the centre.
pub open spec fn evaluate_spec(l: Layout, king_moves: int) -> int {
    base_spec(l) + (if ones(l.occupied_spec()) < 8 {
        if ahead_spec(l) {
            kings_value_spec(l, !l.white_to_move, king_moves)
        } else {
            -kings_value_spec(l, l.white_to_move, king_moves)
        }
    } else {
        0
    })
}

/// The number of moves of the king of the losing side where fewer than eight pieces are on
/// the board, else 0: for the side that is not to move, the moves that its king has once
/// the side to move has passed.
pub open spec fn losing_kings_moves_spec(p: PositionView) -> nat {
    if ones(p.layout.occupied_spec()) < 8 {
        if ahead_spec(p.layout) {
            defending_kings_moves_spec(p, !p.layout.white_to_move)
        } else {
            own_kings_moves_spec(p)
        }
    } else {
        0
    }
}

/// The static value of a position for the side to move.
pub open spec fn position_value(p: PositionView) -> int {
    evaluate_spec(p.layout, losing_kings_moves_spec(p) as int)
}

/// The number of squares in a set.
pub fn count(x: u64) -> (r: MoveScore)
    ensures
        r == ones(x),
        0 <= r <= 64,
{
    proof {
        lemma_ones_bounds(x);
    }
    x.count_ones() as MoveScore
}

/// What the pieces of one colour are worth where they stand.
pub fn side_score(l: &Layout, white: bool) -> (r: MoveScore)
    ensures
        r == side_score_spec(*l, white),
        -20_000 <= r <= 340_000,
{
    reveal(side_score_spec);
    let (mine, rank1, rank6, rank7) = if white {
        (l.white, CB_RANK_1, CB_RANK_6, CB_RANK_7)
    } else {
        (l.black, CB_RANK_8, CB_RANK_3, CB_RANK_2)
    };
    let b_open_files = !file_fill(l.pawns);
    let white_files = file_fill(l.pawns & l.white);
    let black_files = file_fill(l.pawns & l.black);
    let b_half_open_files = (white_files & !black_files) | (!white_files & black_files);
    let pieces_count = count(l.white | l.black);
    let pawns = mine & l.pawns;
    let knights = mine & l.knights;
    let bishops = mine & l.bishops;
    let rooks = mine & l.rooks;
    let queens = mine & l.queens;
    let king = mine & l.kings;

    let mut value: MoveScore = 0;

    // Rules concerning pawns
    value += count(pawns) * 200;
    value += count(pawns & CB_CENTER_0_GOOD) * 15;
    value += count(pawns & CB_CENTER_1) * 30;
    value += count(pawns & rank6) * 50;
    value += count(pawns & rank7) * 650;
    value -= multiple_on_file(pawns) as MoveScore * 30;

    // Rules concerning knights
    value += count(knights) * 600;
    value -= count(knights & CB_BOARD_0) * 29;

    // Rules concerning bishops
    value += count(bishops) * 620;

    // Rules concerning rooks
    value += count(rooks) * 950;
    value += count(rooks & b_open_files) * 40;
    value += count(rooks & b_half_open_files) * 10;
    value += count(rooks & rank7) * 80;

    // Rules concerning queens
    value += count(queens) * 1800;
    value -= count(queens & CB_CENTER) * 30;

    if pieces_count > 20 {
        value -= count(knights & rank1) * 51;
        value -= count(bishops & rank1) * 100;
        value += count(bishops & CB_GOOD_BISHOP) * 20;
        value += count(queens & CB_GOOD_QUEEN) * 30;
        value += count(king & CB_SAFE_KING) * 150;
    }
    value
}

/// What the place of the king of one colour costs that colour.
pub fn kings_value(l: &Layout, white: bool, king_moves: usize) -> (r: MoveScore)
    requires
        king_moves <= MAX_MOVES,
    ensures
        r == kings_value_spec(*l, white, king_moves as int),
        -60_000 <= r <= 4_000,
{
    reveal(kings_value_spec);
    let king = if white {
        l.white & l.kings
    } else {
        l.black & l.kings
    };
    let distance = layout_kings_distance(l);
    let mut kings_value: MoveScore = 0 - distance * 10;
    kings_value -= king_moves as MoveScore * 10;
    kings_value -= count(king & CB_CENTER_0) * 80;
    kings_value -= count(king & CB_CENTER_1) * 40;
    kings_value -= count(king & CB_BOARD_1) * 10;
    kings_value += count(king & CB_BOARD_0) * 50;
    kings_value
}

/// What material and position are worth to the side to move.
pub fn base_score(l: &Layout) -> (r: MoveScore)
    ensures
        r == base_spec(*l),
        -360_000 <= r <= 360_000,
{
    side_score(l, l.white_to_move) - side_score(l, !l.white_to_move)
}

/// The static value of a layout for the side to move, given the number of moves that the
/// king of the losing side has.
pub fn evaluate_layout(l: &Layout, king_moves: usize) -> (r: MoveScore)
    requires
        king_moves <= MAX_MOVES,
    ensures
        r == evaluate_spec(*l, king_moves as int),
        -EVALUATION_LIMIT <= r <= EVALUATION_LIMIT,
        l.valid() && king_moves <= MAX_MOVES_OF_A_MAN ==> -MATE_LEVEL < r < MATE_LEVEL,
{
    proof {
        if l.valid() && king_moves <= MAX_MOVES_OF_A_MAN {
            law_evaluation_below_mate(*l, king_moves as int);
        }
    }
    let mut value = base_score(l);
    let pieces_count = count(l.white | l.black);
    if pieces_count < 8 {
        if value > 0 {
            value += kings_value(l, !l.white_to_move, king_moves);
        } else {
            value -= kings_value(l, l.white_to_move, king_moves);
        }
    }
    value
}

impl Evaluation for Simple {
    /// A simple static evaluation function for the given board position.
    /// It's purpose is, to serve as a baseline for more sophisticated evaluation functions.
    fn evaluate(b: &Position) -> (r: MoveScore)
        ensures
            r == position_value(b@),
            -EVALUATION_LIMIT <= r <= EVALUATION_LIMIT,
            b.layout.valid() ==> -MATE_LEVEL < r < MATE_LEVEL,
    {
        proof {
            if b.layout.valid() {
                lemma_one_king(b.layout, true);
                lemma_one_king(b.layout, false);
            }
        }
        let king_moves = if count(b.layout.white | b.layout.black) < 8 {
            if base_score(&b.layout) > 0 {
                defending_kings_moves_count(b, !b.layout.white_to_move)
            } else {
                own_kings_moves_count(b)
            }
        } else {
            0
        };
        evaluate_layout(&b.layout, king_moves)
    }
}

/// Mirrored sets of squares meet in the mirror image of where the sets meet, which holds
/// as many squares.
pub proof fn lemma_mirrored_count(a: u64, b: u64, c: u64)
    ensures
        ones((flip_ranks(a) & flip_ranks(b)) & flip_ranks(c)) == ones((a & b) & c),
        ones(flip_ranks(a) & flip_ranks(b)) == ones(a & b),
        ones(flip_ranks(a) | flip_ranks(b)) == ones(b | a),
{
    assert((flip_ranks(a) & flip_ranks(b)) & flip_ranks(c) == flip_ranks((a & b) & c)
        && flip_ranks(a) & flip_ranks(b) == flip_ranks(a & b) && flip_ranks(a) | flip_ranks(b)
        == flip_ranks(b | a)) by (bit_vector);
    lemma_flip_ranks_keeps_ones((a & b) & c);
    lemma_flip_ranks_keeps_ones(a & b);
    lemma_flip_ranks_keeps_ones(b | a);
}

/// The regions of the board that the evaluation knows are their own mirror images, and the
/// ranks change places.
pub proof fn lemma_mirrored_regions()
    ensures
        flip_ranks(CB_CENTER) == CB_CENTER,
        flip_ranks(CB_CENTER_0) == CB_CENTER_0,
        flip_ranks(CB_CENTER_1) == CB_CENTER_1,
        flip_ranks(CB_BOARD_0) == CB_BOARD_0,
        flip_ranks(CB_BOARD_1) == CB_BOARD_1,
        flip_ranks(CB_CENTER_0_GOOD) == CB_CENTER_0_GOOD,
        flip_ranks(CB_SAFE_KING) == CB_SAFE_KING,
        flip_ranks(CB_GOOD_BISHOP) == CB_GOOD_BISHOP,
        flip_ranks(CB_GOOD_QUEEN) == CB_GOOD_QUEEN,
        flip_ranks(CB_RANK_1) == CB_RANK_8,
        flip_ranks(CB_RANK_2) == CB_RANK_7,
        flip_ranks(CB_RANK_3) == CB_RANK_6,
        flip_ranks(CB_RANK_6) == CB_RANK_3,
        flip_ranks(CB_RANK_7) == CB_RANK_2,
        flip_ranks(CB_RANK_8) == CB_RANK_1,
{
    assert(flip_ranks(0x00003C3C3C3C0000) == 0x00003C3C3C3C0000 && flip_ranks(0x00003c24243c0000)
        == 0x00003c24243c0000 && flip_ranks(0x0000001818000000) == 0x0000001818000000
        && flip_ranks(0xff818181818181ff) == 0xff818181818181ff && flip_ranks(0x007e424242427e00)
        == 0x007e424242427e00 && flip_ranks(0x182424180000) == 0x182424180000 && flip_ranks(
        0xc3000000000000c3,
    ) == 0xc3000000000000c3 && flip_ranks(0x42006666004200) == 0x42006666004200 && flip_ranks(
        0x3c1800000000183c,
    ) == 0x3c1800000000183c && flip_ranks(0xff) == 0xff00000000000000 && flip_ranks(0xff00)
        == 0xff000000000000 && flip_ranks(0xff0000) == 0xff0000000000 && flip_ranks(
        0xff0000000000,
    ) == 0xff0000 && flip_ranks(0xff000000000000) == 0xff00 && flip_ranks(0xff00000000000000)
        == 0xff) by (bit_vector);
}

/// Files stay files in the mirror: the open and the half-open files of the mirrored layout
/// are the mirror images of those of the layout, and a set of squares has as many
/// squares on files of their own as its mirror image.
pub proof fn lemma_mirrored_files(l: Layout, x: u64)
    ensures
        open_files_spec(l.mirror_color_spec()) == flip_ranks(open_files_spec(l)),
        half_open_files_spec(l.mirror_color_spec()) == flip_ranks(half_open_files_spec(l)),
        multiple_on_file_spec(flip_ranks(x)) == multiple_on_file_spec(x),
{
    let p = l.pawns;
    let w = l.white;
    let b = l.black;
    assert(!file_fill_spec(flip_ranks(p)) == flip_ranks(!file_fill_spec(p))) by (bit_vector);
    assert((file_fill_spec(flip_ranks(p) & flip_ranks(b)) & !file_fill_spec(
        flip_ranks(p) & flip_ranks(w),
    )) | (!file_fill_spec(flip_ranks(p) & flip_ranks(b)) & file_fill_spec(
        flip_ranks(p) & flip_ranks(w),
    )) == flip_ranks(
        (file_fill_spec(p & w) & !file_fill_spec(p & b)) | (!file_fill_spec(p & w)
            & file_fill_spec(p & b)),
    )) by (bit_vector);
    assert(files_of(flip_ranks(x)) == files_of(x)) by (bit_vector);
    lemma_flip_ranks_keeps_ones(x);
}

/// What the pieces of one colour are worth is what the pieces of the other colour are worth
/// in the mirrored layout.
pub proof fn lemma_side_score_mirrored(l: Layout, white: bool)
    ensures
        side_score_spec(l.mirror_color_spec(), !white) == side_score_spec(l, white),
{
    reveal(side_score_spec);
    let m = l.mirror_color_spec();
    let mine = if white {
        l.white
    } else {
        l.black
    };
    let rank1 = if white {
        CB_RANK_1
    } else {
        CB_RANK_8
    };
    let rank6 = if white {
        CB_RANK_6
    } else {
        CB_RANK_3
    };
    let rank7 = if white {
        CB_RANK_7
    } else {
        CB_RANK_2
    };
    lemma_mirrored_regions();
    lemma_mirrored_files(l, mine & l.pawns);
    assert(flip_ranks(mine) & flip_ranks(l.pawns) == flip_ranks(mine & l.pawns)) by {
        lemma_flip_ranks_algebra(mine, l.pawns);
    }
    lemma_mirrored_count(l.black, l.white, 0);
    lemma_mirrored_count(mine, l.pawns, CB_CENTER_0_GOOD);
    lemma_mirrored_count(mine, l.pawns, CB_CENTER_1);
    lemma_mirrored_count(mine, l.pawns, rank6);
    lemma_mirrored_count(mine, l.pawns, rank7);
    lemma_mirrored_count(mine, l.knights, CB_BOARD_0);
    lemma_mirrored_count(mine, l.knights, rank1);
    lemma_mirrored_count(mine, l.bishops, rank1);
    lemma_mirrored_count(mine, l.bishops, CB_GOOD_BISHOP);
    lemma_mirrored_count(mine, l.rooks, open_files_spec(l));
    lemma_mirrored_count(mine, l.rooks, half_open_files_spec(l));
    lemma_mirrored_count(mine, l.rooks, rank7);
    lemma_mirrored_count(mine, l.queens, CB_CENTER);
    lemma_mirrored_count(mine, l.queens, CB_GOOD_QUEEN);
    lemma_mirrored_count(mine, l.kings, CB_SAFE_KING);
}

/// The king of a side stands in the mirrored layout on the mirror image of where the king
/// of the other side stands: on the same file, and as far from the eighth rank as that
/// from the first.
pub proof fn lemma_king_square_mirrored(kings: u64, side: u64)
    requires
        exists|s: u64| s < 64 && kings & side == 1u64 << s,
    ensures
        0 <= u64_trailing_zeros(kings & side) < 64,
        u64_trailing_zeros(flip_ranks(kings) & flip_ranks(side)) / 8 == 7 - u64_trailing_zeros(
            kings & side,
        ) / 8,
        u64_trailing_zeros(flip_ranks(kings) & flip_ranks(side)) % 8 == u64_trailing_zeros(
            kings & side,
        ) % 8,
{
    let s = choose|s: u64| s < 64 && kings & side == 1u64 << s;
    let x = kings & side;
    let y = flip_ranks(kings) & flip_ranks(side);
    let t = s ^ 56;
    assert(y == 1u64 << t && t < 64 && t / 8 == 7 - s / 8 && t % 8 == s % 8 && x != 0 && y != 0)
        by (bit_vector)
        requires
            s < 64,
            x == kings & side,
            x == 1u64 << s,
            y == flip_ranks(kings) & flip_ranks(side),
            t == s ^ 56,
    ;
    lemma_single_bit(s);
    lemma_single_bit(t);
}

/// The lowest set bit of a set with one square is that square.
pub proof fn lemma_single_bit(s: u64)
    requires
        s < 64,
    ensures
        u64_trailing_zeros(1u64 << s) == s,
{
    let x = 1u64 << s;
    axiom_u64_trailing_zeros(x);
    assert(x != 0) by (bit_vector)
        requires
            s < 64,
            x == 1u64 << s,
    ;
    let z = u64_trailing_zeros(x) as u64;
    assert(z == s) by (bit_vector)
        requires
            s < 64,
            z < 64,
            x == 1u64 << s,
            (x >> z) & 1 == 1,
    ;
}

/// The place of a king costs its side the same in the mirrored layout, where it is the
/// king of the other colour.
pub proof fn lemma_kings_value_mirrored(l: Layout, white: bool, king_moves: int)
    requires
        l.wf(),
    ensures
        kings_value_spec(l.mirror_color_spec(), !white, king_moves) == kings_value_spec(
            l,
            white,
            king_moves,
        ),
{
    reveal(kings_value_spec);
    lemma_mirrored_regions();
    let mine = if white {
        l.white
    } else {
        l.black
    };
    lemma_mirrored_count(mine, l.kings, CB_BOARD_0);
    lemma_mirrored_count(mine, l.kings, CB_BOARD_1);
    lemma_mirrored_count(mine, l.kings, CB_CENTER_0);
    lemma_mirrored_count(mine, l.kings, CB_CENTER_1);
    lemma_king_square_mirrored(l.kings, l.white);
    lemma_king_square_mirrored(l.kings, l.black);
}

/// Symmetry: the value of a position for the side to move is the value of the mirrored
/// position, in which the colours are exchanged, the board is turned upside down and the
/// other side is to move, for the side that is to move there.
pub proof fn law_evaluation_of_mirror(l: Layout, king_moves: int)
    requires
        l.wf(),
    ensures
        evaluate_spec(l.mirror_color_spec(), king_moves) == evaluate_spec(l, king_moves),
{
    lemma_side_score_mirrored(l, l.white_to_move);
    lemma_side_score_mirrored(l, !l.white_to_move);
    lemma_kings_value_mirrored(l, l.white_to_move, king_moves);
    lemma_kings_value_mirrored(l, !l.white_to_move, king_moves);
    lemma_mirrored_count(l.black, l.white, 0);
}

/// Symmetry: a position that is worth 0 to the side to move is worth the negated value,
/// which is 0 again, in the mirrored position.
pub proof fn law_evaluation_negates_in_mirror(l: Layout, king_moves: int)
    requires
        l.wf(),
        evaluate_spec(l, king_moves) == 0,
    ensures
        evaluate_spec(l, king_moves) == -evaluate_spec(l.mirror_color_spec(), king_moves),
{
    law_evaluation_of_mirror(l, king_moves);
}

/// Symmetry: what a position is worth to one side is the negated value of what it is
/// worth to the other, so that giving the move away negates the value. With fewer than
/// eight pieces on the board this holds where one side is ahead; the king of the losing
/// side is the same whoever is to move.
pub proof fn law_evaluation_negates_with_the_move(l: Layout, king_moves: int)
    requires
        ones(l.occupied_spec()) >= 8 || base_spec(l) != 0,
    ensures
        evaluate_spec(l.pass_spec(), king_moves) == -evaluate_spec(l, king_moves),
        base_spec(l) != 0 ==> losing_side(l.pass_spec()) == losing_side(l),
{
    reveal(side_score_spec);
    reveal(kings_value_spec);
}

/// In a layout in which each side has one king, the set of the kings of one colour has one
/// member.
pub proof fn lemma_one_king(l: Layout, white: bool)
    requires
        l.wf(),
    ensures
        ones(king_of(l, white)) == 1,
{
    let mine = if white {
        l.white
    } else {
        l.black
    };
    let s = choose|s: u64| s < 64 && l.kings & mine == 1u64 << s;
    let kings = l.kings;
    assert(mine & kings == kings & mine) by (bit_vector);
    lemma_ones_single(s);
}

/// The men of one colour by kind are as many as the men of that colour.
pub proof fn lemma_side_men(l: Layout, white: bool)
    requires
        l.valid(),
    ensures
        ({
            let mine = if white {
                l.white
            } else {
                l.black
            };
            ones(mine & l.pawns) + ones(mine & l.knights) + ones(mine & l.bishops) + ones(
                mine & l.rooks,
            ) + ones(mine & l.queens) + ones(mine & l.kings) == ones(mine)
        }),
{
    let mine = if white {
        l.white
    } else {
        l.black
    };
    let (w, b) = (l.white, l.black);
    let (p, n, bi, r, q, k) = (l.pawns, l.knights, l.bishops, l.rooks, l.queens, l.kings);
    let (mp, mn, mb, mr, mq, mk) = (mine & p, mine & n, mine & bi, mine & r, mine & q, mine & k);
    assert(mp & mn == 0 && (mp | mn) & mb == 0 && ((mp | mn) | mb) & mr == 0 && (((mp | mn) | mb)
        | mr) & mq == 0 && ((((mp | mn) | mb) | mr) | mq) & mk == 0 && (((((mp | mn) | mb) | mr)
        | mq) | mk) == mine) by (bit_vector)
        requires
            mine == w || mine == b,
            w & b == 0,
            p & (n | bi | r | q | k) == 0,
            n & (bi | r | q | k) == 0,
            bi & (r | q | k) == 0,
            r & (q | k) == 0,
            q & k == 0,
            p | n | bi | r | q | k == w | b,
            mp == mine & p,
            mn == mine & n,
            mb == mine & bi,
            mr == mine & r,
            mq == mine & q,
            mk == mine & k,
    ;
    lemma_ones_disjoint(mp, mn);
    lemma_ones_disjoint(mp | mn, mb);
    lemma_ones_disjoint((mp | mn) | mb, mr);
    lemma_ones_disjoint(((mp | mn) | mb) | mr, mq);
    lemma_ones_disjoint((((mp | mn) | mb) | mr) | mq, mk);
}

/// What the men of one colour are worth lies within what sixteen men can be worth.
pub proof fn lemma_side_score_bounds(l: Layout, white: bool)
    requires
        l.valid(),
    ensures
        -1_600 <= side_score_spec(l, white) <= 29_280,
{
    reveal(side_score_spec);
    let mine = if white {
        l.white
    } else {
        l.black
    };
    let rank1 = if white {
        CB_RANK_1
    } else {
        CB_RANK_8
    };
    let rank6 = if white {
        CB_RANK_6
    } else {
        CB_RANK_3
    };
    let rank7 = if white {
        CB_RANK_7
    } else {
        CB_RANK_2
    };
    lemma_side_men(l, white);
    let pawns = mine & l.pawns;
    let knights = mine & l.knights;
    let bishops = mine & l.bishops;
    let rooks = mine & l.rooks;
    let queens = mine & l.queens;
    let king = mine & l.kings;
    lemma_ones_bounds(pawns);
    lemma_ones_bounds(knights);
    lemma_ones_bounds(bishops);
    lemma_ones_bounds(rooks);
    lemma_ones_bounds(queens);
    lemma_ones_bounds(king);
    lemma_files_of(pawns);
    lemma_ones_subset(pawns, CB_CENTER_0_GOOD);
    lemma_ones_subset(pawns, CB_CENTER_1);
    lemma_ones_subset(pawns, rank6);
    lemma_ones_subset(pawns, rank7);
    lemma_ones_subset(knights, CB_BOARD_0);
    lemma_ones_subset(knights, rank1);
    lemma_ones_subset(bishops, rank1);
    lemma_ones_subset(bishops, CB_GOOD_BISHOP);
    lemma_ones_subset(rooks, open_files_spec(l));
    lemma_ones_subset(rooks, half_open_files_spec(l));
    lemma_ones_subset(rooks, rank7);
    lemma_ones_subset(queens, CB_CENTER);
    lemma_ones_subset(queens, CB_GOOD_QUEEN);
    lemma_ones_subset(king, CB_SAFE_KING);
}

/// A static value never reaches the level of a mate: in a layout as the rules of chess
/// have it, and with a king that has no more moves than a man can have, the value lies
/// strictly between the negated mate level and the mate level.
pub proof fn law_evaluation_below_mate(l: Layout, king_moves: int)
    requires
        l.valid(),
        0 <= king_moves <= MAX_MOVES_OF_A_MAN,
    ensures
        -MATE_LEVEL < evaluate_spec(l, king_moves) < MATE_LEVEL,
{
    broadcast use axiom_u64_trailing_zeros;

    reveal(kings_value_spec);
    lemma_side_score_bounds(l, true);
    lemma_side_score_bounds(l, false);
    lemma_ones_bounds(king_of(l, true) & CB_BOARD_0);
    lemma_ones_bounds(king_of(l, true) & CB_BOARD_1);
    lemma_ones_bounds(king_of(l, true) & CB_CENTER_0);
    lemma_ones_bounds(king_of(l, true) & CB_CENTER_1);
    lemma_ones_bounds(king_of(l, false) & CB_BOARD_0);
    lemma_ones_bounds(king_of(l, false) & CB_BOARD_1);
    lemma_ones_bounds(king_of(l, false) & CB_CENTER_0);
    lemma_ones_bounds(king_of(l, false) & CB_CENTER_1);
}

/// Determinism: the value of a position is a function of its layout and of the number of
/// moves of the king of the losing side. Two positions that agree in both have the same
/// value.
pub proof fn law_evaluation_is_a_function(p: PositionView, q: PositionView)
    requires
        p.layout == q.layout,
        losing_kings_moves_spec(p) == losing_kings_moves_spec(q),
    ensures
        position_value(p) == position_value(q),
{
}

} // verus!
