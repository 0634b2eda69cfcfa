use vstd::prelude::*;

verus! {

/// The number of set bits among the lowest eight bits of `b`.
pub open spec fn ones8(b: u64) -> int {
    (b & 1) + ((b >> 1) & 1) + ((b >> 2) & 1) + ((b >> 3) & 1) + ((b >> 4) & 1) + ((b >> 5) & 1)
        + ((b >> 6) & 1) + ((b >> 7) & 1)
}

/// The number of set bits of `x`, counted rank by rank.
#[verifier::opaque]
pub open spec fn ones(x: u64) -> int {
    ones8(x & 0xff) + ones8((x >> 8) & 0xff) + ones8((x >> 16) & 0xff) + ones8((x >> 24) & 0xff)
        + ones8((x >> 32) & 0xff) + ones8((x >> 40) & 0xff) + ones8((x >> 48) & 0xff) + ones8(
        (x >> 56) & 0xff,
    )
}

/// `u64::count_ones` of std returns the number of ones in the binary representation of its
/// argument; the contract states that number as [`ones`].
pub assume_specification[ u64::count_ones ](x: u64) -> (r: u32)
    ensures
        r == ones(x),
;

/// A count of set bits lies between 0 and 8 for one rank.
pub proof fn lemma_ones8_bounds(b: u64)
    by (bit_vector)
    ensures
        0 <= ones8(b) <= 8,
{
}

/// A count of set bits lies between 0 and 64.
pub proof fn lemma_ones_bounds(x: u64)
    ensures
        0 <= ones(x) <= 64,
{
    reveal(ones);
    lemma_ones8_bounds(x & 0xff);
    lemma_ones8_bounds((x >> 8) & 0xff);
    lemma_ones8_bounds((x >> 16) & 0xff);
    lemma_ones8_bounds((x >> 24) & 0xff);
    lemma_ones8_bounds((x >> 32) & 0xff);
    lemma_ones8_bounds((x >> 40) & 0xff);
    lemma_ones8_bounds((x >> 48) & 0xff);
    lemma_ones8_bounds((x >> 56) & 0xff);
}

/// The union of two sets of squares on one rank has no more members than both together.
pub proof fn lemma_ones8_union(a: u64, b: u64)
    by (bit_vector)
    ensures
        ones8(a | b) <= ones8(a) + ones8(b),
{
}

/// A bitboard confined to the first rank is counted by its first rank alone.
pub proof fn lemma_ones_first_rank(y: u64)
    requires
        y <= 0xff,
    ensures
        ones(y) == ones8(y),
{
    reveal(ones);
    assert(y & 0xff == y && (y >> 8) & 0xff == 0 && (y >> 16) & 0xff == 0 && (y >> 24) & 0xff == 0
        && (y >> 32) & 0xff == 0 && (y >> 40) & 0xff == 0 && (y >> 48) & 0xff == 0 && (y >> 56)
        & 0xff == 0) by (bit_vector)
        requires
            y <= 0xff,
    ;
    assert(ones8(0) == 0) by (bit_vector);
}

/// Two sets of squares on one rank that share no square have together as many members as
/// both.
pub proof fn lemma_ones8_disjoint(a: u64, b: u64)
    by (bit_vector)
    requires
        a & b == 0,
    ensures
        ones8(a | b) == ones8(a) + ones8(b),
{
}

/// Two sets of squares that share no square have together as many members as both.
pub proof fn lemma_ones_disjoint(a: u64, b: u64)
    requires
        a & b == 0,
    ensures
        ones(a | b) == ones(a) + ones(b),
{
    reveal(ones);
    let c = a | b;
    assert((a & 0xff) & (b & 0xff) == 0 && c & 0xff == (a & 0xff) | (b & 0xff) && ((a >> 8) & 0xff)
        & ((b >> 8) & 0xff) == 0 && (c >> 8) & 0xff == ((a >> 8) & 0xff) | ((b >> 8) & 0xff) && ((a
        >> 16) & 0xff) & ((b >> 16) & 0xff) == 0 && (c >> 16) & 0xff == ((a >> 16) & 0xff) | ((b
        >> 16) & 0xff) && ((a >> 24) & 0xff) & ((b >> 24) & 0xff) == 0 && (c >> 24) & 0xff == ((a
        >> 24) & 0xff) | ((b >> 24) & 0xff) && ((a >> 32) & 0xff) & ((b >> 32) & 0xff) == 0 && (c
        >> 32) & 0xff == ((a >> 32) & 0xff) | ((b >> 32) & 0xff) && ((a >> 40) & 0xff) & ((b >> 40)
        & 0xff) == 0 && (c >> 40) & 0xff == ((a >> 40) & 0xff) | ((b >> 40) & 0xff) && ((a >> 48)
        & 0xff) & ((b >> 48) & 0xff) == 0 && (c >> 48) & 0xff == ((a >> 48) & 0xff) | ((b >> 48)
        & 0xff) && ((a >> 56) & 0xff) & ((b >> 56) & 0xff) == 0 && (c >> 56) & 0xff == ((a >> 56)
        & 0xff) | ((b >> 56) & 0xff)) by (bit_vector)
        requires
            a & b == 0,
            c == a | b,
    ;
    lemma_ones8_disjoint(a & 0xff, b & 0xff);
    lemma_ones8_disjoint((a >> 8) & 0xff, (b >> 8) & 0xff);
    lemma_ones8_disjoint((a >> 16) & 0xff, (b >> 16) & 0xff);
    lemma_ones8_disjoint((a >> 24) & 0xff, (b >> 24) & 0xff);
    lemma_ones8_disjoint((a >> 32) & 0xff, (b >> 32) & 0xff);
    lemma_ones8_disjoint((a >> 40) & 0xff, (b >> 40) & 0xff);
    lemma_ones8_disjoint((a >> 48) & 0xff, (b >> 48) & 0xff);
    lemma_ones8_disjoint((a >> 56) & 0xff, (b >> 56) & 0xff);
}

/// A part of a set of squares has no more members than the set.
pub proof fn lemma_ones_subset(x: u64, c: u64)
    ensures
        0 <= ones(x & c) <= ones(x),
{
    let inside = x & c;
    let outside = x & !c;
    assert(inside & outside == 0 && inside | outside == x) by (bit_vector)
        requires
            inside == x & c,
            outside == x & !c,
    ;
    lemma_ones_disjoint(inside, outside);
    lemma_ones_bounds(inside);
    lemma_ones_bounds(outside);
}

/// A set of one square has one member.
pub proof fn lemma_ones_single(s: u64)
    requires
        s < 64,
    ensures
        ones(1u64 << s) == 1,
{
    reveal(ones);
    let x = 1u64 << s;
    assert(ones8(x & 0xff) + ones8((x >> 8) & 0xff) + ones8((x >> 16) & 0xff) + ones8(
        (x >> 24) & 0xff,
    ) + ones8((x >> 32) & 0xff) + ones8((x >> 40) & 0xff) + ones8((x >> 48) & 0xff) + ones8(
        (x >> 56) & 0xff,
    ) == 1) by (bit_vector)
        requires
            s < 64,
            x == 1u64 << s,
    ;
}

/// The board seen from the other side: rank 1 becomes rank 8, rank 2 becomes rank 7, and so
/// on; the files stay.
pub open spec fn flip_ranks(x: u64) -> u64 {
    ((x & 0xff) << 56) | (((x >> 8) & 0xff) << 48) | (((x >> 16) & 0xff) << 40) | (((x >> 24)
        & 0xff) << 32) | (((x >> 32) & 0xff) << 24) | (((x >> 40) & 0xff) << 16) | (((x >> 48)
        & 0xff) << 8) | ((x >> 56) & 0xff)
}

/// Mirror a bitboard at the border between the fourth and the fifth rank.
pub fn mirror_ranks(x: u64) -> (r: u64)
    ensures
        r == flip_ranks(x),
{
    ((x & 0xff) << 56) | (((x >> 8) & 0xff) << 48) | (((x >> 16) & 0xff) << 40) | (((x >> 24)
        & 0xff) << 32) | (((x >> 32) & 0xff) << 24) | (((x >> 40) & 0xff) << 16) | (((x >> 48)
        & 0xff) << 8) | ((x >> 56) & 0xff)
}

/// Mirroring twice gives the bitboard back, and mirroring goes through intersections.
pub proof fn lemma_flip_ranks_algebra(x: u64, m: u64)
    by (bit_vector)
    ensures
        flip_ranks(flip_ranks(x)) == x,
        flip_ranks(x & m) == flip_ranks(x) & flip_ranks(m),
        flip_ranks(x | m) == flip_ranks(x) | flip_ranks(m),
{
}

/// Mirroring moves whole ranks, so it keeps the number of set bits.
pub proof fn lemma_flip_ranks_keeps_ones(x: u64)
    ensures
        ones(flip_ranks(x)) == ones(x),
{
    reveal(ones);
    let y = flip_ranks(x);
    assert(y & 0xff == (x >> 56) & 0xff && (y >> 8) & 0xff == (x >> 48) & 0xff && (y >> 16) & 0xff
        == (x >> 40) & 0xff && (y >> 24) & 0xff == (x >> 32) & 0xff && (y >> 32) & 0xff == (x
        >> 24) & 0xff && (y >> 40) & 0xff == (x >> 16) & 0xff && (y >> 48) & 0xff == (x >> 8)
        & 0xff && (y >> 56) & 0xff == x & 0xff) by (bit_vector)
        requires
            y == flip_ranks(x),
    ;
}

} // verus!
