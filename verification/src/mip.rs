//! The sizes of a mip chain: how many levels an image has, and how large
//! each is.

use vstd::prelude::*;
use vstd::arithmetic::logarithm::{log, lemma_log0, lemma_log_s};
use vstd::arithmetic::power2::{pow2, lemma2_to64, lemma_pow2_unfold};

verus! {

/// The number of mip levels of a full chain under an image of `width` by
/// `height`: one more than the integer logarithm to base 2 of the larger
/// side.
pub open spec fn mip_levels(width: u32, height: u32) -> int {
    log(2, (if width >= height { width } else { height }) as int) + 1
}

/// The next smaller size of one side of a mip level.
pub open spec fn halve(side: u32) -> u32 {
    if side > 1 {
        side / 2
    } else {
        side
    }
}

/// The size of one side at mip level `level`, where level 0 has `side`.
pub open spec fn mip_extent(side: u32, level: nat) -> u32
    decreases level,
{
    if level == 0 {
        side
    } else {
        halve(mip_extent(side, (level - 1) as nat))
    }
}

/// The size of one side of the region that a blit writes, for a source
/// region of `side`: half of it, and never less than 1.
pub open spec fn blit_target(side: u32) -> u32 {
    if side > 1 {
        side / 2
    } else {
        1
    }
}

/// The number of mip levels of a full chain under an image of `width` by
/// `height`.
pub fn mip_level_count(width: u32, height: u32) -> (levels: u32)
    ensures
        levels == mip_levels(width, height),
        1 <= levels <= 32,
{
    let largest: u32 = if width >= height {
        width
    } else {
        height
    };
    let mut rest: u32 = largest;
    let mut levels: u32 = 1;
    proof {
        lemma2_to64();
    }
    while rest > 1
        invariant
            1 <= levels <= 32,
            levels + log(2, rest as int) == log(2, largest as int) + 1,
            rest < pow2((33 - levels) as nat),
        decreases rest,
    {
        proof {
            lemma_log_s(2, rest as int);
            lemma2_to64();
            lemma_pow2_unfold((33 - levels) as nat);
        }
        rest = rest / 2;
        levels = levels + 1;
    }
    proof {
        lemma_log0(2, rest as int);
    }
    levels
}

/// The integer logarithm to base 2 brackets its argument between two powers
/// of 2.
pub proof fn lemma_log2_brackets(n: int)
    requires
        n >= 1,
    ensures
        log(2, n) >= 0,
        pow2(log(2, n) as nat) <= n < pow2((log(2, n) + 1) as nat),
    decreases n,
{
    lemma2_to64();
    if n < 2 {
        lemma_log0(2, n);
    } else {
        lemma_log_s(2, n);
        lemma_log2_brackets(n / 2);
        lemma_pow2_unfold(log(2, n) as nat);
        lemma_pow2_unfold((log(2, n) + 1) as nat);
    }
}

/// The number of mip levels is one more than the number of times the
/// larger side can be halved before it is 1: with `levels` levels,
/// `2^(levels - 1)` is at most the larger side, and `2^levels` is more.
pub proof fn lemma_mip_levels_bracket(width: u32, height: u32)
    requires
        width >= 1 || height >= 1,
    ensures
        mip_levels(width, height) >= 1,
        pow2((mip_levels(width, height) - 1) as nat) <= (if width >= height {
            width
        } else {
            height
        }) < pow2(mip_levels(width, height) as nat),
{
    let largest = if width >= height {
        width
    } else {
        height
    };
    lemma_log2_brackets(largest as int);
}

/// A side that has been halved `level` times is still at least 1, and
/// either it is 1 or `2^level` times it is at most the side it came from.
pub proof fn lemma_mip_extent_bounds(side: u32, level: nat)
    requires
        side >= 1,
    ensures
        mip_extent(side, level) >= 1,
        mip_extent(side, level) == 1 || mip_extent(side, level) * pow2(level) <= side,
    decreases level,
{
    lemma2_to64();
    if level > 0 {
        lemma_mip_extent_bounds(side, (level - 1) as nat);
        lemma_pow2_unfold(level);
        let above = mip_extent(side, (level - 1) as nat);
        if above > 1 {
            assert((above / 2) * (2 * pow2((level - 1) as nat)) <= above * pow2(
                (level - 1) as nat,
            )) by (nonlinear_arith)
                requires
                    above >= 0,
                    pow2((level - 1) as nat) >= 0,
            ;
        }
    }
}

/// A full mip chain ends in a single texel: the last of the levels counted
/// by [`mip_levels`] is 1 by 1, for every image that is not empty.
pub proof fn lemma_full_chain_ends_in_one_texel(width: u32, height: u32)
    requires
        width >= 1,
        height >= 1,
    ensures
        mip_extent(width, (mip_levels(width, height) - 1) as nat) == 1,
        mip_extent(height, (mip_levels(width, height) - 1) as nat) == 1,
{
    lemma_mip_levels_bracket(width, height);
    let last = (mip_levels(width, height) - 1) as nat;
    lemma_mip_extent_bounds(width, last);
    lemma_mip_extent_bounds(height, last);
    lemma_pow2_unfold((last + 1) as nat);
    let w = mip_extent(width, last);
    let h = mip_extent(height, last);
    if w > 1 {
        assert(2 * pow2(last) <= w * pow2(last)) by (nonlinear_arith)
            requires
                w >= 2,
                pow2(last) >= 0,
        ;
    }
    if h > 1 {
        assert(2 * pow2(last) <= h * pow2(last)) by (nonlinear_arith)
            requires
                h >= 2,
                pow2(last) >= 0,
        ;
    }
}

} // verus!
