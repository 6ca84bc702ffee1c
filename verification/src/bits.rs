//! Bit-level foundations shared by the bitboard and magic modules: single-bit
//! masks, a verified population count, the carry-rippler subset step, and the
//! bit-vector lemmas the rest of the crate builds on.

use vstd::prelude::*;

verus! {

use vstd::std_specs::bits::u64_trailing_zeros;

/// The bitboard bit standing for square `i`.
pub open spec fn bit64(i: int) -> u64 {
    1u64 << (i as u64)
}

/// Number of set bits among positions `0 .. k` of `x`.
pub open spec fn pc64(x: u64, k: nat) -> nat
    decreases k,
{
    if k == 0 {
        0
    } else {
        pc64(x, (k - 1) as nat) + (if x & bit64(k - 1) != 0 {
            1nat
        } else {
            0nat
        })
    }
}

/// Number of set bits of `x`.
pub open spec fn popcount(x: u64) -> nat {
    pc64(x, 64)
}

/// The carry-rippler step: the next subset of `m` after `s`, in increasing
/// numeric order, cycling back to the empty subset after the full mask.
pub open spec fn next_subset(s: u64, m: u64) -> u64 {
    m & s.wrapping_sub(m)
}

/// The sequence of set-bit positions of `x`, in ascending order.
pub open spec fn sq_seq(x: u64) -> Seq<int>
    decreases x,
{
    if x == 0 {
        Seq::empty()
    } else {
        proof {
            assert(x != 0 ==> (x & ((x - 1) as u64)) < x) by (bit_vector);
        }
        seq![u64_trailing_zeros(x) as int] + sq_seq(x & ((x - 1) as u64))
    }
}

pub proof fn lemma_pc64_bound(x: u64, k: nat)
    ensures
        pc64(x, k) <= k,
    decreases k,
{
    if k > 0 {
        lemma_pc64_bound(x, (k - 1) as nat);
    }
}

/// Counts the set bits of `x`.
pub fn popcount_exec(x: u64) -> (c: u32)
    ensures
        c == popcount(x),
        c <= 64,
{
    let mut c: u32 = 0;
    for k in 0..64u32
        invariant
            c == pc64(x, k as nat),
            c <= k,
    {
        proof {
            lemma_pc64_bound(x, k as nat);
        }
        if x & (1u64 << (k as u64)) != 0 {
            c = c + 1;
        }
    }
    proof {
        lemma_pc64_bound(x, 64);
    }
    c
}

/// The rippler step stays inside the mask, strictly increases until the mask
/// itself is reached, and wraps to the empty subset exactly there.
pub proof fn lemma_rippler_step(s: u64, m: u64)
    by (bit_vector)
    requires
        s & m == s,
    ensures
        next_subset(s, m) & m == next_subset(s, m),
        s != m ==> next_subset(s, m) > s,
        s == m ==> next_subset(s, m) == 0,
{
}

/// No subset of `m` lies strictly between `s` and its rippler successor.
pub proof fn lemma_rippler_least(s: u64, m: u64, t: u64)
    by (bit_vector)
    requires
        s & m == s,
        t & m == t,
        s != m,
        t > s,
    ensures
        t >= next_subset(s, m),
{
}

/// Masking facts: `a & m` is a subset of `m`, and subsets are numerically
/// bounded by their mask.
pub proof fn lemma_mask_and(a: u64, m: u64)
    by (bit_vector)
    ensures
        (a & m) & m == a & m,
        a & m <= m,
        a & m == a ==> a <= m,
        0u64 & m == 0u64,
        (a & !m) & m == 0u64,
{
}

/// A value shifted right by `sh` fits below `1 << (64 - sh)`.
pub proof fn lemma_shr_bound(x: u64, sh: u64)
    by (bit_vector)
    requires
        1 <= sh <= 63,
    ensures
        x >> sh < 1u64 << ((64 - sh) as u64),
{
}

/// Every entry of the set-bit sequence is an on-board set bit position of
/// `x`.
pub proof fn lemma_sq_seq_bits(x: u64)
    ensures
        forall|i: int|
            0 <= i < sq_seq(x).len() ==> (0 <= #[trigger] sq_seq(x)[i] < 64 && (x >> (sq_seq(
                x,
            )[i] as u64)) & 1u64 == 1u64),
    decreases x,
{
    if x != 0 {
        vstd::std_specs::bits::axiom_u64_trailing_zeros(x);
        assert(x & ((x - 1) as u64) < x) by (bit_vector)
            requires
                x != 0,
        ;
        let rest = x & ((x - 1) as u64);
        lemma_sq_seq_bits(rest);
        assert(forall|e: u64|
            e < 64 && (#[trigger] (((x & ((x - 1) as u64)) >> e) & 1u64)) == 1u64 ==> (x >> e)
                & 1u64 == 1u64) by (bit_vector);
        assert forall|i: int| 0 <= i < sq_seq(x).len() implies (0 <= #[trigger] sq_seq(x)[i] < 64
            && (x >> (sq_seq(x)[i] as u64)) & 1u64 == 1u64) by {
            if i > 0 {
                assert(sq_seq(x)[i] == sq_seq(rest)[i - 1]);
                let e = sq_seq(rest)[i - 1];
                assert(0 <= e < 64 && (rest >> (e as u64)) & 1u64 == 1u64);
            } else {
                assert(sq_seq(x)[0] == u64_trailing_zeros(x) as int);
            }
        }
    }
}

/// The set-bit sequence of any bitboard is strictly ascending: squares come
/// off a bitboard iterator in ascending index order.
pub proof fn lemma_sq_seq_ascending(x: u64)
    ensures
        forall|i: int, j: int| 0 <= i < j < sq_seq(x).len() ==> sq_seq(x)[i] < sq_seq(x)[j],
    decreases x,
{
    if x != 0 {
        vstd::std_specs::bits::axiom_u64_trailing_zeros(x);
        assert(x & ((x - 1) as u64) < x) by (bit_vector)
            requires
                x != 0,
        ;
        let rest = x & ((x - 1) as u64);
        let t = vstd::std_specs::bits::u64_trailing_zeros(x) as u64;
        lemma_sq_seq_ascending(rest);
        lemma_sq_seq_bits(rest);
        assert(x << ((64 - t) as u64) == 0);
        assert(forall|e: u64|
            e < 64 && (#[trigger] (((x & ((x - 1) as u64)) >> e) & 1u64)) == 1u64 ==> e > t)
            by (bit_vector)
            requires
                t < 64,
                (x >> t) & 1u64 == 1u64,
                x << ((64 - t) as u64) == 0,
        ;
        assert forall|i: int, j: int| 0 <= i < j < sq_seq(x).len() implies sq_seq(x)[i] < sq_seq(
            x,
        )[j] by {
            if i > 0 {
                assert(sq_seq(x)[i] == sq_seq(rest)[i - 1]);
                assert(sq_seq(x)[j] == sq_seq(rest)[j - 1]);
            } else {
                assert(sq_seq(x)[0] == t as int);
                assert(sq_seq(x)[j] == sq_seq(rest)[j - 1]);
                assert(0 <= sq_seq(rest)[j - 1] < 64 && (rest >> (sq_seq(rest)[j - 1] as u64))
                    & 1u64 == 1u64);
            }
        }
    }
}

/// Bitwise-or is associative and commutative with zero as identity.
pub proof fn lemma_or_basics(a: u64, b: u64, c: u64)
    by (bit_vector)
    ensures
        0u64 | a == a,
        a | 0u64 == a,
        (a | b) | c == a | (b | c),
        a | b == b | a,
{
}

/// Subset facts for unions and intersections: a term below one side of a
/// union is below the union, and intersecting with a superset of a bit does
/// not change that bit.
pub proof fn lemma_or_subset(a: u64, b: u64, x: u64, occ: u64)
    by (bit_vector)
    ensures
        a & (a | b) == a,
        b & (a | b) == b,
        x & a == x ==> x & (a | b) == x,
        x & b == x ==> x & (a | b) == x,
        x & a == x ==> (occ & a) & x == occ & x,
        x & a == x && a & occ == a ==> x & occ == x,
        x & a == x && x & b == 0 ==> x & (a & !b) == x,
{
}

/// The lowest set bit of `m`, or zero for the empty mask.
pub open spec fn lowbit(m: u64) -> u64 {
    if m == 0 {
        0u64
    } else {
        m ^ (m & ((m - 1) as u64))
    }
}

/// The mask with its lowest set bit removed.
pub open spec fn rest_mask(m: u64) -> u64 {
    if m == 0 {
        0u64
    } else {
        m & ((m - 1) as u64)
    }
}

/// The number encoded by the bits of `s` at the positions of `m`, lowest mask
/// position giving the least significant digit: the rank of the subset in
/// carry-rippler order.
pub open spec fn gather_bits(s: u64, m: u64) -> nat
    decreases m,
{
    if m == 0 {
        0nat
    } else {
        proof {
            assert(m != 0 ==> (m & ((m - 1) as u64)) < m) by (bit_vector);
        }
        (if s & lowbit(m) != 0 {
            1nat
        } else {
            0nat
        }) + 2 * gather_bits(s, rest_mask(m))
    }
}

/// Two to the power `n`.
pub open spec fn two_pow(n: nat) -> nat
    decreases n,
{
    if n == 0 {
        1nat
    } else {
        2 * two_pow((n - 1) as nat)
    }
}

/// Structural facts about a nonzero mask's lowest bit and the rest: they are
/// disjoint, they rebuild the mask, and the rest sits below the mask.
pub proof fn lemma_lowbit(m: u64)
    by (bit_vector)
    requires
        m != 0,
    ensures
        (m ^ (m & ((m - 1) as u64))) != 0,
        (m ^ (m & ((m - 1) as u64))) & m == m ^ (m & ((m - 1) as u64)),
        m & (m ^ (m & ((m - 1) as u64))) == m ^ (m & ((m - 1) as u64)),
        (m ^ (m & ((m - 1) as u64))) & (m & ((m - 1) as u64)) == 0,
        (m ^ (m & ((m - 1) as u64))) | (m & ((m - 1) as u64)) == m,
        m & (m & ((m - 1) as u64)) == m & ((m - 1) as u64),
        (m & ((m - 1) as u64)) & m == m & ((m - 1) as u64),
        (m & ((m - 1) as u64)) & (m & ((m - 1) as u64)) == m & ((m - 1) as u64),
        (m & ((m - 1) as u64)) < m,
{
}

/// Restricting two values by a mask they agree on keeps them agreeing on
/// anything below the mask, and disjointness transfers below the mask.
pub proof fn lemma_and_congruence(x: u64, y: u64, mask: u64, b: u64)
    by (bit_vector)
    ensures
        x & mask == y & mask && b & mask == b ==> x & b == y & b,
        x & mask == x && b & mask == 0 ==> x & b == 0,
{
}

/// The carry-rippler step decomposed over the lowest mask bit: a subset
/// without the low bit just gains it, and a subset holding it carries over
/// into the rest of the mask.
pub proof fn lemma_rippler_decompose(s: u64, m: u64)
    by (bit_vector)
    requires
        m != 0,
        s & m == s,
    ensures
        s & (m ^ (m & ((m - 1) as u64))) == 0 ==> next_subset(s, m) == s | (m ^ (m & ((m - 1)
            as u64))),
        s & (m ^ (m & ((m - 1) as u64))) != 0 && s != m ==> next_subset(s, m) == next_subset(
            s ^ (m ^ (m & ((m - 1) as u64))),
            m & ((m - 1) as u64),
        ),
        (s | (m ^ (m & ((m - 1) as u64)))) & (m & ((m - 1) as u64)) == s & (m & ((m - 1) as u64)),
        (s ^ (m ^ (m & ((m - 1) as u64)))) & (m & ((m - 1) as u64)) == s & (m & ((m - 1) as u64)),
        s & (m ^ (m & ((m - 1) as u64))) != 0 && s != m ==> (s ^ (m ^ (m & ((m - 1) as u64)))) != m
            & ((m - 1) as u64),
        s & (m ^ (m & ((m - 1) as u64))) != 0 ==> (s ^ (m ^ (m & ((m - 1) as u64)))) & (m & ((m
            - 1) as u64)) == s ^ (m ^ (m & ((m - 1) as u64))),
{
}

/// Gathering reads only the bits below the mask.
pub proof fn lemma_gather_congruent(x: u64, y: u64, m: u64)
    requires
        x & m == y & m,
    ensures
        gather_bits(x, m) == gather_bits(y, m),
    decreases m,
{
    if m != 0 {
        lemma_lowbit(m);
        lemma_and_congruence(x, y, m, lowbit(m));
        lemma_and_congruence(x, y, m, rest_mask(m));
        lemma_gather_congruent(x, y, rest_mask(m));
    }
}

/// The empty subset gathers to zero.
pub proof fn lemma_gather_zero(m: u64)
    ensures
        gather_bits(0, m) == 0,
    decreases m,
{
    if m != 0 {
        lemma_lowbit(m);
        lemma_mask_and(0, lowbit(m));
        lemma_gather_zero(rest_mask(m));
    }
}

/// One rippler step advances the gathered rank by exactly one.
pub proof fn lemma_gather_step(s: u64, m: u64)
    requires
        s & m == s,
        s != m,
    ensures
        gather_bits(next_subset(s, m), m) == gather_bits(s, m) + 1,
    decreases m,
{
    lemma_mask_and(s, m);
    assert(m != 0);
    let lowb = lowbit(m);
    let rest = rest_mask(m);
    lemma_lowbit(m);
    lemma_rippler_decompose(s, m);
    lemma_rippler_step(s, m);
    if s & lowb == 0 {
        let nxt = s | lowb;
        assert(next_subset(s, m) == nxt);
        assert(nxt & lowb != 0) by (bit_vector)
            requires
                nxt == s | lowb,
                lowb != 0,
        ;
        lemma_gather_congruent(nxt, s, rest);
    } else {
        let sp = s ^ lowb;
        assert(next_subset(s, m) == next_subset(sp, rest));
        lemma_gather_step(sp, rest);
        let nxt = next_subset(sp, rest);
        lemma_rippler_step(sp, rest);
        assert(nxt & rest == nxt);
        lemma_and_congruence(nxt, 0, rest, lowb);
        assert(nxt & lowb == 0);
        lemma_gather_congruent(s, sp, rest);
        assert(gather_bits(nxt, m) == 2 * gather_bits(nxt, rest));
        assert(gather_bits(s, m) == 1 + 2 * gather_bits(sp, rest));
    }
}

/// The counted bits below `k` after peeling the lowest set bit: one fewer
/// once `k` passes the peeled position.
proof fn lemma_pc64_peel_aux(m: u64, k: nat)
    requires
        m != 0,
        k <= 64,
    ensures
        pc64(m, k) == pc64(rest_mask(m), k) + (if u64_trailing_zeros(m) < k {
            1nat
        } else {
            0nat
        }),
    decreases k,
{
    vstd::std_specs::bits::axiom_u64_trailing_zeros(m);
    let t = u64_trailing_zeros(m) as u64;
    assert(forall|j: u64|
        j < 64 && j != t ==> ((m & ((m - 1) as u64)) & (1u64 << j)) == (#[trigger] (m & (1u64
            << j)))) by (bit_vector)
        requires
            m != 0,
            t < 64,
            (m >> t) & 1u64 == 1u64,
            m << ((64 - t) as u64) == 0,
    ;
    assert((m & ((m - 1) as u64)) & (1u64 << t) == 0 && m & (1u64 << t) != 0) by (bit_vector)
        requires
            m != 0,
            t < 64,
            (m >> t) & 1u64 == 1u64,
            m << ((64 - t) as u64) == 0,
    ;
    if k > 0 {
        lemma_pc64_peel_aux(m, (k - 1) as nat);
        assert(bit64(k - 1) == 1u64 << (((k - 1) as nat) as u64));
    }
}

/// Removing the lowest set bit lowers the popcount by exactly one.
pub proof fn lemma_popcount_peel(m: u64)
    requires
        m != 0,
    ensures
        popcount(m) == 1 + popcount(rest_mask(m)),
{
    vstd::std_specs::bits::axiom_u64_trailing_zeros(m);
    lemma_pc64_peel_aux(m, 64);
}

/// The full mask gathers to the top rank: one less than two to the popcount.
pub proof fn lemma_gather_full(m: u64)
    ensures
        gather_bits(m, m) + 1 == two_pow(popcount(m)),
    decreases m,
{
    if m == 0 {
        lemma_pc64_zero(64);
    } else {
        let lowb = lowbit(m);
        let rest = rest_mask(m);
        lemma_lowbit(m);
        lemma_gather_full(rest);
        lemma_gather_congruent(m, rest, rest);
        lemma_popcount_peel(m);
        assert(gather_bits(m, m) == 1 + 2 * gather_bits(rest, rest));
    }
}

/// No bits are counted in the zero word.
proof fn lemma_pc64_zero(k: nat)
    ensures
        pc64(0, k) == 0,
    decreases k,
{
    if k > 0 {
        lemma_pc64_zero((k - 1) as nat);
        lemma_mask_and(0, bit64(k - 1));
    }
}

/// Shifting one left computes two to the power, while it fits a word.
pub proof fn lemma_two_pow_shift(n: nat)
    requires
        n <= 63,
    ensures
        two_pow(n) == (1u64 << (n as u64)) as nat,
    decreases n,
{
    if n == 0 {
        assert(1u64 << 0u64 == 1) by (bit_vector);
    } else {
        lemma_two_pow_shift((n - 1) as nat);
        let j = n as u64;
        assert(1 <= j <= 63 ==> (1u64 << j) == 2 * (1u64 << ((j - 1) as u64))) by (bit_vector);
    }
}

} // verus!
