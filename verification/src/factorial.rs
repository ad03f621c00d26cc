//! Factorials, computed in one piece or split into ranges that can be
//! multiplied out separately.
use vstd::prelude::*;

use crate::bignat::BigNat;
use crate::decimal::decimal;
use vstd::arithmetic::div_mod::{lemma_fundamental_div_mod, lemma_mod_multiples_basic};
use vstd::arithmetic::mul::lemma_mul_inequality;

verus! {

/// The product `lo * (lo + 1) * ... * hi`; one when the range is empty.
pub open spec fn range_product(lo: nat, hi: int) -> nat
    decreases hi + 1 - lo,
{
    if hi < lo {
        1
    } else {
        range_product(lo, hi - 1) * (hi as nat)
    }
}

/// Every number of a range is a factor of its product: the product up to `hi`
/// is the product up to `hi - 1` times `hi`, and every `k >= 1` of the range
/// divides it.
pub proof fn range_product_has_every_factor(lo: nat, hi: int, k: int)
    requires
        lo <= hi,
    ensures
        range_product(lo, hi) == range_product(lo, hi - 1) * hi,
        1 <= k && lo <= k <= hi ==> (range_product(lo, hi) as int) % k == 0,
    decreases hi - lo,
{
    if 1 <= k && lo <= k <= hi {
        if k == hi {
            lemma_mod_multiples_basic(range_product(lo, hi - 1) as int, k);
        } else {
            range_product_has_every_factor(lo, hi - 1, k);
            let p = range_product(lo, hi - 1) as int;
            lemma_fundamental_div_mod(p, k);
            let q = p / k;
            assert(p * hi == (q * hi) * k) by (nonlinear_arith)
                requires
                    p == k * q + 0,
            ;
            lemma_mod_multiples_basic(q * hi, k);
        }
    }
}

/// The product of all the numbers from `a` to `b`, both included.
pub fn factorial_range(a: u32, b: u32) -> (r: BigNat)
    ensures
        r@ == range_product(a as nat, b as int),
{
    let mut acc = BigNat::one();
    let mut x: u64 = a as u64;
    while x <= b as u64
        invariant
            a <= x,
            x <= b + 1 || x == a,
            acc@ == range_product(a as nat, x - 1),
        decreases b + 1 - x,
    {
        let f = BigNat::from_u32(x as u32);
        acc = acc.mul(&f);
        x = x + 1;
    }
    acc
}

/// The decimal numeral of `n!`.
pub fn factorial_single(n: u32) -> (r: String)
    ensures
        r@ == decimal(range_product(1, n as int)),
{
    let x = factorial_range(1, n);
    x.to_decimal_string()
}


/// How many numbers each range holds when `n!` is split: `n / 8 + 1`.
pub open spec fn chunk_width(n: nat) -> nat {
    n / 8 + 1
}

/// The `i`-th range of the split of `n!`: from `1 + i * w` to
/// `min(n, (i + 1) * w)`, where `w` is the width.
pub open spec fn chunk_bounds(n: nat, i: nat) -> (int, int) {
    let w = chunk_width(n);
    ((1 + i * w) as int, if (i + 1) * w < n { ((i + 1) * w) as int } else { n as int })
}

/// How many ranges the split of `n!` has: one for each start `1 + i * w`
/// below `n`.
pub open spec fn chunk_count(n: nat) -> nat {
    if n <= 1 {
        0
    } else {
        (n - 2) as nat / chunk_width(n) + 1
    }
}

/// The product of the first `k` ranges of the split of `n!`.
pub open spec fn chunks_product(n: nat, k: nat) -> nat
    decreases k,
{
    if k == 0 {
        1
    } else {
        let (lo, hi) = chunk_bounds(n, (k - 1) as nat);
        chunks_product(n, (k - 1) as nat) * range_product(lo as nat, hi)
    }
}

/// `chunk_count(n)` is the least `k` with `1 + k * w >= n`.
proof fn lemma_chunk_count(n: nat)
    ensures
        1 + chunk_count(n) * chunk_width(n) >= n,
        chunk_count(n) == 0 || 1 + (chunk_count(n) - 1) * chunk_width(n) < n,
{
    let w = chunk_width(n) as int;
    if n >= 2 {
        let m = n - 2;
        let q = m / w;
        lemma_fundamental_div_mod(m, w);
        assert(m == w * q + m % w);
        assert((q + 1) * w == q * w + w) by (nonlinear_arith);
        assert(w * q == q * w) by (nonlinear_arith);
    }
}

/// A `k` with `1 + k * w >= n` and `1 + (k - 1) * w < n` is `chunk_count(n)`.
proof fn lemma_chunk_count_unique(n: nat, k: nat)
    requires
        1 + k * chunk_width(n) >= n,
        k == 0 || 1 + (k - 1) * chunk_width(n) < n,
    ensures
        k == chunk_count(n),
{
    let w = chunk_width(n) as int;
    let c = chunk_count(n) as int;
    lemma_chunk_count(n);
    if k < c {
        lemma_mul_inequality(k as int, c - 1, w);
    } else if k > c {
        lemma_mul_inequality(c, k - 1, w);
    }
}

/// The start of every range of the split lies below `n`.
proof fn lemma_chunk_start_below(n: nat, i: nat)
    requires
        i < chunk_count(n),
    ensures
        1 + i * chunk_width(n) < n,
{
    lemma_chunk_count(n);
    lemma_mul_inequality(i as int, chunk_count(n) - 1, chunk_width(n) as int);
}

/// Splits the product `1 * 2 * ... * n` into ranges that can be multiplied
/// out separately: the `i`-th range is `chunk_bounds(n, i)`.
pub fn factorial_chunks(n: u32) -> (r: Vec<(u32, u32)>)
    ensures
        r.len() == chunk_count(n as nat),
        forall|i: int|
            0 <= i < r.len() ==> r[i].0 == chunk_bounds(n as nat, i as nat).0 && r[i].1
                == chunk_bounds(n as nat, i as nat).1,
        r.len() == (if n <= 1 { 0 } else { (n - 2) / (n / 8 + 1) + 1 }),
        forall|i: int|
            0 <= i < r.len() ==> r[i].0 == 1 + i * (n / 8 + 1) && r[i].1 == (if (i + 1) * (n / 8
                + 1) < n {
                (i + 1) * (n / 8 + 1)
            } else {
                n as int
            }),
{
    let chunk_size: u64 = (n / 8) as u64;
    let mut x: u64 = 1;
    let mut r: Vec<(u32, u32)> = Vec::new();
    let ghost w: int = chunk_width(n as nat) as int;
    assert(0 * w == 0);
    while x < n as u64
        invariant
            w == chunk_size + 1,
            w == chunk_width(n as nat),
            x == (if 1 + r.len() * w < n + 1 { 1 + r.len() * w } else { n + 1 }),
            r.len() == 0 || 1 + (r.len() - 1) * w < n,
            forall|i: int|
                0 <= i < r.len() ==> r[i].0 == chunk_bounds(n as nat, i as nat).0 && r[i].1
                    == chunk_bounds(n as nat, i as nat).1,
        decreases n + 1 - x,
    {
        let ghost i: int = r.len() as int;
        assert((i + 1) * w == i * w + w) by (nonlinear_arith);
        let sum = x + chunk_size;
        let to = if sum < n as u64 {
            sum
        } else {
            n as u64
        };
        r.push((x as u32, to as u32));
        x = to + 1;
        proof {
            assert(r[i].0 == chunk_bounds(n as nat, i as nat).0);
            assert(r[i].1 == chunk_bounds(n as nat, i as nat).1);
        }
    }
    proof {
        lemma_chunk_count_unique(n as nat, r.len() as nat);
    }
    r
}

/// The split of `n!` is into ranges of `n / 8 + 1` numbers: the `i`-th runs
/// from `1 + i * (n / 8 + 1)` to `min(n, (i + 1) * (n / 8 + 1))`, and there is
/// one for each such start below `n`.
pub proof fn split_ranges_have_fixed_width(n: nat, i: nat)
    ensures
        chunk_bounds(n, i).0 == 1 + i * (n / 8 + 1),
        chunk_bounds(n, i).1 == (if (i + 1) * (n / 8 + 1) < n {
            ((i + 1) * (n / 8 + 1)) as int
        } else {
            n as int
        }),
        chunk_count(n) == (if n <= 1 { 0 } else { (n - 2) / ((n / 8 + 1) as int) + 1 }),
        i < chunk_count(n) <==> 1 + i * (n / 8 + 1) < n,
{
    lemma_chunk_count(n);
    let w = (n / 8 + 1) as int;
    if i < chunk_count(n) {
        lemma_chunk_start_below(n, i);
    } else {
        lemma_mul_inequality(chunk_count(n) as int, i as int, w);
    }
}

/// The ranges of the split follow one another without gap or overlap from 1:
/// each is nonempty and within `1..=n`, and each starts right after the one
/// before it ends.
pub proof fn split_ranges_are_consecutive(n: nat, i: nat)
    requires
        i < chunk_count(n),
    ensures
        i == 0 ==> chunk_bounds(n, i).0 == 1,
        1 <= chunk_bounds(n, i).0 <= chunk_bounds(n, i).1 <= n,
        i + 1 < chunk_count(n) ==> chunk_bounds(n, i + 1).0 == chunk_bounds(n, i).1 + 1,
{
    let w = chunk_width(n) as int;
    lemma_chunk_start_below(n, i);
    assert((i + 1) * w == i * w + w) by (nonlinear_arith);
    assert(i * w >= 0) by (nonlinear_arith)
        requires
            i >= 0,
            w >= 0,
    ;
    if i + 1 < chunk_count(n) {
        lemma_chunk_start_below(n, i + 1);
    }
}

/// `1 * ... * h` is `1 * ... * m` times `(m + 1) * ... * h`.
proof fn lemma_range_product_split(m: nat, h: int)
    requires
        m <= h,
    ensures
        range_product(1, h) == range_product(1, m as int) * range_product(m + 1, h),
    decreases h - m,
{
    if h > m {
        lemma_range_product_split(m, h - 1);
        let a = range_product(1, m as int) as int;
        let b = range_product(m + 1, h - 1) as int;
        assert(range_product(1, h) == range_product(1, h - 1) * (h as nat));
        assert(range_product(m + 1, h) == range_product(m + 1, h - 1) * (h as nat));
        assert((a * b) * h == a * (b * h)) by (nonlinear_arith);
    } else {
        assert(range_product(m + 1, h) == 1);
    }
}

/// The first `k` ranges of the split of `n!` multiply to `1 * 2 * ... * e`,
/// where `e = min(n, k * w)` is where the `k`-th range ends.
proof fn lemma_chunks_product(n: nat, k: nat)
    requires
        k <= chunk_count(n),
    ensures
        chunks_product(n, k) == range_product(1, if k * chunk_width(n) < n { (k * chunk_width(n)) as int } else { n as int }),
    decreases k,
{
    let w = chunk_width(n) as int;
    if k == 0 {
        assert(k * w == 0);
    } else {
        let j = (k - 1) as nat;
        lemma_chunks_product(n, j);
        lemma_chunk_start_below(n, j);
        assert((j + 1) * w == j * w + w) by (nonlinear_arith);
        assert(j * w >= 0) by (nonlinear_arith)
            requires
                j >= 0,
                w >= 0,
        ;
        let m = (j * w) as nat;
        let h = if k * w < n { k * w } else { n as int };
        lemma_range_product_split(m, h);
        assert(chunk_bounds(n, j) == ((m + 1) as int, h));
        assert(chunks_product(n, k) == chunks_product(n, j) * range_product(m + 1, h));
    }
}

/// Multiplying out the ranges of the split of `n!` gives `1 * 2 * ... * e`,
/// where `e` is where the last range ends: `n` itself when `n <= 1` or when
/// `chunk_count(n)` ranges of width `w` reach `n`, and `n - 1` otherwise (the
/// split then leaves `n` out).
pub proof fn chunked_factorial(n: nat)
    ensures
        chunks_product(n, chunk_count(n)) == range_product(
            1,
            if chunk_count(n) * chunk_width(n) < n { (chunk_count(n) * chunk_width(n)) as int } else { n as int },
        ),
        n <= 1 || chunk_count(n) * chunk_width(n) >= n ==> chunks_product(n, chunk_count(n))
            == range_product(1, n as int),
        n > 1 && chunk_count(n) * chunk_width(n) < n ==> chunks_product(n, chunk_count(n))
            == range_product(1, n - 1),
{
    lemma_chunks_product(n, chunk_count(n));
    lemma_chunk_count(n);
    if n <= 1 {
        assert(range_product(1, 0) == 1);
        if n == 1 {
            assert(range_product(1, 1) == range_product(1, 0) * 1);
        }
    }
}

} // verus!
