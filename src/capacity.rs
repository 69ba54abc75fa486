//! Rounding a requested buffer size to a realizable capacity.
use vstd::arithmetic::div_mod::{lemma_mod_multiples_basic, lemma_small_mod};
use vstd::arithmetic::power2::{lemma_pow2_pos, lemma_pow2_strictly_increases, lemma_pow2_unfold, pow2};
use vstd::prelude::*;

verus! {

/// The allocation granularity used when the host does not report one:
/// the 64 KiB quantum of the virtual-memory allocator.
pub const ALLOCATION_GRANULARITY: usize = 65536;

/// `n` is a power of two.
pub open spec fn is_power_of_two(n: int) -> bool {
    exists|k: nat| pow2(k) == n
}

/// `cap` is the smallest power of two that is a multiple of `granularity`
/// and at least `requested`.
pub open spec fn is_realized_capacity(cap: int, requested: int, granularity: int) -> bool {
    &&& is_power_of_two(cap)
    &&& is_power_of_two(granularity)
    &&& cap % granularity == 0
    &&& cap >= requested
    &&& forall|q: int|
        #![trigger is_power_of_two(q), q % granularity]
        is_power_of_two(q) && q % granularity == 0 && q >= requested ==> cap <= q
}

/// No power of two lies strictly between `pow2(a)` and `pow2(a + 1)`.
proof fn lemma_no_power_of_two_between(a: nat, n: int)
    requires
        pow2(a) < n < 2 * pow2(a),
    ensures
        !is_power_of_two(n),
{
    if is_power_of_two(n) {
        let b = choose|b: nat| pow2(b) == n;
        lemma_pow2_unfold(a + 1);
        if b < a {
            lemma_pow2_strictly_increases(b, a);
        } else if b > a + 1 {
            lemma_pow2_strictly_increases(a + 1, b);
        }
    }
}

/// A power of two below twice another one is at most that one.
proof fn lemma_power_of_two_below_double(a: nat, q: int)
    requires
        is_power_of_two(q),
        q < 2 * pow2(a),
    ensures
        q <= pow2(a),
{
    if q > pow2(a) {
        lemma_no_power_of_two_between(a, q);
    }
}

/// Whether `g` is a power of two.
fn is_power_of_two_exec(g: usize) -> (r: bool)
    ensures
        r == is_power_of_two(g as int),
{
    let mut p: usize = 1;
    let ghost mut k: nat = 0;
    assert(pow2(0) == 1) by {
        vstd::arithmetic::power2::lemma2_to64();
    }
    assert forall|q: int| is_power_of_two(q) && q < p implies q < g by {
        let b = choose|b: nat| pow2(b) == q;
        lemma_pow2_pos(b);
    }
    while p < g
        invariant
            p == pow2(k),
            p > 0,
            forall|q: int| is_power_of_two(q) && q < p ==> q < g,
        decreases usize::MAX - p,
    {
        if p > usize::MAX / 2 {
            proof {
                lemma_pow2_unfold(k + 1);
                lemma_no_power_of_two_between(k, g as int);
            }
            return false;
        }
        proof {
            lemma_pow2_unfold(k + 1);
            assert forall|q: int| is_power_of_two(q) && q < 2 * p implies q < g by {
                lemma_power_of_two_below_double(k, q);
            }
        }
        p = p * 2;
        proof {
            k = k + 1;
        }
    }
    if p == g {
        true
    } else {
        proof {
            if is_power_of_two(g as int) {
                // every power of two below p is below g, and g < p
                assert(false);
            }
        }
        false
    }
}

/// The capacity that a buffer asked to hold `min_capacity` bytes gets on a
/// host whose allocation granularity is `granularity`: the smallest power of
/// two that is a multiple of the granularity and at least `min_capacity`.
/// `None` where there is none whose double fits a `usize` (among them every
/// granularity that is not a power of two).
pub fn realized_capacity(min_capacity: usize, granularity: usize) -> (r: Option<usize>)
    ensures
        match r {
            Some(cap) => is_realized_capacity(cap as int, min_capacity as int, granularity as int)
                && 2 * cap <= usize::MAX,
            None => forall|cap: int|
                is_realized_capacity(cap, min_capacity as int, granularity as int) ==> 2 * cap
                    > usize::MAX,
        },
{
    if granularity == 0 || !is_power_of_two_exec(granularity) {
        proof {
            if is_power_of_two(granularity as int) {
                let b = choose|b: nat| pow2(b) == granularity;
                lemma_pow2_pos(b);
            }
        }
        return None;
    }
    let ghost k0 = choose|k: nat| pow2(k) == granularity;
    let mut cap: usize = granularity;
    let ghost mut k: nat = k0;
    let ghost mut m: int = 1;
    assert forall|q: int|
        #![trigger is_power_of_two(q), q % (granularity as int)]
        is_power_of_two(q) && q % (granularity as int) == 0 && q < cap implies q
            < min_capacity by {
        let b = choose|b: nat| pow2(b) == q;
        lemma_pow2_pos(b);
        lemma_small_mod(q as nat, granularity as nat);
    }
    while cap < min_capacity
        invariant
            granularity > 0,
            is_power_of_two(granularity as int),
            cap > 0,
            cap == pow2(k),
            cap == granularity * m,
            m >= 1,
            forall|q: int|
                #![trigger is_power_of_two(q), q % (granularity as int)]
                is_power_of_two(q) && q % (granularity as int) == 0 && q < cap ==> q
                    < min_capacity,
        decreases usize::MAX - cap,
    {
        if cap > usize::MAX / 2 {
            return None;
        }
        proof {
            lemma_pow2_unfold(k + 1);
            assert forall|q: int|
                #![trigger is_power_of_two(q), q % (granularity as int)]
                is_power_of_two(q) && q % (granularity as int) == 0 && q < 2 * cap implies q
                < min_capacity by {
                lemma_power_of_two_below_double(k, q);
            }
        }
        cap = cap * 2;
        proof {
            k = k + 1;
            m = 2 * m;
            assert(cap == granularity * m) by (nonlinear_arith)
                requires
                    cap == 2 * (granularity * (m / 2)),
                    m == 2 * (m / 2),
            ;
        }
    }
    proof {
        lemma_mod_multiples_basic(m, granularity as int);
        assert(cap as int == m * granularity) by (nonlinear_arith)
            requires
                cap == granularity * m,
        ;
        assert forall|q: int|
            #![trigger is_power_of_two(q), q % (granularity as int)]
            is_power_of_two(q) && q % (granularity as int) == 0 && q >= min_capacity implies cap
            <= q by {
            if q < cap {
                assert(q < min_capacity);
            }
        }
    }
    if cap > usize::MAX / 2 {
        proof {
            assert forall|c: int|
                is_realized_capacity(c, min_capacity as int, granularity as int) implies 2 * c
                > usize::MAX by {
                assert(is_power_of_two(cap as int));
                assert(cap % granularity == 0);
                assert(c <= cap);
                assert(is_power_of_two(c) && c % (granularity as int) == 0);
            }
        }
        return None;
    }
    Some(cap)
}

} // verus!
