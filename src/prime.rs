use vstd::prelude::*;

verus! {

/// `d` divides `n` evenly.
pub open spec fn divides(d: int, n: int) -> bool {
    d != 0 && n % d == 0
}

/// `n` has a divisor strictly between 1 and itself.
pub open spec fn has_proper_divisor(n: int) -> bool {
    exists|d: int| 1 < d < n && #[trigger] divides(d, n)
}

/// `n` is prime: at least 2, with no divisor strictly between 1 and itself.
pub open spec fn is_prime_spec(n: int) -> bool {
    n >= 2 && !has_proper_divisor(n)
}

/// If `d * k == n` with both factors at least 2, one of them is at most
/// the square root of `n`: if `i * i > n` then `d < i` or `k < i`.
proof fn lemma_small_cofactor(n: int, d: int, i: int)
    requires
        2 <= i,
        i <= d < n,
        divides(d, n),
        i * i > n,
    ensures
        2 <= n / d < i,
        divides(n / d, n),
{
    let k = n / d;
    assert(n == d * k) by {
        vstd::arithmetic::div_mod::lemma_fundamental_div_mod(n, d);
    }
    assert(2 <= k) by (nonlinear_arith)
        requires
            n == d * k,
            2 <= d < n,
    ;
    assert(k < i) by (nonlinear_arith)
        requires
            n == d * k,
            i <= d,
            i * i > n,
            2 <= i,
            2 <= k,
    ;
    assert(n % k == 0) by {
        vstd::arithmetic::div_mod::lemma_mod_multiples_basic(d, k);
        vstd::arithmetic::mul::lemma_mul_is_commutative(d, k);
    }
}

/// Decides whether `n` is prime by testing every candidate divisor `i`
/// with `i * i <= n`. The square is formed in 64 bits, so no value of `n`
/// overflows it.
pub fn is_prime(n: u32) -> (r: bool)
    ensures
        r == is_prime_spec(n as int),
        n < 2 ==> !r,
        n >= 2 ==> (r <==> !has_proper_divisor(n as int)),
{
    if n < 2 {
        return false;
    }
    let mut i: u32 = 2;
    while (i as u64) * (i as u64) <= n as u64
        invariant
            2 <= n,
            2 <= i <= 65536,
            (i as int) * (i as int) <= 0x1_0000_0000,
            forall|d: int| 1 < d < i ==> !#[trigger] divides(d, n as int),
        decreases 65536 - i,
    {
        if n % i == 0 {
            assert(divides(i as int, n as int));
            assert(i < n) by (nonlinear_arith)
                requires
                    (i as int) * (i as int) <= n as int,
                    2 <= i,
            ;
            return false;
        }
        assert(i < 65536 && (i as int + 1) * (i as int + 1) <= 0x1_0000_0000)
            by (nonlinear_arith)
            requires
                (i as int) * (i as int) <= n as int,
                n <= 0xffff_ffff,
                2 <= i,
        ;
        i = i + 1;
    }
    assert(!has_proper_divisor(n as int)) by {
        assert forall|d: int| 1 < d < n implies !#[trigger] divides(d, n as int) by {
            if divides(d, n as int) && d >= i {
                lemma_small_cofactor(n as int, d, i as int);
            }
        }
    }
    true
}

/// `is_prime` is a pure function of its argument: any two calls with the
/// same `n` return the same result.
pub proof fn lemma_is_prime_deterministic(n: u32, r1: bool, r2: bool)
    requires
        call_ensures(is_prime, (n,), r1),
        call_ensures(is_prime, (n,), r2),
    ensures
        r1 == r2,
        r1 == is_prime_spec(n as int),
{
}

} // verus!
