//! Small combinatorial helpers.

use vstd::prelude::*;

verus! {

/// Mathematical factorial.
pub open spec fn spec_factorial(n: nat) -> nat
    decreases n,
{
    if n == 0 {
        1
    } else {
        n * spec_factorial((n - 1) as nat)
    }
}

/// Factorial never vanishes.
pub proof fn lemma_factorial_positive(n: nat)
    ensures
        spec_factorial(n) >= 1,
    decreases n,
{
    if n > 0 {
        lemma_factorial_positive((n - 1) as nat);
        assert(n * spec_factorial((n - 1) as nat) >= 1) by (nonlinear_arith)
            requires
                n >= 1,
                spec_factorial((n - 1) as nat) >= 1,
        ;
    }
}

/// Factorial is monotonic.
pub proof fn lemma_factorial_monotonic(m: nat, n: nat)
    requires
        m <= n,
    ensures
        spec_factorial(m) <= spec_factorial(n),
    decreases n,
{
    if m < n {
        lemma_factorial_monotonic(m, (n - 1) as nat);
        lemma_factorial_positive((n - 1) as nat);
        assert(spec_factorial(n) == n * spec_factorial((n - 1) as nat));
        assert(spec_factorial((n - 1) as nat) <= n * spec_factorial((n - 1) as nat))
            by (nonlinear_arith)
            requires n >= 1, spec_factorial((n - 1) as nat) >= 0,
        ;
    }
}

/// The product of two factorials is bounded by the factorial of the sum: the
/// binomial coefficient `(a + b)! / (a! * b!)` is at least one.
pub proof fn lemma_factorial_product_bound(a: nat, b: nat)
    ensures
        spec_factorial(a) * spec_factorial(b) <= spec_factorial(a + b),
    decreases b,
{
    if b == 0 {
        assert(spec_factorial(0) == 1);
    } else {
        lemma_factorial_product_bound(a, (b - 1) as nat);
        lemma_factorial_positive(a);
        lemma_factorial_positive((b - 1) as nat);
        assert(spec_factorial(b) == b * spec_factorial((b - 1) as nat));
        assert(spec_factorial(a + b) == (a + b) * spec_factorial((a + b - 1) as nat));
        assert(spec_factorial(a) * spec_factorial(b)
            == b * (spec_factorial(a) * spec_factorial((b - 1) as nat))) by (nonlinear_arith)
            requires
                b >= 1,
                spec_factorial(b) == b * spec_factorial((b - 1) as nat),
        ;
        assert(b * (spec_factorial(a) * spec_factorial((b - 1) as nat))
            <= b * spec_factorial((a + b - 1) as nat)) by (nonlinear_arith)
            requires
                b >= 1,
                spec_factorial(a) * spec_factorial((b - 1) as nat)
                    <= spec_factorial((a + b - 1) as nat),
                spec_factorial((a + b - 1) as nat) >= 0,
        ;
        assert(b * spec_factorial((a + b - 1) as nat)
            <= (a + b) * spec_factorial((a + b - 1) as nat)) by (nonlinear_arith)
            requires
                spec_factorial((a + b - 1) as nat) >= 0,
        ;
    }
}

/// Largest argument whose factorial fits in a `u64`.
pub open spec fn factorial_arg_max() -> nat {
    20
}

proof fn lemma_factorial_20_fits()
    ensures
        spec_factorial(20) == 2432902008176640000,
{
    reveal_with_fuel(spec_factorial, 21);
}

/// Iterative factorial; the bound keeps every intermediate product within
/// `u64`.
pub fn factorial(n: u64) -> (r: u64)
    requires
        n <= factorial_arg_max(),
    ensures
        r == spec_factorial(n as nat),
{
    let mut acc: u64 = 1;
    let mut i: u64 = 0;
    while i < n
        invariant
            i <= n,
            n <= 20,
            acc == spec_factorial(i as nat),
        decreases n - i,
    {
        i = i + 1;
        proof {
            lemma_factorial_monotonic(i as nat, 20);
            lemma_factorial_20_fits();
            assert(spec_factorial(i as nat) == i * spec_factorial((i - 1) as nat));
            assert(acc * i == spec_factorial(i as nat)) by (nonlinear_arith)
                requires
                    i >= 1,
                    acc == spec_factorial((i - 1) as nat),
                    spec_factorial(i as nat) == i * spec_factorial((i - 1) as nat),
            ;
        }
        acc = acc * i;
    }
    acc
}

/// Number of `r`-element subsets of an `n`-element set, computed as
/// `n! / (r! * (n - r)!)`.
pub fn combination(n: u64, r: u64) -> (c: u64)
    requires
        r <= n,
        n <= factorial_arg_max(),
    ensures
        c == spec_factorial(n as nat) / (spec_factorial(r as nat) * spec_factorial(
            (n - r) as nat,
        )),
{
    proof {
        lemma_factorial_product_bound(r as nat, (n - r) as nat);
        lemma_factorial_monotonic(n as nat, 20);
        lemma_factorial_20_fits();
        lemma_factorial_positive(r as nat);
        lemma_factorial_positive((n - r) as nat);
        assert(spec_factorial(r as nat) * spec_factorial((n - r) as nat) >= 1)
            by (nonlinear_arith)
            requires
                spec_factorial(r as nat) >= 1,
                spec_factorial((n - r) as nat) >= 1,
        ;
    }
    factorial(n) / (factorial(r) * factorial(n - r))
}

} // verus!
