//! Integer helpers.
use vstd::prelude::*;

verus! {

/// `n!`, the product `1 * 2 * ... * n` (with `0! == 1`).
pub open spec fn fact(n: nat) -> nat
    decreases n,
{
    if n == 0 {
        1
    } else {
        n * fact((n - 1) as nat)
    }
}

/// The factorial only grows with its argument.
pub proof fn lemma_fact_monotonic(m: nat, n: nat)
    requires
        m <= n,
    ensures
        1 <= fact(m) <= fact(n),
    decreases n,
{
    if n > 0 {
        if m < n {
            lemma_fact_monotonic(m, (n - 1) as nat);
        } else {
            lemma_fact_monotonic((n - 1) as nat, (n - 1) as nat);
        }
        let p = fact((n - 1) as nat);
        assert(p <= n * p) by (nonlinear_arith)
            requires
                n >= 1,
                p >= 1,
        ;
    }
}

/// Computes `n!` by multiplying up from one. The result must fit in a
/// `u32`, which holds for `n <= 12`.
pub fn factorial(n: u32) -> (r: u32)
    requires
        fact(n as nat) <= u32::MAX,
    ensures
        r == fact(n as nat),
{
    let mut result: u32 = 1;
    let mut i: u32 = 0;
    while i < n
        invariant
            i <= n,
            result == fact(i as nat),
            fact(n as nat) <= u32::MAX,
        decreases n - i,
    {
        i = i + 1;
        proof {
            lemma_fact_monotonic(i as nat, n as nat);
            let prev = fact((i - 1) as nat);
            assert(fact(i as nat) == i * prev);
            assert(prev * i == i * prev) by (nonlinear_arith);
        }
        result = result * i;
    }
    result
}

} // verus!
