//! Fibonacci numbers, iteratively and recursively.
use vstd::prelude::*;

verus! {

/// The `n`-th Fibonacci number, with `fib(0) == 0` and `fib(1) == 1`.
pub open spec fn fib(n: nat) -> nat
    decreases n,
{
    if n < 2 {
        n
    } else {
        fib((n - 1) as nat) + fib((n - 2) as nat)
    }
}

/// Fibonacci numbers never decrease.
pub proof fn lemma_fib_monotone(i: nat, j: nat)
    requires
        i <= j,
    ensures
        fib(i) <= fib(j),
    decreases j - i,
{
    if i < j {
        lemma_fib_monotone(i, (j - 1) as nat);
        if j >= 2 {
            assert(fib(j) == fib((j - 1) as nat) + fib((j - 2) as nat));
        }
    }
}

/// The `n`-th Fibonacci number, computed bottom-up. `n` is bounded so that
/// the result fits in a `u64`.
pub fn fib_iter(n: u64) -> (r: u64)
    requires
        fib(n as nat) <= u64::MAX,
    ensures
        r == fib(n as nat),
{
    if n < 2 {
        return n;
    }
    let mut a: u64 = 0;
    let mut b: u64 = 1;
    let mut i: u64 = 1;
    while i < n
        invariant
            1 <= i <= n,
            fib(n as nat) <= u64::MAX,
            a == fib((i - 1) as nat),
            b == fib(i as nat),
        decreases n - i,
    {
        proof {
            lemma_fib_monotone((i + 1) as nat, n as nat);
        }
        let temp = a + b;
        a = b;
        b = temp;
        i = i + 1;
    }
    b
}

/// The `n`-th Fibonacci number, computed by the defining recursion. `n` is
/// bounded so that the result fits in a `u64`.
pub fn fib_rec(n: u64) -> (r: u64)
    requires
        fib(n as nat) <= u64::MAX,
    ensures
        r == fib(n as nat),
    decreases n,
{
    if n < 2 {
        return n;
    }
    proof {
        lemma_fib_monotone((n - 1) as nat, n as nat);
        lemma_fib_monotone((n - 2) as nat, n as nat);
    }
    fib_rec(n - 1) + fib_rec(n - 2)
}

} // verus!
