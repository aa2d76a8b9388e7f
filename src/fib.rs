//! The Fibonacci sequence and its exact computation.

use vstd::prelude::*;
use num_bigint::BigUint;
use crate::bignum::{big_value, big_from_u32, big_add};

verus! {

/// The Fibonacci sequence: `F(0) = 0`, `F(1) = 1`, `F(k) = F(k-1) + F(k-2)`.
pub open spec fn fib(n: nat) -> nat
    decreases n,
{
    if n == 0 {
        0
    } else if n == 1 {
        1
    } else {
        fib((n - 1) as nat) + fib((n - 2) as nat)
    }
}

/// Computes `F(n)` exactly, by `n - 1` additions of two running terms.
pub fn calculate_fibonacci(n: u64) -> (r: BigUint)
    ensures
        big_value(r) == fib(n as nat),
{
    if n == 0 {
        return big_from_u32(0);
    }
    if n == 1 {
        return big_from_u32(1);
    }
    let mut a = big_from_u32(0);
    let mut b = big_from_u32(1);
    let mut k: u64 = 1;
    while k < n
        invariant
            1 <= k <= n,
            big_value(a) == fib((k - 1) as nat),
            big_value(b) == fib(k as nat),
        decreases n - k,
    {
        let next = big_add(&a, &b);
        a = b;
        b = next;
        k = k + 1;
    }
    b
}

} // verus!
