//! The request path end to end: index, clamp, term, decimal numeral.

use vstd::prelude::*;
use crate::bignum::{big_to_decimal, decimal_of};
use crate::fib::{calculate_fibonacci, fib};
use crate::path::{extract_fibonacci_number, extracted_index, parse_u64, split_slashes, trim_slashes};

verus! {

/// The largest index ever handed to the accumulator.
pub const CEILING: u64 = 1000;

/// `n`, held down to `ceiling`.
pub open spec fn clamped(n: u64, ceiling: u64) -> u64 {
    if n <= ceiling {
        n
    } else {
        ceiling
    }
}

/// What is served for a requested index `n`: the clamped index and the
/// decimal numeral of its Fibonacci term.
pub open spec fn answer(n: u64) -> (u64, Seq<char>) {
    let k = clamped(n, CEILING);
    (k, decimal_of(fib(k as nat)))
}

/// The index served and the decimal numeral of its term.
pub struct FibonacciReply {
    pub n: u64,
    pub fibonacci: String,
}

impl View for FibonacciReply {
    type V = (u64, Seq<char>);

    open spec fn view(&self) -> (u64, Seq<char>) {
        (self.n, self.fibonacci@)
    }
}

/// Holds `n` down to `ceiling`.
pub fn clamp_index(n: u64, ceiling: u64) -> (r: u64)
    ensures
        r == clamped(n, ceiling),
{
    if n <= ceiling {
        n
    } else {
        ceiling
    }
}

/// The reply for a requested index: clamped to `CEILING`, then computed.
pub fn fibonacci_for_index(n: u64) -> (r: FibonacciReply)
    ensures
        r@ == answer(n),
{
    let k = clamp_index(n, CEILING);
    let term = calculate_fibonacci(k);
    let fibonacci = big_to_decimal(&term);
    FibonacciReply { n: k, fibonacci }
}

/// The reply for a request path; a path that names no index gets that of 0.
pub fn fibonacci_for_path(path: &str) -> (r: FibonacciReply)
    ensures
        r@ == answer(extracted_index(path@)),
{
    let n = extract_fibonacci_number(path);
    fibonacci_for_index(n)
}

/// Each term from the third on is the sum of the two before it, up to the
/// ceiling.
pub proof fn lemma_fib_recurrence(n: nat)
    requires
        2 <= n <= CEILING,
    ensures
        fib(n) == fib((n - 1) as nat) + fib((n - 2) as nat),
{
}

/// From index 1 on, the terms never decrease.
pub proof fn lemma_fib_monotone(n: nat)
    requires
        n >= 1,
    ensures
        fib(n) <= fib(n + 1),
{
}

/// Every index beyond the ceiling is served as the ceiling itself.
pub proof fn lemma_beyond_ceiling(n: u64)
    requires
        n >= CEILING,
    ensures
        answer(n) == answer(CEILING),
{
}

/// A path without `api` and `fib` as its first two segments, or whose third
/// segment is not a `u64` numeral, requests index 0 and is served `"0"`.
pub proof fn lemma_unmatched_path(path: Seq<char>)
    requires
        ({
            let parts = split_slashes(trim_slashes(path));
            parts.len() < 3 || parts[0] != seq!['a', 'p', 'i'] || parts[1] != seq!['f', 'i', 'b']
                || parse_u64(parts[2]) is None
        }),
    ensures
        extracted_index(path) == 0,
        answer(extracted_index(path)) == (0u64, seq!['0']),
{
    assert(decimal_of(0) =~= seq!['0']);
}

/// Two replies for the same index carry the same numeral: the reply depends
/// on the index alone.
pub proof fn lemma_reply_repeatable(n: u64, first: FibonacciReply, second: FibonacciReply)
    requires
        first@ == answer(n),
        second@ == answer(n),
    ensures
        first.fibonacci@ == second.fibonacci@,
        first.n == second.n,
{
}

} // verus!
