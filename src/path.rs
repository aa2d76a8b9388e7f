//! Recovering the requested index from a request path.

use vstd::prelude::*;

verus! {

/// `s` without its leading `'/'` characters.
pub open spec fn strip_leading(s: Seq<char>) -> Seq<char>
    decreases s.len(),
{
    if s.len() > 0 && s[0] == '/' {
        strip_leading(s.drop_first())
    } else {
        s
    }
}

/// `s` without its trailing `'/'` characters.
pub open spec fn strip_trailing(s: Seq<char>) -> Seq<char>
    decreases s.len(),
{
    if s.len() > 0 && s.last() == '/' {
        strip_trailing(s.drop_last())
    } else {
        s
    }
}

/// `s` with every leading and trailing `'/'` removed.
pub open spec fn trim_slashes(s: Seq<char>) -> Seq<char> {
    strip_trailing(strip_leading(s))
}

/// The segments of `s` between its `'/'` characters, in order: one more
/// segment than there are separators, empty ones included.
pub open spec fn split_slashes(s: Seq<char>) -> Seq<Seq<char>>
    decreases s.len(),
{
    if s.len() == 0 {
        seq![Seq::empty()]
    } else {
        let init = split_slashes(s.drop_last());
        if s.last() == '/' {
            init.push(Seq::empty())
        } else {
            init.update(init.len() - 1, init.last().push(s.last()))
        }
    }
}

/// The value of a decimal digit, `'0'` to `'9'`.
pub open spec fn digit_value(c: char) -> nat {
    (c as u32 - '0' as u32) as nat
}

/// Whether `c` is one of `'0'` to `'9'`.
pub open spec fn is_digit(c: char) -> bool {
    '0' <= c && c <= '9'
}

/// Whether every character of `s` is a decimal digit.
pub open spec fn all_digits(s: Seq<char>) -> bool {
    forall|i: int| 0 <= i < s.len() ==> is_digit(#[trigger] s[i])
}

/// The number that the decimal digits `s` spell, most significant first.
pub open spec fn digits_value(s: Seq<char>) -> nat
    decreases s.len(),
{
    if s.len() == 0 {
        0
    } else {
        digits_value(s.drop_last()) * 10 + digit_value(s.last())
    }
}

/// The digits of a numeral, without its optional leading `'+'`.
pub open spec fn unsigned_body(s: Seq<char>) -> Seq<char> {
    if s.len() > 0 && s[0] == '+' {
        s.drop_first()
    } else {
        s
    }
}

/// What reading `s` as a base-10 `u64` gives: an optional `'+'`, then one
/// or more decimal digits whose value fits in a `u64`; `None` otherwise.
pub open spec fn parse_u64(s: Seq<char>) -> Option<u64> {
    let body = unsigned_body(s);
    if body.len() > 0 && all_digits(body) && digits_value(body) <= u64::MAX {
        Some(digits_value(body) as u64)
    } else {
        None
    }
}

/// The index that `path` requests: the third segment of the trimmed path,
/// read as a `u64`, when the first two are `api` and `fib`; zero otherwise.
pub open spec fn extracted_index(path: Seq<char>) -> u64 {
    let parts = split_slashes(trim_slashes(path));
    if parts.len() >= 3 && parts[0] == seq!['a', 'p', 'i'] && parts[1] == seq!['f', 'i', 'b'] {
        match parse_u64(parts[2]) {
            Some(v) => v,
            None => 0,
        }
    } else {
        0
    }
}

/// The characters of `s`, in order.
fn chars_of(s: &str) -> (r: Vec<char>)
    ensures
        r@ == s@,
{
    let mut r: Vec<char> = Vec::new();
    for c in it: s.chars()
        invariant
            r@ == it.seq().take(it.index() as int),
    {
        r.push(c);
    }
    assert(r@ =~= s@);
    r
}

/// A prefix of a numeral spells at most what the whole numeral spells.
proof fn lemma_digits_value_prefix(s: Seq<char>, k: int)
    requires
        0 <= k <= s.len(),
    ensures
        digits_value(s.take(k)) <= digits_value(s),
    decreases s.len(),
{
    if k < s.len() {
        lemma_digits_value_prefix(s.drop_last(), k);
        assert(s.drop_last().take(k) =~= s.take(k));
    } else {
        assert(s.take(k) =~= s);
    }
}

/// The bounds of `s` once its leading and trailing `'/'` are removed.
fn trim_bounds(s: &Vec<char>) -> (r: (usize, usize))
    ensures
        r.0 <= r.1 <= s.len(),
        s@.subrange(r.0 as int, r.1 as int) == trim_slashes(s@),
{
    let n = s.len();
    let mut lo: usize = 0;
    assert(s@.subrange(0, n as int) =~= s@);
    while lo < n && s[lo] == '/'
        invariant
            lo <= n == s.len(),
            strip_leading(s@) == strip_leading(s@.subrange(lo as int, n as int)),
        decreases n - lo,
    {
        assert(s@.subrange(lo + 1, n as int) =~= s@.subrange(lo as int, n as int).drop_first());
        lo = lo + 1;
    }
    let mut hi: usize = n;
    while hi > lo && s[hi - 1] == '/'
        invariant
            lo <= hi <= n == s.len(),
            strip_leading(s@) == s@.subrange(lo as int, n as int),
            trim_slashes(s@) == strip_trailing(s@.subrange(lo as int, hi as int)),
        decreases hi,
    {
        assert(s@.subrange(lo as int, hi - 1) =~= s@.subrange(lo as int, hi as int).drop_last());
        hi = hi - 1;
    }
    (lo, hi)
}

/// The `'/'`-separated segments of `s[lo..hi]`.
fn split_segments(s: &Vec<char>, lo: usize, hi: usize) -> (r: Vec<Vec<char>>)
    requires
        lo <= hi <= s.len(),
    ensures
        r.len() == split_slashes(s@.subrange(lo as int, hi as int)).len(),
        forall|j: int|
            0 <= j < r.len() ==> r[j]@ == split_slashes(s@.subrange(lo as int, hi as int))[j],
{
    let mut segs: Vec<Vec<char>> = Vec::new();
    let mut cur: Vec<char> = Vec::new();
    let mut i: usize = lo;
    assert(s@.subrange(lo as int, lo as int) =~= Seq::<char>::empty());
    while i < hi
        invariant
            lo <= i <= hi <= s.len(),
            split_slashes(s@.subrange(lo as int, i as int)).len() == segs.len() + 1,
            forall|j: int|
                0 <= j < segs.len() ==> segs[j]@ == split_slashes(
                    s@.subrange(lo as int, i as int),
                )[j],
            split_slashes(s@.subrange(lo as int, i as int)).last() == cur@,
        decreases hi - i,
    {
        let c = s[i];
        assert(s@.subrange(lo as int, i + 1).drop_last() =~= s@.subrange(lo as int, i as int));
        if c == '/' {
            segs.push(cur);
            cur = Vec::new();
        } else {
            cur.push(c);
        }
        i = i + 1;
    }
    segs.push(cur);
    segs
}

/// Reads `s` as a base-10 `u64`, as `parse_u64` describes.
fn parse_u64_chars(s: &Vec<char>) -> (r: Option<u64>)
    ensures
        r == parse_u64(s@),
{
    let n = s.len();
    let start: usize = if n > 0 && s[0] == '+' {
        1
    } else {
        0
    };
    let ghost body = unsigned_body(s@);
    assert(body =~= s@.subrange(start as int, n as int));
    if start == n {
        return None;
    }
    let mut v: u64 = 0;
    let mut i: usize = start;
    assert(s@.subrange(start as int, start as int) =~= Seq::<char>::empty());
    while i < n
        invariant
            start <= i <= n == s.len(),
            body == unsigned_body(s@),
            body == s@.subrange(start as int, n as int),
            body.len() > 0,
            all_digits(s@.subrange(start as int, i as int)),
            v as nat == digits_value(s@.subrange(start as int, i as int)),
        decreases n - i,
    {
        let c = s[i];
        let ghost next = s@.subrange(start as int, i + 1);
        assert(next.drop_last() =~= s@.subrange(start as int, i as int));
        assert(body.take(i + 1 - start) =~= next);
        if !('0' <= c && c <= '9') {
            assert(body[i - start] == c);
            assert(!all_digits(body));
            return None;
        }
        let d: u64 = (c as u32 - '0' as u32) as u64;
        if v > (u64::MAX - d) / 10 {
            proof {
                assert(v * 10 + d > u64::MAX) by (nonlinear_arith)
                    requires
                        v > (u64::MAX - d) / 10,
                        d <= 9,
                ;
                assert(digit_value(c) == d);
                assert(digits_value(next) == v * 10 + d);
                lemma_digits_value_prefix(body, i + 1 - start);
            }
            return None;
        }
        v = v * 10 + d;
        i = i + 1;
    }
    assert(s@.subrange(start as int, n as int) =~= body);
    Some(v)
}

/// Whether `a` and `b` hold the same characters.
fn same_chars(a: &Vec<char>, b: &Vec<char>) -> (r: bool)
    ensures
        r == (a@ == b@),
{
    if a.len() != b.len() {
        return false;
    }
    let mut i: usize = 0;
    while i < a.len()
        invariant
            i <= a.len() == b.len(),
            forall|j: int| 0 <= j < i ==> a@[j] == b@[j],
        decreases a.len() - i,
    {
        if a[i] != b[i] {
            return false;
        }
        i = i + 1;
    }
    assert(a@ =~= b@);
    true
}

/// The index that `path` requests, or zero where it names none.
pub fn extract_fibonacci_number(path: &str) -> (r: u64)
    ensures
        r == extracted_index(path@),
{
    let s = chars_of(path);
    let (lo, hi) = trim_bounds(&s);
    let parts = split_segments(&s, lo, hi);
    if parts.len() >= 3 && same_chars(&parts[0], &vec!['a', 'p', 'i']) && same_chars(
        &parts[1],
        &vec!['f', 'i', 'b'],
    ) {
        match parse_u64_chars(&parts[2]) {
            Some(v) => v,
            None => 0,
        }
    } else {
        0
    }
}

} // verus!
