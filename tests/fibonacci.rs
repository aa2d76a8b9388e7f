use fibonacci_api::fib::calculate_fibonacci;
use fibonacci_api::path::extract_fibonacci_number;
use fibonacci_api::service::{clamp_index, fibonacci_for_index, fibonacci_for_path, CEILING};
use num_bigint::BigUint;

const F_1000: &str = "43466557686937456435688527675040625802564660517371780402481729089536555417949051890403879840079255169295922593080322634775209689623239873322471161642996440906533187938298969649928516003704476137795166849228875";

#[test]
fn first_terms_exact() {
    assert_eq!(calculate_fibonacci(0).to_string(), "0");
    assert_eq!(calculate_fibonacci(1).to_string(), "1");
    assert_eq!(calculate_fibonacci(2).to_string(), "1");
    assert_eq!(calculate_fibonacci(10).to_string(), "55");
    assert_eq!(calculate_fibonacci(20).to_string(), "6765");
}

#[test]
fn first_terms_through_reply() {
    assert_eq!(fibonacci_for_index(0).fibonacci, "0");
    assert_eq!(fibonacci_for_index(1).fibonacci, "1");
    assert_eq!(fibonacci_for_index(2).fibonacci, "1");
    assert_eq!(fibonacci_for_index(10).fibonacci, "55");
    assert_eq!(fibonacci_for_index(20).fibonacci, "6765");
}

#[test]
fn hundredth_and_ceiling_terms() {
    assert_eq!(fibonacci_for_index(100).fibonacci, "354224848179261915075");
    assert_eq!(fibonacci_for_index(1000).fibonacci, F_1000);
    assert_eq!(calculate_fibonacci(1000).to_string().len(), 209);
}

#[test]
fn recurrence_against_reference_values() {
    let mut reference: Vec<BigUint> = vec![BigUint::from(0u32), BigUint::from(1u32)];
    for k in 2..=(CEILING as usize) {
        let next = &reference[k - 1] + &reference[k - 2];
        reference.push(next);
    }
    for n in 0..=CEILING {
        assert_eq!(calculate_fibonacci(n), reference[n as usize]);
    }
    for n in 2..=CEILING {
        let sum = calculate_fibonacci(n - 1) + calculate_fibonacci(n - 2);
        assert_eq!(calculate_fibonacci(n), sum);
    }
}

#[test]
fn terms_never_decrease() {
    for n in 1..CEILING {
        assert!(calculate_fibonacci(n) <= calculate_fibonacci(n + 1));
    }
}

#[test]
fn index_beyond_ceiling_is_clamped() {
    let far = fibonacci_for_path("/api/fib/5000");
    let top = fibonacci_for_index(CEILING);
    assert_eq!(far.n, 1000);
    assert_eq!(far.fibonacci, top.fibonacci);
    assert_eq!(far.fibonacci, F_1000);
    let largest = fibonacci_for_path("/api/fib/18446744073709551615");
    assert_eq!(largest.n, 1000);
    assert_eq!(largest.fibonacci, F_1000);
}

#[test]
fn clamp_holds_down_to_ceiling() {
    assert_eq!(clamp_index(5000, 1000), 1000);
    assert_eq!(clamp_index(1000, 1000), 1000);
    assert_eq!(clamp_index(999, 1000), 999);
    assert_eq!(clamp_index(0, 1000), 0);
    assert_eq!(clamp_index(u64::MAX, 7), 7);
}

#[test]
fn unmatched_paths_give_zero() {
    for path in ["/api/fib/abc", "/foo/bar/5", ""] {
        assert_eq!(extract_fibonacci_number(path), 0);
        let reply = fibonacci_for_path(path);
        assert_eq!(reply.n, 0);
        assert_eq!(reply.fibonacci, "0");
    }
}

#[test]
fn extractor_reads_third_segment() {
    assert_eq!(extract_fibonacci_number("/api/fib/10"), 10);
    assert_eq!(extract_fibonacci_number("api/fib/10"), 10);
    assert_eq!(extract_fibonacci_number("///api/fib/42///"), 42);
    assert_eq!(extract_fibonacci_number("/api/fib/7/extra"), 7);
    assert_eq!(extract_fibonacci_number("/api/fib/0"), 0);
    assert_eq!(extract_fibonacci_number("/api/fib/007"), 7);
    assert_eq!(extract_fibonacci_number("/api/fib/+12"), 12);
    assert_eq!(extract_fibonacci_number("/api/fib/18446744073709551615"), u64::MAX);
}

#[test]
fn extractor_rejects_bad_numerals() {
    assert_eq!(extract_fibonacci_number("/api/fib/-3"), 0);
    assert_eq!(extract_fibonacci_number("/api/fib/+"), 0);
    assert_eq!(extract_fibonacci_number("/api/fib/"), 0);
    assert_eq!(extract_fibonacci_number("/api/fib//5"), 0);
    assert_eq!(extract_fibonacci_number("/api/fib/12a"), 0);
    assert_eq!(extract_fibonacci_number("/api/fib/1.5"), 0);
    assert_eq!(extract_fibonacci_number("/api/fib/18446744073709551616"), 0);
    assert_eq!(extract_fibonacci_number("/api/fib/99999999999999999999999"), 0);
    assert_eq!(extract_fibonacci_number("/api/fib/\u{0663}"), 0);
}

#[test]
fn extractor_needs_both_prefix_words() {
    assert_eq!(extract_fibonacci_number("/api/fibo/5"), 0);
    assert_eq!(extract_fibonacci_number("/API/fib/5"), 0);
    assert_eq!(extract_fibonacci_number("/fib/api/5"), 0);
    assert_eq!(extract_fibonacci_number("/api/fib"), 0);
    assert_eq!(extract_fibonacci_number("/"), 0);
    assert_eq!(extract_fibonacci_number("//api//fib/5"), 0);
    assert_eq!(extract_fibonacci_number("/é/fib/5"), 0);
}

#[test]
fn repeated_requests_agree() {
    let first = fibonacci_for_path("/api/fib/777");
    let second = fibonacci_for_path("/api/fib/777");
    assert_eq!(first.n, second.n);
    assert_eq!(first.fibonacci.as_bytes(), second.fibonacci.as_bytes());
    assert_eq!(fibonacci_for_index(500).fibonacci, fibonacci_for_index(500).fibonacci);
}
