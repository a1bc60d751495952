use primality::is_prime;

#[test]
fn below_two_is_not_prime() {
    assert!(!is_prime(0));
    assert!(!is_prime(1));
}

#[test]
fn small_values() {
    assert!(is_prime(2));
    assert!(is_prime(3));
    assert!(!is_prime(4));
    assert!(!is_prime(9));
    assert!(is_prime(17));
}

#[test]
fn matches_divisor_search() {
    for n in 2u32..2000 {
        let has_divisor = (2..n).any(|d| n % d == 0);
        assert_eq!(is_prime(n), !has_divisor, "n = {}", n);
    }
}

#[test]
fn repeated_calls_agree() {
    for n in [0u32, 1, 2, 15, 97, 65521, 4294967291, u32::MAX] {
        assert_eq!(is_prime(n), is_prime(n));
    }
}

#[test]
fn largest_u32_is_composite() {
    // 4294967295 = 3 * 5 * 17 * 257 * 65537
    assert!(!is_prime(4294967295));
}

#[test]
fn largest_u32_prime() {
    assert!(is_prime(4294967291));
}

#[test]
fn square_of_largest_16_bit_prime() {
    assert!(is_prime(65521));
    assert!(!is_prime(65521 * 65521));
}

#[test]
fn squares_of_primes() {
    assert!(!is_prime(25));
    assert!(!is_prime(49));
    assert!(!is_prime(3 * 65537));
    assert!(is_prime(65537));
}
