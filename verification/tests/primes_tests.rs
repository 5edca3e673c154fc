use numpipe::primes::{is_prime, max_factor};

#[test]
fn complicated_test() {
    let sieve = [
        0, 0, 1, 1, 0, 1, 0, 1, 0, 0, 0, 1, 0, 1, 0, 0, 0, 1, 0, 1, 0,
    ];
    let v: Vec<u32> = sieve
        .iter()
        .enumerate()
        .filter(|(_, val)| **val == 1)
        .map(|(i, _)| i as u32)
        .collect();
    assert_eq!(v, vec![2, 3, 5, 7, 11, 13, 17, 19]);

    let sum: u32 = (10000..=20000).filter(|i| is_prime(*i)).sum();
    assert_eq!(sum, 15434795);
}

#[test]
fn agrees_with_trial_division_oracle() {
    let oracle = |n: u32| -> bool {
        if n < 2 {
            return false;
        }
        let mut d: u32 = 2;
        while d < n {
            if n % d == 0 {
                return false;
            }
            d += 1;
        }
        true
    };
    for n in 2..=10000u32 {
        assert_eq!(is_prime(n), oracle(n), "disagreement at {}", n);
    }
}

#[test]
fn two_is_prime() {
    // the mathematical definition is followed: 2 is prime
    assert!(is_prime(2));
}

#[test]
fn small_primality_cases() {
    assert!(!is_prime(0));
    assert!(!is_prime(1));
    assert!(is_prime(3));
    assert!(!is_prime(4));
    assert!(is_prime(5));
    assert!(!is_prime(9));
    assert!(is_prime(7919));
    assert!(!is_prime(7917));
}

#[test]
fn max_factor_cases() {
    assert_eq!(max_factor(10), 5);
    assert_eq!(max_factor(1), 1);
    assert_eq!(max_factor(97), 97);
    assert_eq!(max_factor(2), 2);
    assert_eq!(max_factor(600851475143), 6857);
    assert_eq!(max_factor(1024), 2);
}
