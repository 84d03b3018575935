use boids::fixed::{isqrt, quotient, EPSILON, EPSILON_SQUARED, LIMIT, ONE, ONE_SQUARED, VECTOR_LIMIT};

#[test]
fn isqrt_of_small_numbers() {
    let expected: [u64; 18] = [0, 1, 1, 1, 2, 2, 2, 2, 2, 3, 3, 3, 3, 3, 3, 3, 4, 4];
    for (n, root) in expected.iter().enumerate() {
        assert_eq!(isqrt(n as u128), *root);
    }
}

#[test]
fn isqrt_rounds_down_next_to_a_square() {
    let r: u128 = 1_000_000_007;
    assert_eq!(isqrt(r * r), r as u64);
    assert_eq!(isqrt(r * r - 1), (r - 1) as u64);
    assert_eq!(isqrt(r * r + 2 * r), r as u64);
    assert_eq!(isqrt(r * r + 2 * r + 1), (r + 1) as u64);
}

#[test]
fn isqrt_of_the_largest_numbers() {
    assert_eq!(isqrt(u128::MAX), u64::MAX);
    let m = u64::MAX as u128;
    assert_eq!(isqrt(m * m), u64::MAX);
    assert_eq!(isqrt(m * m - 1), u64::MAX - 1);
    assert_eq!(isqrt(1u128 << 126), 1u64 << 63);
}

#[test]
fn quotient_rounds_toward_zero() {
    assert_eq!(quotient(7, 2), 3);
    assert_eq!(quotient(-7, 2), -3);
    assert_eq!(quotient(6, 2), 3);
    assert_eq!(quotient(-6, 2), -3);
    assert_eq!(quotient(1, 2), 0);
    assert_eq!(quotient(-1, 2), 0);
    assert_eq!(quotient(0, 5), 0);
}

#[test]
fn constants_agree_with_each_other() {
    assert_eq!(ONE, 1 << 16);
    assert_eq!(ONE_SQUARED, (ONE as u128) * (ONE as u128));
    assert_eq!(LIMIT, 1 << 40);
    assert_eq!(VECTOR_LIMIT, 1 << 46);
    assert_eq!(EPSILON_SQUARED, (EPSILON as u128) * (EPSILON as u128));
}
