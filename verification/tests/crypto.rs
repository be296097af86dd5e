//! The polynomial algebra: the three multiplication routines agree with
//! each other and with random-point evaluation checks.

use aptos_dkg::algebra::polynomials::{
    poly_eval, poly_mul_fft, poly_mul_less_slow, poly_mul_slow, poly_xnmul,
};
use aptos_dkg::algebra::scalar::{scalar_add, scalar_invert, scalar_mul, scalar_neg, Scalar};
use aptos_dkg::utils::random::{random_scalar, random_scalars, RandomSource};
use aptos_dkg::utils::{hash_to_scalar, is_power_of_two};

#[test]
fn test_poly_multiply() {
    let mut rng = RandomSource::new();
    for num_coeffs_f in [1, 2, 3, 4, 5, 6, 7, 8] {
        for num_coeffs_g in [1, 2, 3, 4, 5, 6, 7, 8] {
            let f = random_scalars(num_coeffs_f, &mut rng);
            let g = random_scalars(num_coeffs_g, &mut rng);

            // FFT-based multiplication
            let fft_fg = poly_mul_fft(&f, &g);

            // Naive multiplication
            let naive_fg = poly_mul_slow(&f, &g);

            // Correctness of h(X) = f(X) * g(X) at a random point r:
            // h(r) must equal f(r) * g(r).
            let r = random_scalar(&mut rng);

            let fg_rand = scalar_mul(&poly_eval(&f, &r), &poly_eval(&g, &r));
            let fft_fg_rand = poly_eval(&fft_fg, &r);
            assert_eq!(fft_fg_rand, fg_rand);

            // The naive multiplication passes the same random-point check.
            let naive_fg_rand = poly_eval(&naive_fg, &r);
            assert_eq!(naive_fg_rand, fg_rand);

            // And of course the two results agree coefficient by coefficient.
            assert_eq!(naive_fg, fft_fg);
        }
    }
}

#[test]
fn test_poly_multiply_divide_and_conquer() {
    let mut rng = RandomSource::new();
    for log_n in [1, 2, 3, 4, 5, 6, 7, 8] {
        let n = 1 << log_n;
        let f = random_scalars(n, &mut rng);
        let g = random_scalars(n, &mut rng);

        let fg = poly_mul_less_slow(&f, &g);

        // FFT-based multiplication
        let fft_fg = poly_mul_fft(&f, &g);
        assert_eq!(fg, fft_fg);

        // Schwartz-Zippel test
        let r = random_scalar(&mut rng);
        let fg_rand = scalar_mul(&poly_eval(&f, &r), &poly_eval(&g, &r));
        let our_fg_rand = poly_eval(&fg, &r);
        assert_eq!(our_fg_rand, fg_rand);
    }
}

#[test]
fn test_poly_shift() {
    let mut rng = RandomSource::new();
    for num_coeffs_f in [1, 2, 3, 4, 5, 6, 7, 8] {
        for n in 0..16 {
            // the coefficients of X^n
            let mut xn = Vec::with_capacity(n + 1);
            xn.resize(n + 1, Scalar::zero());
            xn[n] = Scalar::one();

            // a random f
            let f = random_scalars(num_coeffs_f, &mut rng);

            // f(X) * X^n via shift
            let shifted1 = poly_xnmul(&f, n);
            // f(X) * X^n via multiplication
            let shifted2 = poly_mul_fft(&f, &xn);

            assert_eq!(shifted1, shifted2);
        }
    }
}

#[test]
fn test_poly_eval_exact_value() {
    // f(X) = 2 + 3 X evaluated at 5 is 17.
    let f = vec![Scalar::from_u64(2), Scalar::from_u64(3)];
    let x = Scalar::from_u64(5);
    assert_eq!(poly_eval(&f, &x), Scalar::from_u64(17));

    // f(X) = 1 + 2 X + 3 X^2 at 10 is 321.
    let f = vec![Scalar::from_u64(1), Scalar::from_u64(2), Scalar::from_u64(3)];
    let x = Scalar::from_u64(10);
    assert_eq!(poly_eval(&f, &x), Scalar::from_u64(321));
}

#[test]
fn test_poly_mul_exact_value() {
    // (1 + 2 X) * (3 + 4 X) = 3 + 10 X + 8 X^2
    let f = vec![Scalar::from_u64(1), Scalar::from_u64(2)];
    let g = vec![Scalar::from_u64(3), Scalar::from_u64(4)];
    let expected = vec![Scalar::from_u64(3), Scalar::from_u64(10), Scalar::from_u64(8)];
    assert_eq!(poly_mul_slow(&f, &g), expected);
    assert_eq!(poly_mul_fft(&f, &g), expected);
}

#[test]
fn test_scalar_arithmetic() {
    // -1 + 1 = 0
    let one = Scalar::one();
    assert_eq!(scalar_add(&scalar_neg(&one), &one), Scalar::zero());
    // 2 * inverse(2) = 1
    let two = Scalar::from_u64(2);
    let inv = scalar_invert(&two).expect("two must have an inverse");
    assert_eq!(scalar_mul(&two, &inv), one);
    // zero has no inverse
    assert!(scalar_invert(&Scalar::zero()).is_none());
    // byte round trip of a small scalar
    assert_eq!(Scalar::from_u64(7).to_bytes_le()[0], 7u8);
}

#[test]
fn test_is_power_of_two() {
    assert!(!is_power_of_two(0));
    assert!(is_power_of_two(1));
    assert!(is_power_of_two(2));
    assert!(!is_power_of_two(3));
    assert!(is_power_of_two(4096));
    assert!(!is_power_of_two(4097));
}

#[test]
fn test_hash_to_scalar_domain_separation() {
    let msg1 = vec![1u8, 2, 3];
    let msg2 = vec![1u8, 2, 4];
    let dst1 = vec![10u8];
    let dst2 = vec![11u8];
    // deterministic
    assert_eq!(hash_to_scalar(&msg1, &dst1), hash_to_scalar(&msg1, &dst1));
    // sensitive to the message and to the tag
    assert_ne!(hash_to_scalar(&msg1, &dst1), hash_to_scalar(&msg2, &dst1));
    assert_ne!(hash_to_scalar(&msg1, &dst1), hash_to_scalar(&msg1, &dst2));
}
