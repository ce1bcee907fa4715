use proof_of_sql::conversions::{
    convert_i256_to_scalar, convert_scalar_to_i256, max_supported_i256, min_supported_i256,
};
use proof_of_sql::int256::{Int256, I256};
use proof_of_sql::scalar::Scalar;
use rand::{Rng, RngCore};

/// Generate a random Int256 within the supported range. Values generated by
/// this function will fit into the Int256 but will not exceed 252 bits of width.
fn random_i256<R: RngCore + ?Sized>(rng: &mut R) -> Int256 {
    let max_signed_as_parts: (u128, i128) =
        convert_scalar_to_i256(&Scalar::max_signed()).to_parts();

    // Generate a random high part
    let high: i128 = rng.gen_range(-max_signed_as_parts.1..=max_signed_as_parts.1);

    // Generate a random low part, adjusted based on the high part
    let low: u128 = if high < max_signed_as_parts.1 {
        rng.gen()
    } else {
        rng.gen_range(0..=max_signed_as_parts.0)
    };

    Int256::from_parts(low, high)
}

#[test]
fn test_testscalar_to_i256_conversion() {
    let positive_scalar = Scalar::from_i64(12345);
    let expected_i256 = Int256::from_i128(12345);
    assert_eq!(convert_scalar_to_i256(&positive_scalar), expected_i256);

    let negative_scalar = Scalar::from_i64(-12345);
    let expected_i256 = Int256::from_i128(-12345);
    assert_eq!(convert_scalar_to_i256(&negative_scalar), expected_i256);

    let max_scalar = Scalar::max_signed();
    let expected_max = convert_scalar_to_i256(&Scalar::max_signed());
    assert_eq!(convert_scalar_to_i256(&max_scalar), expected_max);

    let min_scalar = Scalar::from_i64(0);
    let expected_min = convert_scalar_to_i256(&Scalar::from_i64(0));
    assert_eq!(convert_scalar_to_i256(&min_scalar), expected_min);
}

#[test]
fn test_testscalar_i256_overflow_and_underflow() {
    // 2^256 overflows
    assert!(convert_i256_to_scalar(&Int256::max()).is_none());

    // MAX_SIGNED + 1 overflows
    assert!(convert_i256_to_scalar(&max_supported_i256().add(&Int256::from_i128(1))).is_none());

    // -2^255 underflows
    assert!(Int256::min().lt(&convert_scalar_to_i256(&Scalar::max_signed()).wrapping_neg()));
    assert!(convert_i256_to_scalar(&Int256::min()).is_none());

    // -MAX-SIGNED - 1 underflows
    assert!(convert_i256_to_scalar(&min_supported_i256().sub(&Int256::from_i128(1))).is_none());
}

#[test]
fn test_i256_testscalar_negative() {
    // Test conversion from Int256(-1) to a scalar
    let neg_one_i256_testscalar = convert_i256_to_scalar(&Int256::from_i128(-1));
    assert!(neg_one_i256_testscalar.is_some());
    let neg_one_testscalar = Scalar::from_i64(-1);
    assert_eq!(neg_one_i256_testscalar.unwrap(), neg_one_testscalar);
}

#[test]
fn test_i256_testscalar_zero() {
    // Test conversion from Int256(0) to a scalar
    let zero_i256_testscalar = convert_i256_to_scalar(&Int256::from_i128(0));
    assert!(zero_i256_testscalar.is_some());
    let zero_testscalar = Scalar::from_i64(0);
    assert_eq!(zero_i256_testscalar.unwrap(), zero_testscalar);
}

#[test]
fn test_i256_testscalar_positive() {
    // Test conversion from Int256(42) to a scalar
    let forty_two_i256_testscalar = convert_i256_to_scalar(&Int256::from_i128(42));
    let forty_two_testscalar = Scalar::from_i64(42);
    assert_eq!(forty_two_i256_testscalar.unwrap(), forty_two_testscalar);
}

#[test]
fn test_i256_testscalar_max_signed() {
    let max_signed = max_supported_i256();
    // max signed value
    let max_signed_scalar = Scalar::max_signed();
    // Test conversion from Int256 to a scalar
    let i256_testscalar = convert_i256_to_scalar(&max_signed);
    assert!(i256_testscalar.is_some());
    assert_eq!(i256_testscalar.unwrap(), max_signed_scalar);
}

#[test]
fn test_i256_testscalar_min_signed() {
    let min_signed = min_supported_i256();
    let i256_testscalar = convert_i256_to_scalar(&min_signed);
    // -MAX_SIGNED is ok
    assert!(i256_testscalar.is_some());
    // the scalar MAX_SIGNED + 1, the field's most negative representable value
    assert_eq!(i256_testscalar.unwrap(), Scalar::max_signed().neg());
}

#[test]
fn test_i256_testscalar_random() {
    let mut rng = rand::thread_rng();
    for _ in 0..1000 {
        let i256_value = random_i256(&mut rng);
        let scalar_value = convert_i256_to_scalar(&i256_value).expect("Conversion failed");
        let back_to_i256 = convert_scalar_to_i256(&scalar_value);
        assert_eq!(i256_value, back_to_i256, "Round-trip conversion failed");
    }
}

#[test]
fn test_arrow_i256_to_posql_i256_conversion() {
    // Test zero
    assert_eq!(I256::from(Int256::from_i128(0)), I256::new([0, 0, 0, 0]));

    // Test positive values
    assert_eq!(I256::from(Int256::from_i128(1)), I256::new([1, 0, 0, 0]));
    assert_eq!(I256::from(Int256::from_i128(2)), I256::new([2, 0, 0, 0]));

    // Test negative values
    assert_eq!(I256::from(Int256::from_i128(-1)), I256::new([u64::MAX; 4]));
    assert_eq!(
        I256::from(Int256::from_i128(-2)),
        I256::new([u64::MAX - 1, u64::MAX, u64::MAX, u64::MAX])
    );

    // Test some boundary values
    assert_eq!(
        I256::from(Int256::max()),
        I256::new([u64::MAX, u64::MAX, u64::MAX, i64::MAX as u64])
    );
    assert_eq!(I256::from(Int256::min()), I256::new([0, 0, 0, i64::MIN as u64]));

    // Test other values
    assert_eq!(I256::from(Int256::from_parts(40, 20)), I256::new([40, 0, 20, 0]));
    assert_eq!(
        I256::from(Int256::from_parts(20, -20)),
        I256::new([20, 0, u64::MAX - 19, u64::MAX])
    );
}

#[test]
fn scalar_to_i256_reaches_the_supported_bounds() {
    // The forward map sends MAX_SIGNED to the upper bound exactly ...
    assert_eq!(convert_scalar_to_i256(&Scalar::max_signed()), max_supported_i256());
    // ... and the field's most negative value, MAX_SIGNED + 1, to the lower bound.
    assert_eq!(convert_scalar_to_i256(&Scalar::max_signed().neg()), min_supported_i256());
}

#[test]
fn round_trip_holds_at_limb_boundaries() {
    let one = 1u64;
    let boundary_limbs: [[u64; 4]; 9] = [
        [0, 0, 0, 0],
        [u64::MAX, 0, 0, 0],
        [0, one, 0, 0],
        [u64::MAX, u64::MAX, 0, 0],
        [0, 0, one, 0],
        [u64::MAX, u64::MAX, u64::MAX, 0],
        [0, 0, 0, one],
        [12345, 678910, 111213, 141516],
        // MAX_SIGNED itself
        [3173121894899182070, 751957030100258411, 0, 576460752303423488],
    ];
    for limbs in boundary_limbs {
        let s = Scalar::from_limbs(limbs);
        let v = convert_scalar_to_i256(&s);
        assert_eq!(convert_i256_to_scalar(&v), Some(s));
        // the same holds after field negation
        let n = s.neg();
        let vn = convert_scalar_to_i256(&n);
        assert_eq!(convert_i256_to_scalar(&vn), Some(n));
    }
}

#[test]
fn i256_to_scalar_rejects_exactly_outside_the_window() {
    // the bounds themselves are accepted
    assert!(convert_i256_to_scalar(&max_supported_i256()).is_some());
    assert!(convert_i256_to_scalar(&min_supported_i256()).is_some());
    // one past either bound is rejected
    let one = Int256::from_i128(1);
    assert!(convert_i256_to_scalar(&max_supported_i256().add(&one)).is_none());
    assert!(convert_i256_to_scalar(&min_supported_i256().sub(&one)).is_none());
}

#[test]
fn normalize_accepts_values_the_scalar_conversion_rejects() {
    // Int256::max is out of the scalar window but normalizes fine
    assert!(convert_i256_to_scalar(&Int256::max()).is_none());
    assert_eq!(
        I256::from(Int256::max()),
        I256::new([u64::MAX, u64::MAX, u64::MAX, i64::MAX as u64])
    );
}
