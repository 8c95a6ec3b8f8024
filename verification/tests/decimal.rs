use vortex_core::bits::BitBuffer;
use vortex_core::decimal::{upcast_decimal_values, Decimal, DecimalArray, DecimalBuffer};
use vortex_core::dtype::{DType, DecimalDType, DecimalType, Nullability};
use vortex_core::error::VortexError;
use vortex_core::int256::I256;
use vortex_core::validity::Validity;

fn decimal(buffer: DecimalBuffer, precision: u8, scale: i8, validity: Validity) -> DecimalArray {
    DecimalArray { buffer, decimal_dtype: DecimalDType { precision, scale }, validity }
}

fn to(precision: u8, scale: i8, nullability: Nullability) -> DType {
    DType::Decimal(DecimalDType { precision, scale }, nullability)
}

fn i256s(values: &[i128]) -> DecimalBuffer {
    DecimalBuffer::I256(values.iter().map(|v| I256::from_i128(*v)).collect())
}

fn some_null() -> Validity {
    Validity::Array(BitBuffer::from_bools(&[true, false, true]))
}

#[test]
fn cast_decimal_widens_scale_exactly() {
    let array = decimal(DecimalBuffer::I32(vec![12345, 67890]), 10, 2, Validity::NonNullable);
    let dtype = to(20, 4, Nullability::NonNullable);
    let casted = Decimal::execute_cast(&array, &dtype).unwrap();
    assert_eq!(casted.dtype(), dtype);
    assert_eq!(casted.buffer, i256s(&[1_234_500, 6_789_000]));
}

#[test]
fn cast_decimal_narrows_scale_rounds_half_away_from_zero() {
    let array =
        decimal(DecimalBuffer::I32(vec![12345, 12355, -12355]), 10, 4, Validity::NonNullable);
    let casted = Decimal::execute_cast(&array, &to(10, 2, Nullability::NonNullable)).unwrap();
    assert_eq!(casted.buffer, i256s(&[123, 124, -124]));
}

#[test]
fn cast_decimal_to_nullable() {
    let array = decimal(DecimalBuffer::I32(vec![100, 200, 300]), 10, 2, Validity::NonNullable);
    let dtype = to(10, 2, Nullability::Nullable);
    let casted = Decimal::execute_cast(&array, &dtype).unwrap();
    assert_eq!(casted.dtype(), dtype);
    assert!(matches!(casted.validity, Validity::AllValid));
    assert_eq!(casted.buffer.len(), 3);
}

#[test]
fn cast_nullable_to_non_nullable() {
    let array = decimal(DecimalBuffer::I32(vec![100, 200, 300]), 10, 2, Validity::AllValid);
    let dtype = to(10, 2, Nullability::NonNullable);
    let casted = Decimal::execute_cast(&array, &dtype).unwrap();
    assert_eq!(casted.dtype(), dtype);
    assert!(matches!(casted.validity, Validity::NonNullable));
}

#[test]
#[should_panic(expected = "Cannot cast array with invalid values to non-nullable type")]
fn cast_nullable_with_nulls_to_non_nullable_fails() {
    let array = decimal(DecimalBuffer::I32(vec![100, 0, 300]), 10, 2, some_null());
    match Decimal::execute_cast(&array, &to(10, 2, Nullability::NonNullable)) {
        Ok(_) => {}
        Err(e) => panic!("{}", e.message()),
    }
}

#[test]
fn cast_different_scale_rescales() {
    let array = decimal(DecimalBuffer::I32(vec![100]), 10, 2, Validity::NonNullable);
    let dtype = to(15, 3, Nullability::NonNullable);
    let casted = Decimal::execute_cast(&array, &dtype).unwrap();
    assert_eq!(casted.dtype(), dtype);
    assert_eq!(casted.buffer, i256s(&[1000]));
}

#[test]
fn cast_downcast_precision_fails() {
    let array = decimal(DecimalBuffer::I64(vec![100]), 18, 2, Validity::NonNullable);
    let result = Decimal::execute_cast(&array, &to(10, 2, Nullability::NonNullable));
    assert!(result.is_err());
    assert!(result
        .unwrap_err()
        .message()
        .contains("Downcasting decimal from precision 18 to 10 not yet implemented"));
}

#[test]
fn cast_upcast_precision_succeeds() {
    let array = decimal(DecimalBuffer::I32(vec![100, 200, 300]), 10, 2, Validity::NonNullable);
    let casted = Decimal::execute_cast(&array, &to(38, 2, Nullability::NonNullable)).unwrap();
    assert_eq!(casted.decimal_dtype.precision, 38);
    assert_eq!(casted.decimal_dtype.scale, 2);
    assert_eq!(casted.buffer.len(), 3);
    assert_eq!(casted.buffer.values_type(), DecimalType::I128);
    assert_eq!(casted.buffer, DecimalBuffer::I128(vec![100, 200, 300]));
}

#[test]
fn cast_to_non_decimal_returns_err() {
    let array = decimal(DecimalBuffer::I32(vec![100]), 10, 2, Validity::NonNullable);
    let dtype = DType::Utf8(Nullability::NonNullable);
    assert_eq!(Decimal::cast(&array, &dtype), Ok(None));
    let result = Decimal::execute_cast(&array, &dtype);
    assert!(result.is_err());
    assert!(result.unwrap_err().message().contains("No CastKernel to cast canonical array"));
}

#[test]
fn upcast_decimal_values_i32_to_i64() {
    let array = decimal(DecimalBuffer::I32(vec![100, 200, 300]), 10, 2, Validity::NonNullable);
    assert_eq!(array.buffer.values_type(), DecimalType::I32);
    let casted = upcast_decimal_values(&array, DecimalType::I64).unwrap();
    assert_eq!(casted.buffer.values_type(), DecimalType::I64);
    assert_eq!(casted.decimal_dtype, array.decimal_dtype);
    assert_eq!(casted.buffer.len(), 3);
    assert_eq!(casted.buffer, DecimalBuffer::I64(vec![100, 200, 300]));
}

#[test]
fn upcast_decimal_values_i64_to_i128() {
    let array =
        decimal(DecimalBuffer::I64(vec![10000, 20000, 30000]), 18, 4, Validity::NonNullable);
    let casted = upcast_decimal_values(&array, DecimalType::I128).unwrap();
    assert_eq!(casted.buffer.values_type(), DecimalType::I128);
    assert_eq!(casted.decimal_dtype, array.decimal_dtype);
    assert_eq!(casted.buffer, DecimalBuffer::I128(vec![10000, 20000, 30000]));
}

#[test]
fn upcast_decimal_values_same_type_returns_clone() {
    let array = decimal(DecimalBuffer::I32(vec![100, 200, 300]), 10, 2, Validity::NonNullable);
    let casted = upcast_decimal_values(&array, DecimalType::I32).unwrap();
    assert_eq!(casted.buffer.values_type(), DecimalType::I32);
    assert_eq!(casted.decimal_dtype, array.decimal_dtype);
    assert_eq!(casted, array);
}

#[test]
fn upcast_decimal_values_with_nulls() {
    let array = decimal(DecimalBuffer::I32(vec![100, 0, 300]), 10, 2, some_null());
    let casted = upcast_decimal_values(&array, DecimalType::I64).unwrap();
    assert_eq!(casted.buffer.values_type(), DecimalType::I64);
    assert_eq!(casted.buffer.len(), 3);
    let mask = casted.validity.execute_mask(casted.buffer.len());
    assert!(mask.value(0));
    assert!(!mask.value(1));
    assert!(mask.value(2));
    assert_eq!(casted.buffer, DecimalBuffer::I64(vec![100, 0, 300]));
}

#[test]
fn upcast_decimal_values_downcast_fails() {
    let array =
        decimal(DecimalBuffer::I64(vec![10000, 20000, 30000]), 18, 4, Validity::NonNullable);
    let result = upcast_decimal_values(&array, DecimalType::I32);
    assert!(result.is_err());
    let message = result.unwrap_err().message();
    assert!(message.contains("Cannot downcast decimal values"));
    assert_eq!(
        message,
        "Cannot downcast decimal values from I64 to I32. Only upcasting is supported."
    );
}

#[test]
fn halves_round_away_from_zero() {
    let round = |v: i128, from: i8| I256::from_i128(v).rescale(from, 0).unwrap().to_i128();
    assert_eq!(round(5, 1), Some(1));
    assert_eq!(round(-5, 1), Some(-1));
    assert_eq!(round(4, 1), Some(0));
    assert_eq!(round(149, 2), Some(1));
    assert_eq!(round(150, 2), Some(2));
    assert_eq!(round(i128::MAX, 38), Some(2));
    assert_eq!(round(i128::MIN, 38), Some(-2));
    assert_eq!(round(1, 76), Some(0));
}

#[test]
fn widening_and_narrowing_back_is_the_identity() {
    for v in [0i128, 1, -1, 99, -12345, i128::MAX, i128::MIN] {
        let wide = I256::from_i128(v).rescale(2, 17).unwrap();
        assert_eq!(wide.rescale(17, 2), Some(I256::from_i128(v)));
    }
}

#[test]
fn rescaling_beyond_256_bits_fails() {
    // Ten to the power 76 fits, ten times as much does not.
    let one = I256::from_i128(1);
    let big = one.rescale(0, 76).unwrap();
    assert!(big.to_i128().is_none());
    assert_eq!(big.rescale(76, 0), Some(one));
    assert_eq!(big.rescale(0, 1), None);
    assert_eq!(one.rescale(0, 77), None);
    assert_eq!(I256::from_i128(0).rescale(0, 77), None);
    assert_eq!(I256::from_i128(0).rescale(77, 0), None);

    let array = decimal(DecimalBuffer::I256(vec![one, big]), 76, 0, Validity::NonNullable);
    let err = Decimal::cast(&array, &to(76, 5, Nullability::NonNullable)).unwrap_err();
    assert_eq!(err, VortexError::DecimalRescaleOverflow { to_scale: 5 });
    assert_eq!(err.message(), "decimal value overflows i256 when rescaling to scale 5");
    assert_eq!(
        VortexError::DecimalRescaleOverflow { to_scale: -3 }.message(),
        "decimal value overflows i256 when rescaling to scale -3"
    );
}

#[test]
fn a_null_slot_can_fail_a_rescale() {
    let big = I256::from_i128(1).rescale(0, 76).unwrap();
    let array = decimal(
        DecimalBuffer::I256(vec![I256::from_i128(1), big, I256::from_i128(3)]),
        76,
        0,
        some_null(),
    );
    let err = Decimal::cast(&array, &to(76, 5, Nullability::Nullable)).unwrap_err();
    assert_eq!(err, VortexError::DecimalRescaleOverflow { to_scale: 5 });
}

#[test]
fn reduction_leaves_bits_and_other_types_to_the_kernel() {
    let array = decimal(DecimalBuffer::I32(vec![1, 2, 3]), 10, 2, some_null());
    assert_eq!(Decimal::cast_reduce(&array, &to(10, 2, Nullability::NonNullable)), Ok(None));
    assert_eq!(Decimal::cast_reduce(&array, &to(11, 2, Nullability::Nullable)), Ok(None));
    let all_null = decimal(DecimalBuffer::I32(vec![1]), 10, 2, Validity::AllInvalid);
    assert_eq!(
        Decimal::cast_reduce(&all_null, &to(10, 2, Nullability::NonNullable)),
        Err(VortexError::InvalidValuesToNonNullable)
    );
    let empty = decimal(DecimalBuffer::I32(vec![]), 10, 2, Validity::AllInvalid);
    let reduced = Decimal::cast_reduce(&empty, &to(10, 2, Nullability::NonNullable)).unwrap();
    assert_eq!(reduced.unwrap().validity, Validity::NonNullable);
}

#[test]
fn the_null_check_comes_before_the_precision_check() {
    let array = decimal(DecimalBuffer::I64(vec![1, 2, 3]), 18, 2, some_null());
    assert_eq!(
        Decimal::cast(&array, &to(10, 2, Nullability::NonNullable)),
        Err(VortexError::InvalidValuesToNonNullable)
    );
}
