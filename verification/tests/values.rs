use vortex_core::bits::{byte_count, pack_bits, set_bit, zeroed_bytes, BitBuffer};
use vortex_core::dtype::{DecimalDType, DecimalType, Nullability, PType};
use vortex_core::error::VortexError;
use vortex_core::int256::I256;
use vortex_core::text::{push_decimal, push_signed};
use vortex_core::validity::{Mask, Validity};

#[test]
fn bits_are_packed_from_the_lowest() {
    let bools = [true, false, false, true, false, false, false, false, true];
    assert_eq!(pack_bits(&bools), vec![0b1001, 1]);
    let bits = BitBuffer::from_bools(&bools);
    assert_eq!(bits.true_count(), 3);
    for (i, expected) in bools.iter().enumerate() {
        assert_eq!(bits.value(i), *expected);
    }
    assert_eq!((byte_count(0), byte_count(8), byte_count(9)), (0, 1, 2));
}

#[test]
fn setting_a_bit_leaves_the_others() {
    let mut bytes = zeroed_bytes(2);
    set_bit(&mut bytes, 10);
    set_bit(&mut bytes, 0);
    assert_eq!(bytes, vec![1, 4]);
}

#[test]
fn masks_are_explicit_only_where_mixed() {
    let array = |bools: &[bool]| Validity::Array(BitBuffer::from_bools(bools));
    assert_eq!(Validity::NonNullable.execute_mask(2), Mask::AllTrue(2));
    assert_eq!(array(&[true, true]).execute_mask(2), Mask::AllTrue(2));
    assert_eq!(array(&[false, false]).execute_mask(2), Mask::AllFalse(2));
    let mixed = array(&[true, false]).execute_mask(2);
    assert_eq!(mixed, Mask::Values(BitBuffer::from_bools(&[true, false])));
    assert_eq!(mixed.false_count(), 1);
    assert!(!mixed.all_true());
}

#[test]
fn nulls_forbid_non_nullable() {
    let mixed = Validity::Array(BitBuffer::from_bools(&[true, false]));
    assert_eq!(
        mixed.cast_nullability(Nullability::NonNullable, 2),
        Err(VortexError::InvalidValuesToNonNullable)
    );
    let full = Validity::Array(BitBuffer::from_bools(&[true, true]));
    assert_eq!(full.cast_nullability(Nullability::NonNullable, 2), Ok(Validity::NonNullable));
    assert_eq!(
        Validity::NonNullable.cast_nullability(Nullability::Nullable, 2),
        Ok(Validity::AllValid)
    );
    assert_eq!(mixed.trivially_cast_nullability(Nullability::NonNullable, 2), Ok(None));
}

#[test]
fn wide_integers_rescale_exactly() {
    let max = I256::from_i128(i128::MAX);
    let up = max.rescale(0, 3).unwrap();
    assert_eq!(up.to_i128(), None);
    assert_eq!(up.rescale(3, 0), Some(max));
    assert_eq!(I256::from_i128(-15).rescale(1, 0), Some(I256::from_i128(-2)));
    assert_eq!(I256::from_i128(14).rescale(1, 0), Some(I256::from_i128(1)));
    assert_eq!(I256::from_i128(i128::MIN).to_i128(), Some(i128::MIN));
    // The halves and one fifth of a unit: the error is at most half of one.
    assert_eq!(I256::from_i128(5).rescale(1, 0), Some(I256::from_i128(1)));
    assert_eq!(I256::from_i128(-2).rescale(1, 0), Some(I256::from_i128(0)));
}

#[test]
fn physical_types_are_the_narrowest() {
    let narrowest = |precision| {
        DecimalType::smallest_decimal_value_type(&DecimalDType { precision, scale: 0 })
    };
    assert_eq!(narrowest(2), DecimalType::I8);
    assert_eq!(narrowest(3), DecimalType::I16);
    assert_eq!(narrowest(9), DecimalType::I32);
    assert_eq!(narrowest(18), DecimalType::I64);
    assert_eq!(narrowest(38), DecimalType::I128);
    assert_eq!(narrowest(39), DecimalType::I256);
    assert_eq!(PType::I16.limits(), (-32768, 32767));
    assert_eq!(PType::U64.bit_width(), 64);
}

#[test]
fn numbers_are_written_in_decimal() {
    let mut s = String::from("n=");
    push_decimal(&mut s, 0);
    push_decimal(&mut s, u128::MAX);
    push_signed(&mut s, -128);
    assert_eq!(s, "n=0340282366920938463463374607431768211455-128");
}
