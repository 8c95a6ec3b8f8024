use vortex_core::bits::BitBuffer;
use vortex_core::error::VortexError;
use vortex_core::primitive::{PrimitiveArray, PrimitiveBuffer, ValueArray};
use vortex_core::runend::{
    advance_run, physical_indices, physical_indices_binary, physical_indices_linear_sorted,
    physical_indices_linear_unsorted, prefer_linear_scan, take_indices_unchecked, RunEnd,
    RunEndArray,
};
use vortex_core::validity::{Mask, Validity};

fn values<V: Copy>(v: &[V]) -> ValueArray<V> {
    ValueArray { entries: v.iter().map(|x| Some(*x)).collect(), nullable: false }
}

/// 1, 1, 1, 4, 4, 4, 2, 2, 5, 5, 5, 5
fn ree_array() -> RunEndArray<u32, i32> {
    RunEndArray { ends: vec![3, 6, 8, 12], values: values(&[1, 4, 2, 5]), offset: 0, length: 12 }
}

fn indices(buffer: PrimitiveBuffer) -> PrimitiveArray {
    PrimitiveArray { buffer, validity: Validity::NonNullable }
}

fn take(array: &RunEndArray<u32, i32>, at: &[i32]) -> Vec<Option<i32>> {
    RunEnd::take(array, &indices(PrimitiveBuffer::I32(at.to_vec()))).unwrap().unwrap().entries
}

#[test]
fn ree_take() {
    assert_eq!(take(&ree_array(), &[9, 8, 1, 3]), vec![Some(5), Some(5), Some(1), Some(4)]);
}

#[test]
fn ree_take_end() {
    assert_eq!(take(&ree_array(), &[11]), vec![Some(5)]);
}

#[test]
fn ree_take_sorted_boundaries() {
    let expected = vec![Some(1), Some(1), Some(4), Some(2), Some(5), Some(5)];
    assert_eq!(take(&ree_array(), &[0, 2, 3, 6, 8, 11]), expected);
}

#[test]
#[should_panic]
fn ree_take_out_of_bounds() {
    let at = indices(PrimitiveBuffer::I32(vec![12]));
    let _taken = RunEnd::take(&ree_array(), &at).unwrap();
}

#[test]
fn out_of_bounds_names_the_first_bad_index() {
    let at = indices(PrimitiveBuffer::U64(vec![3, 13, 12]));
    let err = RunEnd::take(&ree_array(), &at).unwrap_err();
    assert_eq!(err, VortexError::OutOfBounds { index: 13, first: 0, stop: 12 });
    assert_eq!(err.message(), "index 13 out of bounds from 0 to 12");
}

#[test]
fn negative_indices_wrap_and_are_out_of_bounds() {
    let at = indices(PrimitiveBuffer::I64(vec![-1]));
    let err = RunEnd::take(&ree_array(), &at).unwrap_err();
    assert_eq!(err, VortexError::OutOfBounds { index: usize::MAX, first: 0, stop: 12 });
}

#[test]
fn sliced_take() {
    let sliced = RunEndArray { offset: 4, length: 5, ..ree_array() };
    assert_eq!(take(&sliced, &[1, 3, 4]), vec![Some(4), Some(2), Some(5)]);
}

#[test]
fn ree_take_nullable() {
    let at = PrimitiveArray {
        buffer: PrimitiveBuffer::I32(vec![1, 0]),
        validity: Validity::Array(BitBuffer::from_bools(&[true, false])),
    };
    let taken = RunEnd::take(&ree_array(), &at).unwrap().unwrap();
    assert_eq!(taken.entries, vec![Some(1), None]);
    assert!(taken.nullable);
}

#[test]
fn ree_take_null_index_skips_out_of_bounds_value() {
    let at = PrimitiveArray {
        buffer: PrimitiveBuffer::U64(vec![1, 12]),
        validity: Validity::Array(BitBuffer::from_bools(&[true, false])),
    };
    let taken = RunEnd::take(&ree_array(), &at).unwrap().unwrap();
    assert_eq!(taken.entries, vec![Some(1), None]);
}

#[test]
fn take_keeps_null_values() {
    let array: RunEndArray<u8, i32> = RunEndArray {
        ends: vec![2, 4, 7],
        values: ValueArray { entries: vec![Some(10), None, Some(20)], nullable: true },
        offset: 0,
        length: 7,
    };
    let at = indices(PrimitiveBuffer::U8(vec![0, 2, 3, 6]));
    let taken = RunEnd::take(&array, &at).unwrap().unwrap();
    assert_eq!(taken.entries, vec![Some(10), None, None, Some(20)]);
    assert!(taken.nullable);
}

#[test]
fn unchecked_indices_beyond_the_end_yield_the_last_run() {
    let taken = take_indices_unchecked(&ree_array(), &[0, 500], &Validity::NonNullable).unwrap();
    assert_eq!(taken.entries, vec![Some(1), Some(5)]);
    assert!(!taken.nullable);
}

#[test]
fn strategies_agree() {
    // The positions 260 to 280 do not fit the type of the ends.
    let ends: Vec<u8> = (1..=100u8).map(|i| 2 * i).collect();
    let at: Vec<usize> = vec![199, 0, 17, 260, 198, 1, 17, 280, 3];
    let bits = [true, true, true, true, false, true, true, true, true];
    let mask = Mask::Values(BitBuffer::from_bools(&bits));
    let expected: Vec<u64> = vec![99, 0, 8, 99, 0, 0, 8, 99, 1];
    assert_eq!(physical_indices_binary(&ends, 0, &at, &mask), expected);
    assert_eq!(physical_indices_linear_unsorted(&ends, 0, &at, &mask, 8), expected);
    assert_eq!(physical_indices_linear_unsorted(&ends, 0, &at, &mask, 0), expected);
    assert_eq!(physical_indices_linear_unsorted(&ends, 0, &at, &mask, usize::MAX), expected);
    assert_eq!(physical_indices(&ends, 0, &at, &mask), expected);

    let sorted: Vec<usize> = vec![0, 1, 2, 17, 260];
    let all = Mask::AllTrue(5);
    let expected: Vec<u64> = vec![0, 0, 1, 8, 99];
    assert_eq!(physical_indices_linear_sorted(&ends, 0, &sorted, &all), expected);
    assert_eq!(physical_indices_binary(&ends, 0, &sorted, &all), expected);
    assert_eq!(physical_indices(&ends, 0, &sorted, &Mask::AllFalse(5)), vec![0; 5]);
}

#[test]
fn wide_ends_are_compared_in_their_own_type() {
    let ends: Vec<u16> = vec![300, 70];
    assert_eq!(physical_indices_linear_sorted(&ends, 0, &[299, 65536], &Mask::AllTrue(2)), [0, 1]);
    let ends: Vec<u64> = vec![5_000_000_000, 6_000_000_000];
    assert_eq!(physical_indices_binary(&ends, 0, &[5_000_000_000], &Mask::AllTrue(1)), [1]);
}

#[test]
fn scans_are_preferred_up_to_a_number_of_runs_per_index() {
    assert!(prefer_linear_scan(64, 4, 16));
    assert!(!prefer_linear_scan(65, 4, 16));
    assert!(prefer_linear_scan(usize::MAX, usize::MAX, 4));
}

#[test]
fn a_run_is_advanced_from_where_it_stands() {
    let ends: [u8; 4] = [9, 2, 5, 7];
    let advanced = |from: usize, logical| {
        let mut run = from;
        advance_run(&ends, &mut run, logical);
        run
    };
    assert_eq!(advanced(0, 4), 0);
    assert_eq!(advanced(1, 4), 2);
    assert_eq!(advanced(2, 6), 3);
    assert_eq!(advanced(0, 1000), 3);
    assert_eq!(advanced(3, 0), 3);
    assert_eq!(advanced(9, 1000), 9);
    let mut run = 0;
    advance_run::<u8>(&[], &mut run, 3);
    assert_eq!(run, 0);
}
