use vortex_core::arrow::array::{
    Array, ArrowArray, ArrowBuffer, BinaryView, BoolArray, DictArray, Exported, ExtensionArray,
    FixedSizeListArray, ListArray, ListViewArray, StructArray, SyncEvent, VarBinViewArray,
};
use vortex_core::arrow::binary::check_binary_status;
use vortex_core::arrow::buffers::{
    export_arrow_validity_buffer, export_binary_validity_buffer, export_decimal_values,
    fixed_size_list_offsets,
};
use vortex_core::arrow::device::{
    release_array, release_parts, ArrowDeviceArray, CanonicalDeviceArrayExport, ARROW_DEVICE_CUDA,
};
use vortex_core::arrow::export::export_array;
use vortex_core::bits::BitBuffer;
use vortex_core::decimal::{DecimalArray, DecimalBuffer};
use vortex_core::dtype::{DecimalDType, DecimalType, PType};
use vortex_core::error::{VortexError, VortexResult};
use vortex_core::int256::I256;
use vortex_core::primitive::{PrimitiveArray, PrimitiveBuffer};
use vortex_core::validity::Validity;

fn export(array: Array) -> VortexResult<ArrowDeviceArray> {
    CanonicalDeviceArrayExport.export_device_array(array, 0)
}

fn prim(buffer: PrimitiveBuffer) -> Array {
    Array::Primitive(PrimitiveArray { buffer, validity: Validity::NonNullable })
}

fn i32s(values: impl IntoIterator<Item = i32>) -> Array {
    prim(PrimitiveBuffer::I32(values.into_iter().collect()))
}

fn bits(bools: &[bool]) -> Validity {
    Validity::Array(BitBuffer::from_bools(bools))
}

/// The validity of collected values: a bitmap is kept once a null was seen.
fn validity_of<T>(values: &[Option<T>]) -> Validity {
    let bools: Vec<bool> = values.iter().map(|v| v.is_some()).collect();
    if bools.contains(&false) {
        bits(&bools)
    } else {
        Validity::AllValid
    }
}

fn nullable_i32s(values: &[Option<i32>]) -> PrimitiveArray {
    PrimitiveArray {
        buffer: PrimitiveBuffer::I32(values.iter().map(|v| v.unwrap_or(0)).collect()),
        validity: validity_of(values),
    }
}

/// The view of a value; one longer than twelve bytes lies in data buffer `buffer` at `offset`.
fn make_view(value: &[u8], buffer: u32, offset: u32) -> BinaryView {
    let mut data = [0u8; 12];
    if value.len() <= 12 {
        data[..value.len()].copy_from_slice(value);
    } else {
        data[..4].copy_from_slice(&value[..4]);
        data[4..8].copy_from_slice(&buffer.to_le_bytes());
        data[8..].copy_from_slice(&offset.to_le_bytes());
    }
    BinaryView { size: value.len() as u32, data }
}

fn views(binary: bool, values: &[Option<&[u8]>], validity: Validity) -> VarBinViewArray {
    let mut views = Vec::new();
    let mut buffer: Vec<u8> = Vec::new();
    for value in values {
        let value = value.unwrap_or(b"");
        views.push(make_view(value, 0, buffer.len() as u32));
        if value.len() > 12 {
            buffer.extend_from_slice(value);
        }
    }
    let buffers = if buffer.is_empty() { vec![] } else { vec![buffer] };
    VarBinViewArray { binary, views, buffers, validity }
}

fn utf8(values: &[&str]) -> Array {
    let values: Vec<Option<&[u8]>> = values.iter().map(|s| Some(s.as_bytes())).collect();
    Array::VarBinView(views(false, &values, Validity::NonNullable))
}

fn nullable_binary(values: &[Option<&[u8]>]) -> Array {
    Array::VarBinView(views(true, values, validity_of(values)))
}

fn decimal(buffer: DecimalBuffer, precision: u8, scale: i8) -> Array {
    Array::Decimal(DecimalArray {
        buffer,
        decimal_dtype: DecimalDType { precision, scale },
        validity: Validity::NonNullable,
    })
}

fn structs(fields: Vec<Array>, len: usize) -> Array {
    Array::Struct(StructArray { fields, len, validity: Validity::NonNullable })
}

fn dict(codes: PrimitiveArray, values: Array) -> Array {
    Array::Dict(DictArray { codes, values: Box::new(values) })
}

fn codes(values: &[Option<u8>]) -> PrimitiveArray {
    PrimitiveArray {
        buffer: PrimitiveBuffer::U8(values.iter().map(|v| v.unwrap_or(0)).collect()),
        validity: validity_of(values),
    }
}

fn list(elements: Array, offsets: PrimitiveBuffer) -> ListArray {
    ListArray { elements: Box::new(elements), offsets, validity: Validity::NonNullable }
}

/// List views that the device does not take.
fn host_list_view(packed: ListArray) -> Array {
    Array::ListView(ListViewArray {
        is_host: true,
        device_export: Err(VortexError::DeviceListView),
        packed: Ok(packed),
    })
}

fn shape(array: &ArrowArray) -> (i64, i64, i64, usize, usize) {
    (array.length, array.null_count, array.offset, array.buffers.len(), array.children.len())
}

fn values(array: &ArrowArray) -> &PrimitiveBuffer {
    match array.buffers[1].as_ref() {
        Some(ArrowBuffer::Values(v)) => v,
        other => panic!("{other:?}"),
    }
}

fn offsets(array: &ArrowArray) -> &Vec<i32> {
    match array.buffers[1].as_ref() {
        Some(ArrowBuffer::Offsets(v)) => v,
        other => panic!("{other:?}"),
    }
}

fn decimals(array: &ArrowArray) -> &DecimalBuffer {
    match array.buffers[1].as_ref() {
        Some(ArrowBuffer::Decimals(v)) => v,
        other => panic!("{other:?}"),
    }
}

fn bytes(array: &ArrowArray, at: usize) -> &Vec<u8> {
    match array.buffers[at].as_ref() {
        Some(ArrowBuffer::Bytes(v)) => v,
        other => panic!("{other:?}"),
    }
}

fn assert_varbinview_layout(array: &ArrowArray, len: i64, null_count: i64, lengths: &[usize]) {
    assert_eq!(shape(array), (len, null_count, 0, lengths.len() + 3, 0));
    assert!(array.release && array.private_data);
    assert_eq!(array.buffers[0].is_none(), null_count == 0);
    match array.buffers[1].as_ref() {
        Some(ArrowBuffer::Views(v)) => assert_eq!(v.len() as i64, len),
        other => panic!("{other:?}"),
    }
    for (i, expected) in lengths.iter().enumerate() {
        assert_eq!(bytes(array, 2 + i).len(), *expected);
    }
    let sizes: Vec<i64> = lengths.iter().map(|n| *n as i64).collect();
    assert_eq!(array.buffers[lengths.len() + 2], Some(ArrowBuffer::Sizes(sizes)));
}

fn assert_binary_layout(
    array: &ArrowArray,
    len: i64,
    null_count: i64,
    expected_offsets: &[i32],
    expected_values: &[u8],
) {
    assert_eq!(shape(array), (len, null_count, 0, 3, 0));
    assert!(array.release && array.private_data);
    assert_eq!(array.buffers[0].is_none(), null_count == 0);
    assert_eq!(offsets(array), expected_offsets);
    assert_eq!(bytes(array, 2), expected_values);
}

fn assert_nullable_export(array: Array, n_buffers: usize, null_count: i64) -> ArrowArray {
    let exported = export(array).unwrap().array;
    assert_eq!(exported.buffers.len(), n_buffers);
    assert_eq!(exported.null_count, null_count);
    assert!(exported.buffers[0].is_some());
    exported
}

fn nested_struct_array() -> Array {
    let nested = structs(
        vec![
            prim(PrimitiveBuffer::I64((0..5).collect())),
            utf8(&["one", "two", "this is a longer string for out-of-line storage", "four", "five"]),
        ],
        5,
    );
    structs(vec![prim(PrimitiveBuffer::U32((0..5).collect())), nested], 5)
}

#[test]
fn test_export_primitive() {
    let f16_one = 0x3c00u16;
    let f16_two = 0x4000u16;
    let cases = vec![
        (PrimitiveBuffer::U8((0..10).collect()), 10, PType::U8),
        (PrimitiveBuffer::U16((0..10).collect()), 10, PType::U16),
        (PrimitiveBuffer::U32((0..10).collect()), 10, PType::U32),
        (PrimitiveBuffer::U64((0..10).collect()), 10, PType::U64),
        (PrimitiveBuffer::I8((0..10).collect()), 10, PType::I8),
        (PrimitiveBuffer::I16((0..10).collect()), 10, PType::I16),
        (PrimitiveBuffer::I32((0..10).collect()), 10, PType::I32),
        (PrimitiveBuffer::I64((0..10).collect()), 10, PType::I64),
        (PrimitiveBuffer::F16(vec![f16_one, f16_two]), 2, PType::F16),
        (
            PrimitiveBuffer::F32([1.0f32, 2.0, 3.0].iter().map(|v| v.to_bits()).collect()),
            3,
            PType::F32,
        ),
        (
            PrimitiveBuffer::F64([1.0f64, 2.0, 3.0].iter().map(|v| v.to_bits()).collect()),
            3,
            PType::F64,
        ),
    ];
    for (buffer, len, ptype) in cases {
        let exported = export(prim(buffer)).unwrap();
        assert_eq!(shape(&exported.array), (len, 0, 0, 2, 0));
        assert_eq!(values(&exported.array).ptype(), ptype);
        assert!(exported.array.buffers[0].is_none());
        assert!(exported.array.release);
        assert_eq!(exported.device_type, ARROW_DEVICE_CUDA);
    }
}

#[test]
fn test_export_null() {
    let exported = export(Array::Null(7)).unwrap();
    assert_eq!(exported.array.length, 7);
    assert_eq!(exported.array.null_count, 7);
    assert_eq!(exported.device_type, ARROW_DEVICE_CUDA);
}

#[test]
fn test_export_dictionary() {
    let out_of_line = "a dictionary value stored out-of-line";
    let array = dict(codes(&[Some(0), None, Some(1), Some(0)]), utf8(&["alpha", out_of_line]));
    let exported = export(array).unwrap();
    assert_eq!(shape(&exported.array), (4, 1, 0, 2, 0));
    assert_eq!(exported.device_type, ARROW_DEVICE_CUDA);
    assert_eq!(values(&exported.array), &PrimitiveBuffer::I16(vec![0, 0, 1, 0]));
    let dictionary = exported.array.dictionary.as_ref().unwrap();
    assert_varbinview_layout(dictionary, 2, 0, &[out_of_line.len()]);
}

#[test]
fn test_export_struct_preserves_dictionary_child() {
    let dictionary = dict(codes(&[Some(0), None, Some(1)]), utf8(&["alpha", "beta"]));
    let exported = export(structs(vec![dictionary], 3)).unwrap();
    assert_eq!(exported.array.children.len(), 1);
    let child = &exported.array.children[0];
    assert!(child.dictionary.is_some());
    assert_eq!(child.null_count, 1);
}

#[test]
fn test_export_dictionary_with_nullable_values() {
    let array = dict(
        PrimitiveArray {
            buffer: PrimitiveBuffer::U8(vec![0, 1, 0]),
            validity: Validity::NonNullable,
        },
        Array::Primitive(nullable_i32s(&[Some(10), None])),
    );
    let exported = export(array).unwrap();
    assert_eq!(exported.array.null_count, 0);
    assert_eq!(values(&exported.array), &PrimitiveBuffer::I16(vec![0, 1, 0]));
    let dictionary = exported.array.dictionary.as_ref().unwrap();
    assert_eq!(dictionary.null_count, 1);
    assert_eq!(values(dictionary).len(), 2);
}

#[test]
fn dictionary_codes_keep_their_values_in_a_signed_type() {
    let export_codes = |buffer: PrimitiveBuffer| {
        let codes = PrimitiveArray { buffer, validity: Validity::NonNullable };
        export(dict(codes, i32s([1])))
    };
    let wide = export_codes(PrimitiveBuffer::U16(vec![65535])).unwrap().array;
    assert_eq!(values(&wide), &PrimitiveBuffer::I32(vec![65535]));
    let wide = export_codes(PrimitiveBuffer::U32(vec![u32::MAX])).unwrap().array;
    assert_eq!(values(&wide), &PrimitiveBuffer::I64(vec![4294967295]));
    let signed = export_codes(PrimitiveBuffer::I8(vec![3])).unwrap().array;
    assert_eq!(values(&signed), &PrimitiveBuffer::I8(vec![3]));
    let overflow = export_codes(PrimitiveBuffer::U64(vec![1, 1 << 63]));
    assert_eq!(overflow.unwrap_err(), VortexError::ValueCast);
}

fn assert_exported_decimal(array: Array, expected: DecimalBuffer) {
    let exported = export(array).unwrap();
    assert_eq!(shape(&exported.array), (expected.len() as i64, 0, 0, 2, 0));
    assert!(exported.array.release);
    assert_eq!(exported.device_type, ARROW_DEVICE_CUDA);
    assert_eq!(decimals(&exported.array), &expected);
}

#[test]
fn test_export_decimal32() {
    let case = |buffer, p, s, expected| {
        assert_exported_decimal(decimal(buffer, p, s), DecimalBuffer::I32(expected))
    };
    case(DecimalBuffer::I8(vec![1, -2, 3]), 2, 1, vec![1, -2, 3]);
    case(DecimalBuffer::I16(vec![100, -200, 300]), 4, 2, vec![100, -200, 300]);
    case(
        DecimalBuffer::I32(vec![10_000, -20_000, 30_000]),
        9,
        2,
        vec![10_000, -20_000, 30_000],
    );
}

#[test]
fn test_export_decimal64() {
    let case = |buffer, p, s, expected| {
        assert_exported_decimal(decimal(buffer, p, s), DecimalBuffer::I64(expected))
    };
    let values = vec![1_000_000i64, -2_000_000, 3_000_000];
    case(DecimalBuffer::I32(vec![1_000_000, -2_000_000, 3_000_000]), 10, 2, values.clone());
    case(
        DecimalBuffer::I32(vec![i32::MIN, -1, 0, 1, i32::MAX]),
        10,
        0,
        vec![i32::MIN as i64, -1, 0, 1, i32::MAX as i64],
    );
    case(DecimalBuffer::I64(values.clone()), 18, 2, values);
}

#[test]
fn test_export_decimal128() {
    assert_exported_decimal(
        decimal(DecimalBuffer::I64(vec![i64::MIN, -1, 0, 1, i64::MAX]), 19, 0),
        DecimalBuffer::I128(vec![i64::MIN as i128, -1, 0, 1, i64::MAX as i128]),
    );
    assert_exported_decimal(
        decimal(DecimalBuffer::I128(vec![1, -2, 3]), 38, 2),
        DecimalBuffer::I128(vec![1, -2, 3]),
    );
}

#[test]
fn test_export_empty_decimal() {
    assert_exported_decimal(
        decimal(DecimalBuffer::I32(vec![]), 9, 2),
        DecimalBuffer::I32(vec![]),
    );
}

#[test]
fn test_export_empty_decimal_widening() {
    assert_exported_decimal(decimal(DecimalBuffer::I8(vec![]), 9, 2), DecimalBuffer::I32(vec![]));
}

#[test]
fn test_export_decimal_narrowing_errors() {
    let array = decimal(DecimalBuffer::I256(vec![I256 { high: 1, low: 0 }]), 38, 0);
    let err = export(array).unwrap_err();
    assert!(err.message().contains("narrowing would require"));
}

#[test]
fn test_export_decimal_narrowing_from_arrow_import() {
    let err = export(decimal(DecimalBuffer::I128(vec![0, 1, -2]), 10, 2)).unwrap_err();
    assert!(err.message().contains("narrowing would require"));
    assert_eq!(
        err.message(),
        "cannot export decimal values from i128 storage to Arrow i64: narrowing would require a \
         device-to-host overflow check"
    );
}

#[test]
fn decimals_are_not_exported_below_32_bits() {
    let err = export_decimal_values(DecimalBuffer::I8(vec![1]), DecimalType::I16).unwrap_err();
    assert_eq!(err.message(), "cannot export DecimalArray as Arrow decimal value type i16");
    let same = export_decimal_values(DecimalBuffer::I16(vec![1]), DecimalType::I16);
    assert_eq!(same, Ok(DecimalBuffer::I16(vec![1])));
}

#[test]
fn test_export_decimal256() {
    let wide = |values: &[i128]| {
        DecimalBuffer::I256(values.iter().map(|v| I256::from_i128(*v)).collect())
    };
    assert_exported_decimal(
        decimal(DecimalBuffer::I64(vec![i64::MIN, -1, 1, i64::MAX]), 39, 0),
        wide(&[i64::MIN as i128, -1, 1, i64::MAX as i128]),
    );
    assert_exported_decimal(
        decimal(DecimalBuffer::I128(vec![1, -2, 3]), 39, 2),
        wide(&[1, -2, 3]),
    );
    assert_exported_decimal(decimal(wide(&[10, -20, 30]), 76, 2), wide(&[10, -20, 30]));
}

#[test]
fn test_export_temporal() {
    let storage = PrimitiveArray {
        buffer: PrimitiveBuffer::I32(vec![100, 200, 300]),
        validity: Validity::NonNullable,
    };
    let exported = export(Array::Extension(ExtensionArray { temporal: true, storage })).unwrap();
    assert_eq!(shape(&exported.array), (3, 0, 0, 2, 0));
    assert!(exported.array.release);
    assert_eq!(exported.device_type, ARROW_DEVICE_CUDA);
}

#[test]
fn extensions_that_are_not_temporal_are_refused() {
    let storage = nullable_i32s(&[Some(1)]);
    let err = export(Array::Extension(ExtensionArray { temporal: false, storage })).unwrap_err();
    assert_eq!(err.message(), "only support temporal extension types currently");
    assert_eq!(export(Array::Variant(2)).unwrap_err(), VortexError::UnsupportedExport);
}

#[test]
fn test_export_bool() {
    let array = Array::Bool(BoolArray {
        bits: BitBuffer::from_bools(&[true, false, true]),
        validity: Validity::NonNullable,
    });
    let exported = export(array).unwrap();
    assert_eq!(shape(&exported.array), (3, 0, 0, 2, 0));
    assert_eq!(bytes(&exported.array, 1), &vec![0b101]);
    assert!(exported.array.release);
    assert_eq!(exported.device_type, ARROW_DEVICE_CUDA);
}

#[test]
fn test_export_varbinview() {
    let out_of_line = "this is a longer string for out-of-line storage";
    let exported = export(utf8(&["hello", "world", out_of_line])).unwrap();
    assert_varbinview_layout(&exported.array, 3, 0, &[out_of_line.len()]);
    assert_eq!(exported.device_type, ARROW_DEVICE_CUDA);
}

#[test]
fn test_export_binary_inline_outline_values() {
    let out_of_line = b"this binary payload is longer than twelve bytes";
    let array = nullable_binary(&[
        Some(b""),
        Some(b"\x00\xff\xfe"),
        None,
        Some(b"short"),
        Some(out_of_line),
    ]);
    let exported = export(array).unwrap();
    assert_binary_layout(
        &exported.array,
        5,
        1,
        &[0, 0, 3, 3, 8, 8 + out_of_line.len() as i32],
        &[b"\x00\xff\xfe".as_slice(), b"short", out_of_line].concat(),
    );
    assert_eq!(exported.device_type, ARROW_DEVICE_CUDA);
}

#[test]
fn test_export_binary_empty_and_all_null() {
    let exported = export(nullable_binary(&[])).unwrap();
    assert_binary_layout(&exported.array, 0, 0, &[0], b"");
    let exported = export(nullable_binary(&[None, None])).unwrap();
    assert_binary_layout(&exported.array, 2, 2, &[0, 0, 0], b"");
}

#[test]
fn test_export_binary_invalid_data_buffer_ref_errors() {
    let array = VarBinViewArray {
        binary: true,
        views: vec![make_view(b"this references a missing data buffer", 0, 0)],
        buffers: vec![],
        validity: Validity::NonNullable,
    };
    let err = export(Array::VarBinView(array)).expect_err("missing binary data buffer should fail");
    assert!(err.message().contains("a view references an invalid data buffer"));
}

#[test]
fn a_null_view_may_refer_to_missing_bytes() {
    let array = VarBinViewArray {
        binary: true,
        views: vec![make_view(b"this references a missing data buffer", 5, 9)],
        buffers: vec![],
        validity: Validity::AllInvalid,
    };
    let exported = export(Array::VarBinView(array)).unwrap();
    assert_binary_layout(&exported.array, 1, 1, &[0, 0], b"");
}

#[test]
fn binary_offsets_beyond_32_bits_are_refused_before_buffers() {
    let mut view = make_view(b"a view that claims two gibibytes", 0, 0);
    view.size = 1 << 31;
    let array = VarBinViewArray {
        binary: true,
        views: vec![view],
        buffers: vec![],
        validity: Validity::NonNullable,
    };
    let err = export(Array::VarBinView(array)).unwrap_err();
    assert_eq!(err, VortexError::BinaryOffsetsOverflow);
    assert!(err.message().contains("offsets exceed i32 range required by Arrow Binary"));
}

#[test]
fn binary_validity_is_repacked_from_bit_zero() {
    let validity =
        Validity::Array(BitBuffer { bytes: vec![0b1010_0000, 0b0000_0001], offset: 5, len: 4 });
    let (bitmap, null_count) = export_binary_validity_buffer(&validity, 4).unwrap();
    assert_eq!(bitmap, Some(vec![0b0000_1101]));
    assert_eq!(null_count, 1);
    let aligned = bits(&[true, false]);
    assert_eq!(export_binary_validity_buffer(&aligned, 2).unwrap(), (Some(vec![1]), 1));
    assert_eq!(export_binary_validity_buffer(&Validity::AllValid, 9).unwrap(), (None, 0));
    assert_eq!(
        export_binary_validity_buffer(&Validity::AllInvalid, 9).unwrap(),
        (Some(vec![0, 0]), 9)
    );
}

#[test]
fn test_export_list() {
    let array = Array::List(list(i32s(0..5), PrimitiveBuffer::I32(vec![0, 2, 2, 5])));
    let exported = export(array).unwrap();
    assert_eq!(shape(&exported.array), (3, 0, 0, 2, 1));
    assert!(exported.array.buffers[0].is_none());
    assert_eq!(offsets(&exported.array), &[0, 2, 2, 5]);
    let elements = &exported.array.children[0];
    assert_eq!(elements.length, 5);
    assert_eq!(elements.buffers.len(), 2);
    assert_eq!(exported.device_type, ARROW_DEVICE_CUDA);
}

#[test]
fn test_export_host_contiguous_list_view() {
    let packed = list(i32s(0..5), PrimitiveBuffer::I32(vec![0, 2, 2, 5]));
    let exported = export(host_list_view(packed)).unwrap();
    assert_eq!(exported.array.length, 3);
    assert_eq!(exported.array.buffers.len(), 2);
    assert_eq!(offsets(&exported.array), &[0, 2, 2, 5]);
}

#[test]
fn test_export_host_non_contiguous_nested_list_view_falls_back_to_cpu() {
    let elements = structs(vec![i32s([0, 1, 2, 1, 2])], 5);
    let packed = list(elements, PrimitiveBuffer::I32(vec![0, 3, 5]));
    let exported = export(host_list_view(packed)).unwrap();
    assert_eq!(exported.array.length, 2);
    assert_eq!(offsets(&exported.array), &[0, 3, 5]);
    let child = &exported.array.children[0];
    assert_eq!(child.length, 5);
    assert_eq!(values(&child.children[0]), &PrimitiveBuffer::I32(vec![0, 1, 2, 1, 2]));
}

#[test]
fn test_export_host_non_contiguous_dictionary_list_view_preserves_dictionary_child() {
    let elements =
        dict(codes(&[Some(0), None, Some(1), None, Some(1)]), i32s([10, 20, 30]));
    let packed = list(elements, PrimitiveBuffer::I32(vec![0, 3, 5]));
    let exported = export(host_list_view(packed)).unwrap();
    assert_eq!(offsets(&exported.array), &[0, 3, 5]);
    let child = &exported.array.children[0];
    assert!(child.dictionary.is_some());
    assert_eq!(child.length, 5);
    assert_eq!(child.buffers.len(), 2);
}

#[test]
fn device_list_views_keep_what_the_device_made_of_them() {
    let on_device = |device_export| {
        Array::ListView(ListViewArray {
            is_host: false,
            device_export,
            packed: Ok(list(i32s(0..5), PrimitiveBuffer::I32(vec![0, 5]))),
        })
    };
    assert_eq!(
        export(on_device(Err(VortexError::DeviceListView))).unwrap_err(),
        VortexError::DeviceListView
    );
    let made = export_array(Array::List(list(i32s(0..2), PrimitiveBuffer::I32(vec![0, 2]))));
    let again = export_array(Array::List(list(i32s(0..2), PrimitiveBuffer::I32(vec![0, 2]))));
    let exported = export_array(on_device(Ok(Box::new(made.unwrap())))).unwrap();
    assert_eq!(exported, again.unwrap());
}

#[test]
fn test_export_varbinview_multiple_variadic_buffers() {
    let first = b"first value stored out-of-line".to_vec();
    let second = b"second value stored out-of-line".to_vec();
    let fixture = |binary| {
        Array::VarBinView(VarBinViewArray {
            binary,
            views: vec![
                make_view(b"inline", 0, 0),
                make_view(&first, 0, 0),
                make_view(&second, 1, 0),
            ],
            buffers: vec![first.clone(), second.clone()],
            validity: Validity::NonNullable,
        })
    };
    let exported = export(fixture(true)).unwrap();
    assert_binary_layout(
        &exported.array,
        3,
        0,
        &[0, 6, 36, 67],
        b"inlinefirst value stored out-of-linesecond value stored out-of-line",
    );
    let exported = export(fixture(false)).unwrap();
    assert_varbinview_layout(&exported.array, 3, 0, &[first.len(), second.len()]);
}

#[test]
fn test_export_list_with_non_i32_offsets() {
    for wide in [PrimitiveBuffer::I64(vec![0, 2, 2, 5]), PrimitiveBuffer::U64(vec![0, 2, 2, 5])] {
        let exported = export(Array::List(list(i32s(0..5), wide))).unwrap();
        assert_eq!(exported.array.length, 3);
        assert_eq!(exported.array.buffers.len(), 2);
        assert_eq!(offsets(&exported.array), &[0, 2, 2, 5]);
    }
    let wide = PrimitiveBuffer::I64(vec![0, 1 << 31]);
    assert_eq!(
        export(Array::List(list(i32s(0..5), wide))).unwrap_err(),
        VortexError::ValueCast
    );
}

#[test]
fn test_export_fixed_size_list_as_list() {
    let array = Array::FixedSizeList(FixedSizeListArray {
        elements: Box::new(i32s(0..6)),
        list_size: 2,
        len: 3,
        validity: Validity::NonNullable,
    });
    let exported = export(array).unwrap();
    assert_eq!(shape(&exported.array), (3, 0, 0, 2, 1));
    assert!(exported.array.buffers[0].is_none());
    assert_eq!(offsets(&exported.array), &[0, 2, 4, 6]);
    let elements = &exported.array.children[0];
    assert_eq!(elements.length, 6);
    assert_eq!(elements.buffers.len(), 2);
    assert_eq!(exported.device_type, ARROW_DEVICE_CUDA);
}

#[test]
fn fixed_size_list_offsets_stay_in_32_bits() {
    assert_eq!(fixed_size_list_offsets(0, 7).unwrap(), vec![0]);
    let err = fixed_size_list_offsets(1, 1 << 31).unwrap_err();
    assert_eq!(
        err.message(),
        "cannot export FixedSizeList with list size 2147483648: Arrow List offsets require i32"
    );
    let err = fixed_size_list_offsets(3, 1 << 30).unwrap_err();
    assert_eq!(err.message(), "FixedSizeList Arrow List offsets exceed i32 range");
    assert_eq!(fixed_size_list_offsets(1 << 31, 0).unwrap_err(), VortexError::TryFromInt);
}

#[test]
fn test_export_device_metadata() {
    let exported = CanonicalDeviceArrayExport
        .export_device_array(prim(PrimitiveBuffer::U32((0..5).collect())), 3)
        .unwrap();
    assert_eq!(exported.device_id, 3);
    assert_eq!(exported.device_type, ARROW_DEVICE_CUDA);
    assert_eq!(exported.reserved, [0, 0, 0]);
    assert_eq!(exported.sync_event, SyncEvent::Recorded);
    assert!(exported.array.private_data);

    let exported = CanonicalDeviceArrayExport.export_device_array(Array::Null(5), 3).unwrap();
    assert_eq!(exported.device_id, 3);
    assert_eq!(exported.device_type, ARROW_DEVICE_CUDA);
    assert_eq!(exported.reserved, [0, 0, 0]);
    assert_eq!(exported.sync_event, SyncEvent::Null);
    assert!(!exported.array.private_data);
}

/// `bools[start..end]`, as a slice of the whole.
fn sliced_bits(bools: &[bool], start: usize, end: usize) -> BitBuffer {
    BitBuffer { offset: start, len: end - start, ..BitBuffer::from_bools(bools) }
}

#[test]
fn test_export_sliced_arrays() {
    let exported = export(prim(PrimitiveBuffer::U32((3..8).collect()))).unwrap().array;
    assert_eq!(exported.length, 5);
    assert_eq!(exported.offset, 0);
    assert_eq!(exported.buffers.len(), 2);

    let bools = [true, false, true, true, false, false, true, false];
    let array = BoolArray { bits: sliced_bits(&bools, 1, 6), validity: Validity::NonNullable };
    let exported = export(Array::Bool(array)).unwrap().array;
    assert_eq!(exported.length, 5);
    assert_eq!(exported.offset, 1);
    assert_eq!(exported.buffers.len(), 2);
}

#[test]
fn test_export_sliced_varbinview_arrays() {
    let all = [
        "skip this out-of-line value before the slice",
        "hello",
        "こんにちは",
        "this out-of-line value remains in the slice",
    ];
    let slice = |array: Array| match array {
        Array::VarBinView(mut a) => {
            a.views.remove(0);
            a
        }
        other => panic!("{other:?}"),
    };
    let exported = export(Array::VarBinView(slice(utf8(&all)))).unwrap().array;
    let out_of_line = all[0].len() + all[2].len() + all[3].len();
    assert_varbinview_layout(&exported, 3, 0, &[out_of_line]);

    let remains = b"this out-of-line binary value remains in the slice";
    let rows: [Option<&[u8]>; 4] = [
        Some(b"skip this out-of-line value before the slice"),
        None,
        Some(b"\x00\xff"),
        Some(remains),
    ];
    let mut sliced = slice(nullable_binary(&rows));
    sliced.validity = Validity::Array(sliced_bits(&[true, false, true, true], 1, 4));
    let exported = export(Array::VarBinView(sliced)).unwrap().array;
    assert_binary_layout(
        &exported,
        3,
        1,
        &[0, 0, 2, 2 + remains.len() as i32],
        &[b"\x00\xff".as_slice(), remains].concat(),
    );
    assert_eq!(bytes(&exported, 0), &vec![0b110]);
}

#[test]
fn test_export_nullable_primitive() {
    let array = Array::Primitive(nullable_i32s(&[Some(1), None, Some(3)]));
    let exported = assert_nullable_export(array, 2, 1);
    assert_eq!(bytes(&exported, 0), &vec![0b101]);
    let exported = assert_nullable_export(Array::Primitive(nullable_i32s(&[None, None])), 2, 2);
    assert_eq!(bytes(&exported, 0), &vec![0]);
}

#[test]
fn test_export_nullable_bool() {
    let array = BoolArray {
        bits: sliced_bits(&[true, false, false, true], 1, 4),
        validity: Validity::Array(sliced_bits(&[true, false, true, true], 1, 4)),
    };
    let exported = assert_nullable_export(Array::Bool(array), 2, 1);
    assert_eq!(exported.offset, 1);
    assert_eq!(bytes(&exported, 0), &vec![0b1101]);
}

#[test]
fn test_export_all_null_sliced_bool_validity_covers_arrow_offset() {
    let array = BoolArray {
        bits: sliced_bits(&[false; 10], 7, 9),
        validity: Validity::Array(sliced_bits(&[false; 10], 7, 9)),
    };
    let exported = assert_nullable_export(Array::Bool(array), 2, 2);
    assert_eq!(exported.offset, 7);
    assert_eq!(bytes(&exported, 0).len(), 2);
}

#[test]
fn validity_that_is_all_set_needs_no_bitmap() {
    let (bitmap, null_count) =
        export_arrow_validity_buffer(&bits(&[true, true, true]), 3, 0).unwrap();
    assert!(bitmap.is_none());
    assert_eq!(null_count, 0);
}

#[test]
fn test_export_nullable_decimal() {
    let array = Array::Decimal(DecimalArray {
        buffer: DecimalBuffer::I32(vec![100, 0, 300]),
        decimal_dtype: DecimalDType { precision: 10, scale: 2 },
        validity: bits(&[true, false, true]),
    });
    let exported = assert_nullable_export(array, 2, 1);
    assert_eq!(decimals(&exported), &DecimalBuffer::I64(vec![100, 0, 300]));
}

#[test]
fn test_export_nullable_temporal() {
    let storage = nullable_i32s(&[Some(100), None, Some(300)]);
    assert_nullable_export(Array::Extension(ExtensionArray { temporal: true, storage }), 2, 1);
}

#[test]
fn test_export_nullable_varbinview() {
    let rows: [Option<&[u8]>; 3] =
        [Some(b"one"), None, Some(b"this is a longer string for out-of-line storage")];
    assert_nullable_export(Array::VarBinView(views(false, &rows, validity_of(&rows))), 4, 1);
}

#[test]
fn test_export_nullable_struct() {
    let array = Array::Struct(StructArray {
        fields: vec![prim(PrimitiveBuffer::U32((0..3).collect()))],
        len: 3,
        validity: bits(&[true, false, true]),
    });
    assert_nullable_export(array, 1, 1);
}

#[test]
fn test_export_nested_struct_child_layout() {
    let exported = export(nested_struct_array()).unwrap().array;
    assert_eq!(exported.buffers.len(), 1);
    assert_eq!(exported.children.len(), 2);
    assert_eq!(exported.children[0].buffers.len(), 2);
    assert_eq!(exported.children[0].children.len(), 0);
    let nested = &exported.children[1];
    assert_eq!(nested.buffers.len(), 1);
    assert_eq!(nested.children.len(), 2);
    assert_eq!(nested.children[0].buffers.len(), 2);
    assert_eq!(nested.children[0].children.len(), 0);
    let strings = &nested.children[1];
    assert_eq!(strings.buffers.len(), 4);
    assert_eq!(strings.children.len(), 0);
    assert!(strings.buffers[0].is_none());
    assert!(strings.buffers[1..].iter().all(|b| b.is_some()));
}

#[test]
fn test_release_is_idempotent_and_releases_children() {
    let mut exported = export(nested_struct_array()).unwrap().array;
    assert!(exported.release);
    assert!(exported.private_data);
    assert_eq!(exported.children.len(), 2);
    assert!(exported.children.iter().all(|c| c.release));
    assert_eq!(exported.children[1].children.len(), 2);
    assert!(exported.children[1].children.iter().all(|c| c.release));

    release_array(&mut exported);
    assert!(!exported.release);
    assert!(!exported.private_data);
    assert!(exported.children.is_empty() && exported.buffers.is_empty());
    assert_eq!(exported.length, 5);

    release_array(&mut exported);
    assert!(!exported.release);
}

#[test]
fn release_gives_up_the_dictionary() {
    let mut exported = export(dict(codes(&[Some(0)]), i32s([1]))).unwrap().array;
    assert!(exported.dictionary.is_some());
    release_array(&mut exported);
    assert!(exported.dictionary.is_none());
    let mut null = export(Array::Null(2)).unwrap().array;
    release_array(&mut null);
    assert!(!null.release);
}

#[test]
fn test_export_struct() {
    let array = structs(
        vec![
            prim(PrimitiveBuffer::U32((0..5).collect())),
            prim(PrimitiveBuffer::I64((0..5).collect())),
        ],
        5,
    );
    let exported = export(array).unwrap();
    assert_eq!(shape(&exported.array), (5, 0, 0, 1, 2));
    assert!(exported.array.release);
    assert_eq!(exported.device_type, ARROW_DEVICE_CUDA);
}

#[test]
fn the_first_field_that_fails_fails_the_struct() {
    let storage = nullable_i32s(&[Some(1)]);
    let fields = vec![
        i32s([1]),
        Array::Variant(1),
        Array::Extension(ExtensionArray { temporal: false, storage }),
    ];
    assert_eq!(export(structs(fields, 1)).unwrap_err(), VortexError::UnsupportedExport);
}

#[test]
fn test_export_struct_with_schema() {
    let array = structs(
        vec![
            prim(PrimitiveBuffer::U32((0..5).collect())),
            prim(PrimitiveBuffer::I64((0..5).collect())),
            utf8(&["one", "two", "three", "four", "five"]),
        ],
        5,
    );
    let exported = export(array).unwrap();
    assert_eq!(shape(&exported.array), (5, 0, 0, 1, 3));
    assert_eq!(values(&exported.array.children[0]).ptype(), PType::U32);
    assert_eq!(values(&exported.array.children[1]).ptype(), PType::I64);
    assert_varbinview_layout(&exported.array.children[2], 5, 0, &[]);
    assert_eq!(exported.device_type, ARROW_DEVICE_CUDA);
}

#[test]
fn test_export_nested_struct_with_schema() {
    let exported = export(nested_struct_array()).unwrap();
    assert_eq!(exported.array.length, 5);
    assert_eq!(exported.array.children.len(), 2);
    assert_eq!(exported.device_type, ARROW_DEVICE_CUDA);
}

#[test]
fn test_export_nested_struct_decimal_with_schema() {
    let nested = structs(vec![decimal(DecimalBuffer::I32(vec![100, -200, 300]), 9, 2)], 3);
    let exported = export(structs(vec![nested], 3)).unwrap().array;
    let amount = &exported.children[0].children[0];
    assert_eq!(decimals(amount), &DecimalBuffer::I32(vec![100, -200, 300]));
}

#[test]
fn test_export_primitive_with_schema_is_column_shaped() {
    let exported = export(prim(PrimitiveBuffer::U32((0..5).collect()))).unwrap();
    assert_eq!(values(&exported.array).ptype(), PType::U32);
    assert_eq!(shape(&exported.array), (5, 0, 0, 2, 0));
    assert_eq!(exported.device_type, ARROW_DEVICE_CUDA);
}

#[test]
fn test_export_varbinview_with_schema_uses_utf8_view_layout() {
    let japanese = "こんにちは";
    let long_emoji = "🦀 and 🚀 make this string out-of-line";
    let exported = export(utf8(&["", "hello", "é", "🦀", japanese, long_emoji])).unwrap();
    assert_varbinview_layout(&exported.array, 6, 0, &[japanese.len() + long_emoji.len()]);
}

#[test]
fn exported_binary_rows_are_found_between_their_offsets() {
    let rows: [Option<&[u8]>; 4] = [Some(b"ab"), None, Some(b"a value of some length"), Some(b"")];
    let exported: Exported = export_array(nullable_binary(&rows)).unwrap();
    let at = offsets(&exported.array);
    let all = bytes(&exported.array, 2);
    for (i, row) in rows.iter().enumerate() {
        assert_eq!(&all[at[i] as usize..at[i + 1] as usize], row.unwrap_or(b""));
    }
}

#[test]
fn statuses_stand_for_errors() {
    assert_eq!(check_binary_status(0), Ok(()));
    assert_eq!(check_binary_status(1), Err(VortexError::InvalidViewBuffer));
    assert_eq!(check_binary_status(2), Err(VortexError::BinaryOffsetsOverflow));
    let unexpected = check_binary_status(7).unwrap_err();
    assert_eq!(unexpected.message(), "unexpected Arrow Binary export status 7");
}

#[test]
fn release_reaches_everything_below_once() {
    let mut exported = export(nested_struct_array()).unwrap().array;
    let parts = release_parts(&mut exported);
    assert!(!exported.release);
    assert_eq!(parts.children.len(), 2);
    assert!(parts.children.iter().all(|c| !c.shell.release && c.shell.children.is_empty()));
    assert_eq!(parts.children[0].shell.length, 5);
    assert!(parts.children[0].parts.children.is_empty());
    assert!(parts.dictionary.is_none());
    let below = &parts.children[1].parts.children;
    assert_eq!(below.len(), 2);
    assert!(below.iter().all(|c| !c.shell.release && c.shell.buffers.is_empty()));
    assert!(release_parts(&mut exported).children.is_empty());

    let mut exported = export(dict(codes(&[Some(0)]), i32s([1]))).unwrap().array;
    let dictionary = release_parts(&mut exported).dictionary.unwrap();
    assert!(!dictionary.shell.release);
    assert!(release_parts(&mut exported).dictionary.is_none());
}
