//! The buffers of exported arrays: null bitmaps, decimal values, list offsets, dictionary codes.
use vstd::prelude::*;

use crate::arrow::array::{ArrowBuffer, BufferModel};
use crate::bits::{byte_count, pack_bits, zeroed_bytes};
use crate::decimal::{widen, DecimalBuffer};
use crate::dtype::{DecimalDType, DecimalType, PType};
use crate::error::{VortexError, VortexResult};
use crate::primitive::{PrimitiveArray, PrimitiveBuffer};
use crate::validity::{Mask, Validity};

verus! {

/// The bytes of the null bitmap of `len` rows, if one is needed. Rows that are all null get a
/// bitmap that also covers the `arrow_offset` rows before them; a mixed validity keeps its bytes.
pub open spec fn validity_bytes(validity: &Validity, len: nat, arrow_offset: nat) -> Option<
    Seq<u8>,
> {
    let zeros = Seq::new(
        crate::bits::bytes_for_bits((len + arrow_offset) as int) as nat,
        |i: int| 0u8,
    );
    match validity {
        Validity::NonNullable => None,
        Validity::AllValid => None,
        Validity::AllInvalid => Some(zeros),
        Validity::Array(bits) => {
            let valid = crate::bits::count_true(bits@);
            if valid == 0 {
                Some(zeros)
            } else if valid == len {
                None
            } else {
                Some(bits.bytes@)
            }
        },
    }
}

/// What an optional byte buffer holds.
pub open spec fn bytes_model(bytes: Option<Seq<u8>>) -> Option<BufferModel> {
    match bytes {
        Some(b) => Some(BufferModel::Bytes(b)),
        None => None,
    }
}

/// Whether a null count fits the Arrow array's field.
pub open spec fn null_count_fits(validity: &Validity, len: nat) -> bool {
    validity.null_count(len) <= i64::MAX
}

/// A count as an `i64`, if it fits.
pub fn count_to_i64(n: usize) -> (r: VortexResult<i64>)
    ensures
        r == (if n <= i64::MAX {
            Ok::<i64, VortexError>(n as i64)
        } else {
            Err(VortexError::TryFromInt)
        }),
{
    if n as u64 <= 0x7fff_ffff_ffff_ffff {
        Ok(n as i64)
    } else {
        Err(VortexError::TryFromInt)
    }
}

/// The null bitmap of `len` rows that start `arrow_offset` rows into the exported buffers, and
/// their null count. No bitmap is needed where every row is valid.
pub fn export_arrow_validity_buffer(
    validity: &Validity,
    len: usize,
    arrow_offset: usize,
) -> (r: VortexResult<(Option<ArrowBuffer>, i64)>)
    requires
        validity.wf(len as nat),
        len + arrow_offset <= usize::MAX,
    ensures
        match r {
            Ok(out) => {
                &&& null_count_fits(validity, len as nat)
                &&& crate::arrow::array::buffer_model(out.0) == bytes_model(
                    validity_bytes(validity, len as nat, arrow_offset as nat),
                )
                &&& out.1 == validity.null_count(len as nat)
            },
            Err(e) => e == VortexError::TryFromInt && !null_count_fits(validity, len as nat),
        },
{
    let mask = validity.execute_mask(len);
    let null_count: i64 = match count_to_i64(mask.false_count()) {
        Ok(n) => n,
        Err(e) => return Err(e),
    };
    let validity_count: usize = byte_count(len + arrow_offset);
    match mask {
        Mask::AllTrue(_) => {
            proof {
                crate::bits::constant_count(len as nat, true);
                assert(mask@ =~= Seq::new(len as nat, |i: int| true));
            }
            Ok((None, 0))
        },
        Mask::AllFalse(_) => Ok((Some(ArrowBuffer::Bytes(zeroed_bytes(validity_count))), null_count)),
        Mask::Values(bits) => Ok((Some(ArrowBuffer::Bytes(bits.bytes)), null_count)),
    }
}

/// Whether a mixed validity starts as many bits into its bytes as the exported rows do.
pub open spec fn bitmap_aligned(validity: &Validity, len: nat, arrow_offset: nat) -> bool {
    validity matches Validity::Array(bits) ==> crate::bits::count_true(bits@) == 0
        || crate::bits::count_true(bits@) == len || bits.offset == arrow_offset
}

/// A reader that looks for row `i` at bit `arrow_offset + i` of the null bitmap finds whether the
/// row is valid, and without a bitmap every row is valid.
pub proof fn bitmap_shows_validity(validity: &Validity, len: nat, arrow_offset: nat, i: int)
    requires
        validity.wf(len),
        bitmap_aligned(validity, len, arrow_offset),
        0 <= i < len,
    ensures
        match validity_bytes(validity, len, arrow_offset) {
            Some(bytes) => arrow_offset + i < bytes.len() * 8 && crate::bits::bit_at(
                bytes,
                arrow_offset + i,
            ) == validity.valid_at(i),
            None => validity.valid_at(i),
        },
{
    let n = crate::bits::bytes_for_bits((len + arrow_offset) as int) as nat;
    match validity {
        Validity::Array(bits) => {
            crate::bits::all_counted_is_all_true(bits@);
            if crate::bits::count_true(bits@) == 0 {
                crate::bits::none_counted_is_all_false(bits@);
                crate::bits::zero_bytes_are_clear(n, arrow_offset + i);
                assert(!bits@[i]);
            } else if crate::bits::count_true(bits@) == len {
                assert(bits@[i]);
            }
        },
        Validity::AllInvalid => {
            crate::bits::zero_bytes_are_clear(n, arrow_offset + i);
        },
        _ => {},
    }
}

/// The bytes of the null bitmap of binary rows, if one is needed. It always starts at bit 0.
pub open spec fn binary_validity_bytes(validity: &Validity, len: nat) -> Option<Seq<u8>> {
    match validity_bytes(validity, len, 0) {
        Some(bytes) => match validity {
            Validity::Array(bits) if bits.offset != 0 && crate::bits::count_true(bits@) != 0 => Some(
                crate::bits::packed(bits@),
            ),
            _ => Some(bytes),
        },
        None => None,
    }
}

/// The null bitmap of binary rows, repacked to start at bit 0, and their null count.
pub fn export_binary_validity_buffer(validity: &Validity, len: usize) -> (r: VortexResult<
    (Option<Vec<u8>>, i64),
>)
    requires
        validity.wf(len as nat),
    ensures
        match r {
            Ok(out) => {
                &&& null_count_fits(validity, len as nat)
                &&& match out.0 {
                    Some(bytes) => binary_validity_bytes(validity, len as nat) == Some(bytes@),
                    None => binary_validity_bytes(validity, len as nat) is None,
                }
                &&& out.1 == validity.null_count(len as nat)
            },
            Err(e) => e == VortexError::TryFromInt && !null_count_fits(validity, len as nat),
        },
{
    let mask = validity.execute_mask(len);
    let null_count: i64 = match count_to_i64(mask.false_count()) {
        Ok(n) => n,
        Err(e) => return Err(e),
    };
    let validity_count: usize = byte_count(len);
    match mask {
        Mask::AllTrue(_) => {
            proof {
                crate::bits::constant_count(len as nat, true);
                assert(mask@ =~= Seq::new(len as nat, |i: int| true));
            }
            Ok((None, 0))
        },
        Mask::AllFalse(_) => Ok((Some(zeroed_bytes(validity_count)), null_count)),
        Mask::Values(bits) => {
            if bits.offset == 0 {
                return Ok((Some(bits.bytes), null_count));
            }
            let mut unpacked: Vec<bool> = Vec::new();
            let mut i: usize = 0;
            while i < bits.len
                invariant
                    bits.wf(),
                    i <= bits.len,
                    unpacked@ == bits@.take(i as int),
                decreases bits.len - i,
            {
                unpacked.push(bits.value(i));
                i = i + 1;
                assert(unpacked@ =~= bits@.take(i as int));
            }
            assert(unpacked@ =~= bits@);
            assert(mask@ == bits@);
            assert(validity->Array_0@ =~= bits@);
            Ok((Some(pack_bits(unpacked.as_slice())), null_count))
        },
    }
}

/// The Arrow decimal that holds a precision.
pub open spec fn arrow_decimal_type(precision: u8) -> DecimalType {
    if precision <= 9 {
        DecimalType::I32
    } else if precision <= 18 {
        DecimalType::I64
    } else if precision <= 38 {
        DecimalType::I128
    } else {
        DecimalType::I256
    }
}

/// The Arrow decimal that holds the precision of a decimal type.
pub fn cuda_decimal_value_type(dtype: DecimalDType) -> (t: DecimalType)
    ensures
        t == arrow_decimal_type(dtype.precision),
{
    if dtype.precision <= 9 {
        DecimalType::I32
    } else if dtype.precision <= 18 {
        DecimalType::I64
    } else if dtype.precision <= 38 {
        DecimalType::I128
    } else {
        DecimalType::I256
    }
}

/// Why decimals stored as `from` cannot be exported as `to`, if they cannot: narrowing is never
/// tried, and Arrow has no decimal below 32 bits to widen to.
pub open spec fn decimal_export_error(from: DecimalType, to: DecimalType) -> Option<VortexError> {
    if from.bits() > to.bits() {
        Some(VortexError::DecimalExportNarrowing { from_type: from, to_type: to })
    } else if from != to && (to == DecimalType::I8 || to == DecimalType::I16) {
        Some(VortexError::DecimalExportTarget { to_type: to })
    } else {
        None
    }
}

/// Decimal values in the width of an Arrow decimal.
pub fn export_decimal_values(values: DecimalBuffer, target_type: DecimalType) -> (r: VortexResult<
    DecimalBuffer,
>)
    ensures
        match r {
            Ok(out) => {
                &&& decimal_export_error(values.spec_values_type(), target_type) is None
                &&& out.spec_values_type() == target_type
                &&& out@ == values@
            },
            Err(e) => decimal_export_error(values.spec_values_type(), target_type) == Some(e),
        },
{
    let values_type = values.values_type();
    if values_type.bit_width() > target_type.bit_width() {
        return Err(
            VortexError::DecimalExportNarrowing { from_type: values_type, to_type: target_type },
        );
    }
    if values_type == target_type {
        return Ok(values);
    }
    match target_type {
        DecimalType::I32 | DecimalType::I64 | DecimalType::I128 | DecimalType::I256 => Ok(
            widen(&values, target_type),
        ),
        _ => Err(VortexError::DecimalExportTarget { to_type: target_type }),
    }
}

/// The offsets of `len` lists of one size.
pub open spec fn fixed_offsets(len: nat, list_size: int) -> Seq<int> {
    Seq::new((len + 1) as nat, |i: int| i * list_size)
}

/// Why lists of one size have no 32-bit offsets, if they have none.
pub open spec fn fixed_offsets_error(len: nat, list_size: u32) -> Option<VortexError> {
    if list_size > i32::MAX {
        Some(VortexError::FixedListSizeOverflow { list_size })
    } else if len > i32::MAX {
        Some(VortexError::TryFromInt)
    } else if len * list_size > i32::MAX {
        Some(VortexError::FixedListOffsetsOverflow)
    } else {
        None
    }
}

/// What 32-bit offsets hold.
pub open spec fn offset_ints(offsets: Seq<i32>) -> Seq<int> {
    Seq::new(offsets.len(), |i: int| offsets[i] as int)
}

/// The 32-bit offsets of `len` lists of one size.
pub fn fixed_size_list_offsets(len: usize, list_size: u32) -> (r: VortexResult<Vec<i32>>)
    ensures
        match r {
            Ok(out) => {
                &&& fixed_offsets_error(len as nat, list_size) is None
                &&& offset_ints(out@) == fixed_offsets(len as nat, list_size as int)
            },
            Err(e) => fixed_offsets_error(len as nat, list_size) == Some(e),
        },
{
    if list_size > 0x7fff_ffff {
        return Err(VortexError::FixedListSizeOverflow { list_size });
    }
    if len > 0x7fff_ffff {
        return Err(VortexError::TryFromInt);
    }
    let size: i32 = list_size as i32;
    let last: i32 = len as i32;
    let mut offsets: Vec<i32> = Vec::new();
    let mut idx: i32 = 0;
    while idx <= last
        invariant
            0 <= idx <= last + 1,
            last == len,
            size == list_size,
            offsets@.len() == idx,
            len <= i32::MAX,
            list_size <= i32::MAX,
            forall|i: int| 0 <= i < idx ==> #[trigger] offsets@[i] == i * list_size,
            idx > 0 ==> (idx - 1) * list_size <= i32::MAX,
        decreases last + 1 - idx,
    {
        match idx.checked_mul(size) {
            Some(offset) => {
                offsets.push(offset);
            },
            None => {
                proof {
                    assert(idx * size >= 0 && idx * size <= len * list_size) by (nonlinear_arith)
                        requires
                            0 <= idx <= len,
                            0 <= size,
                            size == list_size,
                    ;
                }
                return Err(VortexError::FixedListOffsetsOverflow);
            },
        }
        if idx == last {
            proof {
                assert(offset_ints(offsets@) =~= fixed_offsets(len as nat, list_size as int));
            }
            return Ok(offsets);
        }
        idx = idx + 1;
    }
    Ok(offsets)
}

/// Whether every offset is a 32-bit integer.
pub open spec fn all_i32(offsets: Seq<int>) -> bool {
    forall|i: int| 0 <= i < offsets.len() ==> i32::MIN <= #[trigger] offsets[i] <= i32::MAX
}

/// List offsets as 32-bit integers.
pub fn export_arrow_list_offsets(offsets: &PrimitiveBuffer) -> (r: VortexResult<Vec<i32>>)
    requires
        offsets.integer(),
    ensures
        match r {
            Ok(out) => all_i32(offsets.ints()) && offset_ints(out@) == offsets.ints(),
            Err(e) => e == VortexError::ValueCast && !all_i32(offsets.ints()),
        },
{
    let n: usize = offsets.len();
    let mut out: Vec<i32> = Vec::new();
    let mut i: usize = 0;
    while i < n
        invariant
            n == offsets.spec_len(),
            i <= n,
            out@.len() == i,
            forall|j: int| 0 <= j < i ==> #[trigger] out@[j] == offsets.ints()[j],
            forall|j: int|
                0 <= j < i ==> i32::MIN <= #[trigger] offsets.ints()[j] <= i32::MAX,
        decreases n - i,
    {
        let v: i128 = offsets.as_i128(i);
        assert(offsets.ints()[i as int] == v);
        if v < -0x8000_0000 || v > 0x7fff_ffff {
            assert(!(i32::MIN <= offsets.ints()[i as int] <= i32::MAX));
            return Err(VortexError::ValueCast);
        }
        out.push(v as i32);
        assert(out@[i as int] == v);
        i = i + 1;
    }
    proof {
        assert(offset_ints(out@) =~= offsets.ints());
    }
    Ok(out)
}

/// The physical type in which dictionary codes are exported: a signed type that holds every code
/// of the type, or 64 bits.
pub open spec fn exported_codes_ptype(p: PType) -> PType {
    match p {
        PType::U8 => PType::I16,
        PType::U16 => PType::I32,
        PType::U32 => PType::I64,
        PType::U64 => PType::I64,
        _ => p,
    }
}

/// Whether some code does not fit the type in which codes are exported. Only 64-bit unsigned codes
/// can be too large.
pub open spec fn code_overflows(codes: &PrimitiveBuffer) -> bool {
    codes is U64 && exists|i: int|
        0 <= i < codes.spec_len() && #[trigger] codes.int_at(i) > i64::MAX
}

/// Dictionary codes as signed integers.
pub fn export_dictionary_codes(codes: PrimitiveArray) -> (r: VortexResult<PrimitiveArray>)
    requires
        codes.wf(),
        codes.buffer.integer(),
    ensures
        match r {
            Ok(out) => {
                &&& !code_overflows(&codes.buffer)
                &&& out.buffer.spec_ptype() == exported_codes_ptype(codes.buffer.spec_ptype())
                &&& out.buffer.ints() == codes.buffer.ints()
                &&& out.validity == codes.validity
                &&& out.wf()
            },
            Err(e) => e == VortexError::ValueCast && code_overflows(&codes.buffer),
        },
{
    let PrimitiveArray { buffer, validity } = codes;
    let ghost source = buffer;
    let buffer = match buffer {
        PrimitiveBuffer::U8(v) => {
            let mut out: Vec<i16> = Vec::new();
            for i in 0..v.len()
                invariant
                    out@.len() == i,
                    forall|j: int| 0 <= j < i ==> #[trigger] out@[j] == v@[j],
            {
                out.push(v[i] as i16);
            }
            PrimitiveBuffer::I16(out)
        },
        PrimitiveBuffer::U16(v) => {
            let mut out: Vec<i32> = Vec::new();
            for i in 0..v.len()
                invariant
                    out@.len() == i,
                    forall|j: int| 0 <= j < i ==> #[trigger] out@[j] == v@[j],
            {
                out.push(v[i] as i32);
            }
            PrimitiveBuffer::I32(out)
        },
        PrimitiveBuffer::U32(v) => {
            let mut out: Vec<i64> = Vec::new();
            for i in 0..v.len()
                invariant
                    out@.len() == i,
                    forall|j: int| 0 <= j < i ==> #[trigger] out@[j] == v@[j],
            {
                out.push(v[i] as i64);
            }
            PrimitiveBuffer::I64(out)
        },
        PrimitiveBuffer::U64(v) => {
            let mut out: Vec<i64> = Vec::new();
            let mut i: usize = 0;
            while i < v.len()
                invariant
                    source == PrimitiveBuffer::U64(v),
                    source == codes.buffer,
                    i <= v@.len(),
                    out@.len() == i,
                    forall|j: int| 0 <= j < i ==> #[trigger] out@[j] == v@[j],
                    forall|j: int| 0 <= j < i ==> #[trigger] v@[j] <= i64::MAX,
                decreases v@.len() - i,
            {
                let code: u64 = v[i];
                if code > 0x7fff_ffff_ffff_ffff {
                    assert(source.int_at(i as int) > i64::MAX);
                    return Err(VortexError::ValueCast);
                }
                out.push(code as i64);
                i = i + 1;
            }
            proof {
                assert forall|j: int| 0 <= j < v@.len() implies #[trigger] source.int_at(j)
                    <= i64::MAX by {
                    assert(v@[j] <= i64::MAX);
                }
            }
            PrimitiveBuffer::I64(out)
        },
        other => other,
    };
    assert(buffer.ints() =~= source.ints());
    Ok(PrimitiveArray { buffer, validity })
}

/// Decimals are exported to each of Arrow's decimals, of 32 bits or more, that is at least as wide
/// as their own storage, and to their own; to a narrower one never. Every other pair is refused, a
/// narrower target by name.
pub proof fn decimals_are_only_widened(from: DecimalType, to: DecimalType)
    ensures
        decimal_export_error(from, to) is None <==> from == to || from.bits() <= to.bits()
            && to.bits() >= 32,
        from.bits() > to.bits() <==> decimal_export_error(from, to) == Some(
            VortexError::DecimalExportNarrowing { from_type: from, to_type: to },
        ),
        from.bits() == to.bits() <==> from == to,
{
}

} // verus!
