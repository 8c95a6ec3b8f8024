//! What a reader of an exported array finds in it, and what can be exported.
use vstd::prelude::*;

use crate::arrow::array::{
    buffer_model, data_buffers, Array, ArrowArray, ArrowBuffer, ArrowModel, BufferModel, Exported,
    ListArray, ListViewArray, SyncEvent, VarBinViewArray,
};
use crate::arrow::export::{
    binary_model, buffer_sizes, export_model, export_models, is_export, list_model, views_model,
};
use crate::arrow::{binary, buffers};
use crate::bits::bit_at;
use crate::dtype::{DecimalType, PType};
use crate::error::{VortexError, VortexResult};
use crate::validity::Validity;

verus! {

/// How many of the first `n` entries are null.
pub open spec fn nulls_among(validity: &Validity, n: nat) -> nat
    decreases n,
{
    if n == 0 {
        0
    } else {
        nulls_among(validity, (n - 1) as nat) + if validity.valid_at(n - 1) {
            0nat
        } else {
            1nat
        }
    }
}

/// Whether a reader that looks for row `i` at bit `start + i` of the null bitmap finds it valid:
/// the bit is set, or there is no null bitmap.
pub open spec fn reads_valid(m: ArrowArray, start: int, i: int) -> bool {
    match m.buffers@[0] {
        Some(ArrowBuffer::Bytes(bytes)) => bit_at(bytes@, start + i),
        Some(_) => false,
        None => true,
    }
}

/// Whether a reader finds `len` rows, exactly those null that `validity` says are null, and the
/// right number of them.
pub open spec fn shows_nulls_from(
    validity: &Validity,
    len: nat,
    m: ArrowArray,
    start: int,
) -> bool {
    &&& m.length == len
    &&& m.null_count == nulls_among(validity, len)
    &&& m.buffers@.len() >= 1
    &&& match m.buffers@[0] {
        Some(ArrowBuffer::Bytes(bytes)) => 0 <= start && start + len <= bytes@.len() * 8,
        Some(_) => false,
        None => m.null_count == 0,
    }
    &&& forall|i: int|
        0 <= i < len ==> #[trigger] reads_valid(m, start, i) == validity.valid_at(i)
    &&& m.release
    &&& m.private_data
}

/// Whether `validity` says of some row that it is valid and of some that it is null.
pub open spec fn mixed(validity: &Validity, len: nat) -> bool {
    &&& exists|i: int| 0 <= i < len && #[trigger] validity.valid_at(i)
    &&& exists|i: int| 0 <= i < len && !#[trigger] validity.valid_at(i)
}

/// The bit of the null bitmap that stands for row 0: the first row of the exported buffers, or,
/// where the bytes of a mixed validity are exported as they are, the first bit of the validity.
pub open spec fn bitmap_start(validity: &Validity, len: nat, m: ArrowArray) -> int {
    match validity {
        Validity::Array(bits) if mixed(validity, len) => bits.offset as int,
        _ => m.offset as int,
    }
}

/// Whether a reader finds the nulls, the null bitmap starting where the validity's bytes do.
pub open spec fn shows_nulls(validity: &Validity, len: nat, m: ArrowArray) -> bool {
    shows_nulls_from(validity, len, m, bitmap_start(validity, len, m))
}

/// Whether a reader finds these numbers of this type.
pub open spec fn shows_numbers(ptype: PType, numbers: Seq<int>, m: ArrowArray) -> bool {
    &&& m.buffers@.len() == 2
    &&& m.offset == 0
    &&& match m.buffers@[1] {
        Some(ArrowBuffer::Values(v)) => {
            &&& v.spec_ptype() == ptype
            &&& v.spec_len() == numbers.len()
            &&& forall|i: int| 0 <= i < numbers.len() ==> #[trigger] v.int_at(i) == numbers[i]
        },
        _ => false,
    }
}

/// The bytes of the data buffers between the views and the sizes.
pub open spec fn read_data(m: ArrowArray) -> Seq<Seq<u8>> {
    Seq::new(
        (m.buffers@.len() - 3) as nat,
        |k: int|
            match m.buffers@[k + 2] {
                Some(ArrowBuffer::Bytes(bytes)) => bytes@,
                _ => Seq::empty(),
            },
    )
}

/// Whether a reader finds every string behind its view, and the size of every data buffer.
pub open spec fn shows_strings(a: VarBinViewArray, m: ArrowArray) -> bool {
    let n = m.buffers@.len();
    &&& n == a.buffers@.len() + 3
    &&& m.offset == 0
    &&& match m.buffers@[1] {
        Some(ArrowBuffer::Views(v)) => {
            &&& v@.len() == a.views@.len()
            &&& forall|i: int|
                0 <= i < a.views@.len() ==> (#[trigger] v@[i]).value(read_data(m))
                    == a.views@[i].value(data_buffers(a.buffers@)) && v@[i].size == a.views@[i].size
        },
        _ => false,
    }
    &&& forall|k: int| 0 <= k < n - 3 ==> (#[trigger] m.buffers@[k + 2]) is Some
    &&& match m.buffers@[n - 1] {
        Some(ArrowBuffer::Sizes(s)) => {
            &&& s@.len() == n - 3
            &&& forall|k: int| 0 <= k < n - 3 ==> #[trigger] s@[k] == read_data(m)[k].len()
        },
        _ => false,
    }
}

/// Whether a reader finds every valid binary value between its offsets, and nothing for a null.
pub open spec fn shows_binary(a: VarBinViewArray, m: ArrowArray) -> bool {
    &&& m.buffers@.len() == 3
    &&& m.offset == 0
    &&& match (m.buffers@[1], m.buffers@[2]) {
        (Some(ArrowBuffer::Offsets(o)), Some(ArrowBuffer::Bytes(values))) => {
            &&& o@.len() == a.views@.len() + 1
            &&& o@[0] == 0
            &&& o@[a.views@.len() as int] == values@.len()
            &&& forall|i: int|
                0 <= i < a.views@.len() ==> {
                    &&& 0 <= #[trigger] o@[i] <= o@[i + 1] <= values@.len()
                    &&& if a.validity.valid_at(i) {
                        values@.subrange(o@[i] as int, o@[i + 1] as int) == a.views@[i].value(
                            data_buffers(a.buffers@),
                        )
                    } else {
                        o@[i] == o@[i + 1]
                    }
                }
        },
        _ => false,
    }
}

/// Whether a reader finds these list offsets, over one child.
pub open spec fn shows_offsets(offsets: Seq<int>, m: ArrowArray) -> bool {
    &&& m.buffers@.len() == 2
    &&& m.offset == 0
    &&& m.children@.len() == 1
    &&& match m.buffers@[1] {
        Some(ArrowBuffer::Offsets(o)) => {
            &&& o@.len() == offsets.len()
            &&& forall|i: int| 0 <= i < offsets.len() ==> #[trigger] o@[i] == offsets[i]
        },
        _ => false,
    }
}

/// Whether codes of one integer type are exported in another: a signed type as it is, and an
/// unsigned one in the next wider signed type, or in 64 bits where there is none.
pub open spec fn codes_as_signed(from: PType, to: PType) -> bool {
    if from.min_int() < 0 {
        to == from
    } else {
        to.min_int() < 0 && to.bits() == (if from.bits() < 64 {
            2 * from.bits()
        } else {
            64
        })
    }
}

/// Whether a reader finds every list with its elements.
pub open spec fn shows_list(a: ListArray, m: ArrowArray) -> bool
    decreases a,
{
    &&& shows_nulls(&a.validity, (a.offsets.spec_len() - 1) as nat, m)
    &&& shows_offsets(a.offsets.ints(), m)
    &&& m.dictionary is None
    &&& shows(*a.elements, m.children@[0])
}

/// Whether a reader of `m` finds every row of `a`: its nulls and its values, at every level of the
/// tree. Of list views that the device has turned into lists it finds what the device made.
pub open spec fn shows(a: Array, m: ArrowArray) -> bool
    decreases a,
{
    match a {
        Array::Null(n) => {
            &&& m.length == n
            &&& m.null_count == n
            &&& m.offset == 0
            &&& m.buffers@.len() == 0
            &&& m.children@.len() == 0
            &&& m.dictionary is None
            &&& m.release
            &&& !m.private_data
        },
        Array::Bool(b) => {
            &&& shows_nulls(&b.validity, b.bits.len as nat, m)
            &&& m.offset >= 0
            &&& m.buffers@.len() == 2
            &&& m.children@.len() == 0
            &&& m.dictionary is None
            &&& match m.buffers@[1] {
                Some(ArrowBuffer::Bytes(bytes)) => {
                    &&& m.offset + b.bits.len <= bytes@.len() * 8
                    &&& forall|i: int|
                        0 <= i < b.bits.len ==> #[trigger] bit_at(bytes@, m.offset + i)
                            == b.bits@[i]
                },
                _ => false,
            }
        },
        Array::Primitive(p) => {
            &&& shows_nulls(&p.validity, p.buffer.spec_len(), m)
            &&& shows_numbers(p.buffer.spec_ptype(), p.buffer.ints(), m)
            &&& m.children@.len() == 0
            &&& m.dictionary is None
        },
        Array::Extension(e) => {
            &&& e.temporal
            &&& shows_nulls(&e.storage.validity, e.storage.buffer.spec_len(), m)
            &&& shows_numbers(e.storage.buffer.spec_ptype(), e.storage.buffer.ints(), m)
            &&& m.children@.len() == 0
            &&& m.dictionary is None
        },
        Array::Decimal(d) => {
            &&& shows_nulls(&d.validity, d.buffer@.len(), m)
            &&& m.buffers@.len() == 2
            &&& m.offset == 0
            &&& m.children@.len() == 0
            &&& m.dictionary is None
            &&& match m.buffers@[1] {
                Some(ArrowBuffer::Decimals(v)) => {
                    &&& arrow_width(d.decimal_dtype.precision, v.spec_values_type())
                    &&& v@ == d.buffer@
                },
                _ => false,
            }
        },
        Array::VarBinView(v) => {
            &&& m.children@.len() == 0
            &&& m.dictionary is None
            &&& if v.binary {
                shows_nulls_from(&v.validity, v.views@.len(), m, 0) && shows_binary(v, m)
            } else {
                shows_nulls(&v.validity, v.views@.len(), m) && shows_strings(v, m)
            }
        },
        Array::Struct(s) => {
            &&& shows_nulls(&s.validity, s.len as nat, m)
            &&& m.buffers@.len() == 1
            &&& m.offset == 0
            &&& m.dictionary is None
            &&& m.children@.len() == s.fields@.len()
            &&& forall|k: int|
                0 <= k < s.fields@.len() ==> shows(#[trigger] s.fields@[k], m.children@[k])
        },
        Array::List(l) => shows_list(l, m),
        Array::ListView(v) => match v.device_export {
            Ok(e) => m@ == e.array@,
            Err(_) => v.is_host && match v.packed {
                Ok(l) => shows_list(l, m),
                Err(_) => false,
            },
        },
        Array::FixedSizeList(f) => {
            &&& shows_nulls(&f.validity, f.len as nat, m)
            &&& shows_offsets(Seq::new((f.len + 1) as nat, |i: int| i * f.list_size), m)
            &&& m.dictionary is None
            &&& shows(*f.elements, m.children@[0])
        },
        Array::Dict(d) => {
            &&& shows_nulls(&d.codes.validity, d.codes.buffer.spec_len(), m)
            &&& m.children@.len() == 0
            &&& match m.buffers@[1] {
                Some(ArrowBuffer::Values(v)) => codes_as_signed(
                    d.codes.buffer.spec_ptype(),
                    v.spec_ptype(),
                ) && shows_numbers(v.spec_ptype(), d.codes.buffer.ints(), m),
                _ => false,
            }
            &&& match m.dictionary {
                Some(values) => shows(*d.values, *values),
                None => false,
            }
        },
        Array::Variant(_) => false,
    }
}

/// Whether `t` is the narrowest decimal of Arrow, which has none below 32 bits, that holds every
/// number of `precision` digits; the widest is taken for any more digits.
pub open spec fn arrow_width(precision: u8, t: DecimalType) -> bool {
    match t {
        DecimalType::I8 | DecimalType::I16 => false,
        DecimalType::I32 => holds_digits(precision, i32::MAX as int),
        DecimalType::I64 => holds_digits(precision, i64::MAX as int) && !holds_digits(
            precision,
            i32::MAX as int,
        ),
        DecimalType::I128 => holds_digits(precision, i128::MAX as int) && !holds_digits(
            precision,
            i64::MAX as int,
        ),
        DecimalType::I256 => !holds_digits(precision, i128::MAX as int),
    }
}

/// Whether every number of so many digits is at most `max`.
pub open spec fn holds_digits(precision: u8, max: int) -> bool {
    crate::int256::pow10(precision as nat) - 1 <= max
}

/// The choice of Arrow's decimal is the narrowest that holds the digits.
proof fn arrow_decimal_is_narrowest(precision: u8)
    ensures
        arrow_width(precision, buffers::arrow_decimal_type(precision)),
{
    let p = precision as nat;
    reveal_with_fuel(crate::int256::pow10, 40);
    assert(crate::int256::pow10(9) == 1000000000);
    assert(crate::int256::pow10(10) == 10000000000);
    assert(crate::int256::pow10(18) == 1000000000000000000);
    assert(crate::int256::pow10(19) == 10000000000000000000);
    assert(crate::int256::pow10(38) == 100000000000000000000000000000000000000);
    assert(crate::int256::pow10(39) == 1000000000000000000000000000000000000000);
    if p <= 9 {
        crate::int256::pow10_grows(p, 9);
    } else if p <= 18 {
        crate::int256::pow10_grows(10, p);
        crate::int256::pow10_grows(p, 18);
    } else if p <= 38 {
        crate::int256::pow10_grows(19, p);
        crate::int256::pow10_grows(p, 38);
    } else {
        crate::int256::pow10_grows(39, p);
    }
}

/// Whether every length, and the first bit of booleans, fits the fields of an exported array, at
/// every level of the tree.
pub open spec fn lengths_fit(a: Array) -> bool
    decreases a,
{
    match a {
        Array::Null(n) => n <= i64::MAX,
        Array::Bool(b) => b.bits.len <= i64::MAX && b.bits.offset <= i64::MAX,
        Array::Primitive(p) => p.buffer.spec_len() <= i64::MAX,
        Array::Decimal(d) => d.buffer@.len() <= i64::MAX,
        Array::VarBinView(v) => v.views@.len() <= i64::MAX,
        Array::Struct(s) => s.len <= i64::MAX && forall|k: int|
            0 <= k < s.fields@.len() ==> lengths_fit(#[trigger] s.fields@[k]),
        Array::List(l) => list_lengths_fit(l),
        Array::ListView(v) => match v.packed {
            Ok(l) => list_lengths_fit(l),
            Err(_) => true,
        },
        Array::FixedSizeList(f) => f.len <= i64::MAX && lengths_fit(*f.elements),
        Array::Extension(e) => e.storage.buffer.spec_len() <= i64::MAX,
        Array::Dict(d) => d.codes.buffer.spec_len() <= i64::MAX && lengths_fit(*d.values),
        Array::Variant(n) => n <= i64::MAX,
    }
}

/// The same of a list.
pub open spec fn list_lengths_fit(l: ListArray) -> bool
    decreases l,
{
    l.offsets.spec_len() - 1 <= i64::MAX && lengths_fit(*l.elements)
}

/// The nulls counted one by one are those that the mask leaves uncounted.
proof fn nulls_are_counted(validity: &Validity, len: nat)
    ensures
        nulls_among(validity, len) == validity.null_count(len),
        nulls_among(validity, len) <= len,
        nulls_among(validity, len) == 0 ==> forall|i: int|
            0 <= i < len ==> #[trigger] validity.valid_at(i),
    decreases len,
{
    if len > 0 {
        nulls_are_counted(validity, (len - 1) as nat);
        assert(validity.entries(len).drop_last() =~= validity.entries((len - 1) as nat));
    } else {
        assert(validity.entries(len) =~= Seq::<bool>::empty());
    }
}

/// Buffers and children are what their models say.
proof fn parts_of(m: ArrowArray)
    ensures
        m.buffers@.len() == m@.buffers.len(),
        m.children@.len() == m@.children.len(),
        forall|k: int|
            0 <= k < m.buffers@.len() ==> #[trigger] m@.buffers[k]
                == buffer_model(m.buffers@[k]),
        forall|k: int| 0 <= k < m.children@.len() ==> #[trigger] m@.children[k] == m.children@[k]@,
        m.length == m@.length,
        m.null_count == m@.null_count,
        m.offset == m@.offset,
        m.release == m@.release,
        m.private_data == m@.private_data,
        match m.dictionary {
            Some(d) => m@.dictionary == Some(Box::new((*d)@)),
            None => m@.dictionary is None,
        },
{
    assert forall|k: int| 0 <= k < m.children@.len() implies #[trigger] m@.children[k]
        == m.children@[k]@ by {}
}

/// An array whose first buffer is the exported validity shows the nulls.
proof fn nulls_are_shown(validity: &Validity, len: nat, offset: nat, m: ArrowArray)
    requires
        validity.wf(len),
        len <= i64::MAX,
        offset <= i64::MAX,
        m.length == len as i64,
        m.offset == offset as i64,
        m.null_count == validity.null_count(len) as i64,
        m.buffers@.len() >= 1,
        buffer_model(m.buffers@[0]) == buffers::bytes_model(
            buffers::validity_bytes(validity, len, offset),
        ),
        m.release,
        m.private_data,
    ensures
        shows_nulls(validity, len, m),
{
    nulls_are_counted(validity, len);
    all_valid_counts_none(validity, len);
    let start = bitmap_start(validity, len, m);
    let n = crate::bits::bytes_for_bits((len + offset) as int) as nat;
    assert forall|i: int| 0 <= i < len implies #[trigger] reads_valid(m, start, i)
        == validity.valid_at(i) by {
        match validity {
            Validity::Array(bits) => {
                mixed_is_counted(validity, bits, len);
                crate::bits::all_counted_is_all_true(bits@);
                if crate::bits::count_true(bits@) == 0 {
                    crate::bits::none_counted_is_all_false(bits@);
                    crate::bits::zero_bytes_are_clear(n, offset + i);
                    assert(!bits@[i]);
                } else if crate::bits::count_true(bits@) == len {
                    assert(bits@[i]);
                }
            },
            Validity::AllInvalid => {
                crate::bits::zero_bytes_are_clear(n, offset + i);
            },
            _ => {},
        }
    }
    if let Validity::Array(bits) = validity {
        mixed_is_counted(validity, bits, len);
        crate::bits::all_counted_is_all_true(bits@);
    }
    if m.buffers@[0] is None {
        assert forall|i: int| 0 <= i < len implies #[trigger] validity.valid_at(i) by {
            assert(reads_valid(m, start, i));
        }
    }
}

/// A validity is mixed where some of its bits are counted and not all.
proof fn mixed_is_counted(validity: &Validity, bits: &crate::bits::BitBuffer, len: nat)
    requires
        *validity == Validity::Array(*bits),
        bits.len == len,
    ensures
        mixed(validity, len) <==> 0 < crate::bits::count_true(bits@) < len,
{
    crate::bits::all_counted_is_all_true(bits@);
    if crate::bits::count_true(bits@) == 0 {
        crate::bits::none_counted_is_all_false(bits@);
        assert forall|i: int| 0 <= i < len implies !#[trigger] validity.valid_at(i) by {
            assert(!bits@[i]);
        }
    } else if crate::bits::count_true(bits@) == len {
        assert forall|i: int| 0 <= i < len implies #[trigger] validity.valid_at(i) by {
            assert(bits@[i]);
        }
    } else {
        some_counted(bits@);
        let i = choose|i: int| 0 <= i < bits@.len() && bits@[i];
        let j = choose|i: int| 0 <= i < bits@.len() && !bits@[i];
        assert(validity.valid_at(i));
        assert(!validity.valid_at(j));
    }
}

/// A count above zero and below the length has an entry of either kind.
proof fn some_counted(bits: Seq<bool>)
    requires
        0 < crate::bits::count_true(bits) < bits.len(),
    ensures
        exists|i: int| 0 <= i < bits.len() && #[trigger] bits[i],
        exists|i: int| 0 <= i < bits.len() && !#[trigger] bits[i],
{
    if forall|i: int| 0 <= i < bits.len() ==> !#[trigger] bits[i] {
        crate::bits::constant_count(bits.len(), false);
        assert(bits =~= Seq::new(bits.len(), |i: int| false));
    }
    if forall|i: int| 0 <= i < bits.len() ==> #[trigger] bits[i] {
        crate::bits::constant_count(bits.len(), true);
        assert(bits =~= Seq::new(bits.len(), |i: int| true));
    }
}

/// Where every entry is valid no null is counted.
proof fn all_valid_counts_none(validity: &Validity, len: nat)
    ensures
        (forall|i: int| 0 <= i < len ==> #[trigger] validity.valid_at(i)) ==> nulls_among(
            validity,
            len,
        ) == 0,
    decreases len,
{
    if len > 0 {
        all_valid_counts_none(validity, (len - 1) as nat);
    }
}

/// What the children of a struct are exported to, one by one.
proof fn each_child(arrays: Seq<Array>)
    requires
        export_models(arrays) is Ok,
    ensures
        export_models(arrays)->Ok_0.len() == arrays.len(),
        forall|k: int|
            0 <= k < arrays.len() ==> export_model(#[trigger] arrays[k]) is Ok && export_models(
                arrays,
            )->Ok_0[k] == export_model(arrays[k])->Ok_0.0,
    decreases arrays.len(),
{
    if arrays.len() > 0 {
        each_child(arrays.drop_last());
        assert forall|k: int| 0 <= k < arrays.len() implies export_model(
            #[trigger] arrays[k],
        ) is Ok && export_models(arrays)->Ok_0[k] == export_model(arrays[k])->Ok_0.0 by {
            if k < arrays.len() - 1 {
                assert(arrays.drop_last()[k] == arrays[k]);
            }
        }
    }
}

/// The numbers of a buffer are those of its model.
proof fn numbers_are_shown(ptype: PType, numbers: Seq<int>, m: ArrowArray)
    requires
        m.buffers@.len() == 2,
        m.offset == 0,
        buffer_model(m.buffers@[1]) == Some(BufferModel::Values(ptype, numbers)),
    ensures
        shows_numbers(ptype, numbers, m),
{
    let v = m.buffers@[1]->Some_0->Values_0;
    assert forall|i: int| 0 <= i < numbers.len() implies #[trigger] v.int_at(i) == numbers[i] by {
        assert(v.ints()[i] == numbers[i]);
    }
}

/// The offsets of a buffer are those of its model.
proof fn offsets_are_shown(offsets: Seq<int>, m: ArrowArray)
    requires
        m.buffers@.len() == 2,
        m.children@.len() == 1,
        m.offset == 0,
        buffer_model(m.buffers@[1]) == Some(BufferModel::Offsets(offsets)),
    ensures
        shows_offsets(offsets, m),
{
    let o = m.buffers@[1]->Some_0->Offsets_0;
    assert(offsets == Seq::new(o@.len(), |i: int| o@[i] as int));
    assert forall|i: int| 0 <= i < offsets.len() implies #[trigger] o@[i] == offsets[i] by {
        assert(Seq::new(o@.len(), |i: int| o@[i] as int)[i] == o@[i]);
    }
}

/// Exported strings are shown.
proof fn strings_are_shown(a: VarBinViewArray, m: ArrowArray)
    requires
        a.validity.wf(a.views@.len()),
        a.views@.len() <= i64::MAX,
        views_model(a) matches Ok(out) && m@ == out.0,
    ensures
        shows_nulls(&a.validity, a.views@.len(), m),
        shows_strings(a, m),
        m.children@.len() == 0,
        m.dictionary is None,
{
    parts_of(m);
    let n = m.buffers@.len();
    let k0 = a.buffers@.len();
    let all = m@.buffers;
    assert(n == k0 + 3);
    assert(all[0] == buffer_model(m.buffers@[0]));
    nulls_are_shown(&a.validity, a.views@.len(), 0, m);
    assert(all[1] == Some(BufferModel::Views(a.views@)));
    assert(all[1] == buffer_model(m.buffers@[1]));
    assert forall|k: int| 0 <= k < k0 implies #[trigger] read_data(m)[k] == a.buffers@[k]@
        && m.buffers@[k + 2] is Some by {
        assert(all[k + 2] == Some(BufferModel::Bytes(a.buffers@[k]@)));
        assert(all[k + 2] == buffer_model(m.buffers@[k + 2]));
    }
    assert forall|k: int| 0 <= k < n - 3 implies (#[trigger] m.buffers@[k + 2]) is Some by {
        assert(read_data(m)[k] == a.buffers@[k]@);
    }
    assert(read_data(m) =~= data_buffers(a.buffers@));
    assert(all[n - 1] == Some(BufferModel::Sizes(buffer_sizes(a.buffers@))));
    assert(all[n - 1] == buffer_model(m.buffers@[n - 1]));
    let s = m.buffers@[n - 1]->Some_0->Sizes_0;
    assert(buffer_sizes(a.buffers@) == Seq::new(s@.len(), |i: int| s@[i] as int));
    assert forall|k: int| 0 <= k < n - 3 implies #[trigger] s@[k] == read_data(m)[k].len() by {
        assert(Seq::new(s@.len(), |i: int| s@[i] as int)[k] == s@[k]);
        assert(read_data(m)[k] == a.buffers@[k]@);
    }
}

/// Exported binary values are shown.
proof fn binary_is_shown(a: VarBinViewArray, m: ArrowArray)
    requires
        a.validity.wf(a.views@.len()),
        a.views@.len() <= i64::MAX,
        binary_model(a) matches Ok(out) && m@ == out.0,
    ensures
        shows_nulls_from(&a.validity, a.views@.len(), m, 0),
        shows_binary(a, m),
        m.children@.len() == 0,
        m.dictionary is None,
{
    parts_of(m);
    let len = a.views@.len();
    let valid = a.validity.entries(len);
    let data = data_buffers(a.buffers@);
    let all = m@.buffers;
    assert(all[0] == buffer_model(m.buffers@[0]));
    assert(all[1] == buffer_model(m.buffers@[1]));
    assert(all[2] == buffer_model(m.buffers@[2]));
    nulls_are_counted(&a.validity, len);
    all_valid_counts_none(&a.validity, len);
    binary::bitmap_is_validity(&a.validity, len);
    let rows = binary::bitmap_rows(buffers::binary_validity_bytes(&a.validity, len), len);
    assert forall|i: int| 0 <= i < len implies #[trigger] reads_valid(m, 0, i)
        == a.validity.valid_at(i) by {
        assert(rows[i] == valid[i]);
    }
    if m.buffers@[0] is None {
        assert forall|i: int| 0 <= i < len implies #[trigger] a.validity.valid_at(i) by {
            assert(reads_valid(m, 0, i));
        }
    }
    let o = m.buffers@[1]->Some_0->Offsets_0;
    let values = m.buffers@[2]->Some_0->Bytes_0;
    let offsets = binary::row_offsets(a.views@, valid);
    assert(offsets == Seq::new(o@.len(), |i: int| o@[i] as int));
    assert(offsets.len() == len + 1);
    assert(o@.len() == len + 1);
    assert forall|i: int| 0 <= i <= len implies #[trigger] o@[i] == binary::row_offset(
        a.views@,
        valid,
        i as nat,
    ) by {
        assert(offsets[i] == o@[i]);
    }
    assert forall|j: int| 0 <= j < len implies !#[trigger] binary::row_broken(
        a.views@,
        valid,
        data,
        j,
    ) by {}
    assert forall|i: int| 0 <= i < len implies {
        &&& 0 <= #[trigger] o@[i] <= o@[i + 1] <= values@.len()
        &&& if a.validity.valid_at(i) {
            values@.subrange(o@[i] as int, o@[i + 1] as int) == a.views@[i].value(data)
        } else {
            o@[i] == o@[i + 1]
        }
    } by {
        binary::exported_row_is_found(a.views@, valid, data, i);
        assert(valid[i] == a.validity.valid_at(i));
        assert(o@[i + 1] == binary::row_offset(a.views@, valid, (i + 1) as nat));
    }
    binary::gathered_len(a.views@, valid, data, len);
    assert(o@[len as int] == values@.len());
    assert(o@[0] == 0);
}

/// An exported list shows the list.
proof fn list_is_shown(l: ListArray, m: ArrowArray)
    requires
        l.shape_wf(),
        l.elements.wf(),
        list_lengths_fit(l),
        list_model(l) matches Ok(out) && m@ == out.0,
    ensures
        shows_list(l, m),
    decreases l,
{
    parts_of(m);
    assert(m@.buffers[0] == buffer_model(m.buffers@[0]));
    assert(m@.buffers[1] == buffer_model(m.buffers@[1]));
    nulls_are_shown(&l.validity, l.spec_len(), 0, m);
    offsets_are_shown(l.offsets.ints(), m);
    assert(m@.children[0] == m.children@[0]@);
    export_is_shown(*l.elements, m.children@[0]);
}

/// An exported array shows the array.
#[verifier::rlimit(40)]
proof fn export_is_shown(a: Array, m: ArrowArray)
    requires
        a.wf(),
        lengths_fit(a),
        export_model(a) matches Ok(out) && m@ == out.0,
    ensures
        shows(a, m),
    decreases a,
{
    parts_of(m);
    let all = m@.buffers;
    match a {
        Array::Null(n) => {},
        Array::Bool(b) => {
            assert(all[0] == buffer_model(m.buffers@[0]));
            assert(all[1] == buffer_model(m.buffers@[1]));
            nulls_are_shown(&b.validity, b.bits.len as nat, b.bits.offset as nat, m);
        },
        Array::Primitive(p) => {
            assert(all[0] == buffer_model(m.buffers@[0]));
            assert(all[1] == buffer_model(m.buffers@[1]));
            nulls_are_shown(&p.validity, p.buffer.spec_len(), 0, m);
            numbers_are_shown(p.buffer.spec_ptype(), p.buffer.ints(), m);
        },
        Array::Extension(e) => {
            assert(all[0] == buffer_model(m.buffers@[0]));
            assert(all[1] == buffer_model(m.buffers@[1]));
            nulls_are_shown(&e.storage.validity, e.storage.buffer.spec_len(), 0, m);
            numbers_are_shown(e.storage.buffer.spec_ptype(), e.storage.buffer.ints(), m);
        },
        Array::Decimal(d) => {
            assert(all[0] == buffer_model(m.buffers@[0]));
            assert(all[1] == buffer_model(m.buffers@[1]));
            nulls_are_shown(&d.validity, d.buffer@.len(), 0, m);
            arrow_decimal_is_narrowest(d.decimal_dtype.precision);
        },
        Array::VarBinView(v) => {
            if v.binary {
                binary_is_shown(v, m);
            } else {
                strings_are_shown(v, m);
            }
        },
        Array::Struct(s) => {
            assert(all[0] == buffer_model(m.buffers@[0]));
            nulls_are_shown(&s.validity, s.len as nat, 0, m);
            each_child(s.fields@);
            assert forall|k: int| 0 <= k < s.fields@.len() implies shows(
                #[trigger] s.fields@[k],
                m.children@[k],
            ) by {
                assert(m@.children[k] == m.children@[k]@);
                export_is_shown(s.fields@[k], m.children@[k]);
            }
        },
        Array::List(l) => {
            list_is_shown(l, m);
        },
        Array::ListView(v) => {
            if v.device_export is Err {
                list_is_shown(v.packed->Ok_0, m);
            }
        },
        Array::FixedSizeList(f) => {
            assert(all[0] == buffer_model(m.buffers@[0]));
            assert(all[1] == buffer_model(m.buffers@[1]));
            nulls_are_shown(&f.validity, f.len as nat, 0, m);
            let offsets = Seq::new((f.len + 1) as nat, |i: int| i * f.list_size);
            assert(offsets =~= buffers::fixed_offsets(f.len as nat, f.list_size as int));
            offsets_are_shown(offsets, m);
            assert(m@.children[0] == m.children@[0]@);
            export_is_shown(*f.elements, m.children@[0]);
        },
        Array::Dict(d) => {
            assert(all[0] == buffer_model(m.buffers@[0]));
            assert(all[1] == buffer_model(m.buffers@[1]));
            nulls_are_shown(&d.codes.validity, d.codes.buffer.spec_len(), 0, m);
            let ptype = buffers::exported_codes_ptype(d.codes.buffer.spec_ptype());
            numbers_are_shown(ptype, d.codes.buffer.ints(), m);
            export_is_shown(*d.values, *m.dictionary->Some_0);
        },
        Array::Variant(_) => {},
    }
}

/// The total size of the valid values among the first `n`.
pub open spec fn valid_bytes(a: VarBinViewArray, n: nat) -> int
    decreases n,
{
    if n == 0 {
        0
    } else {
        valid_bytes(a, (n - 1) as nat) + if a.validity.valid_at(n - 1) {
            a.views@[n - 1].size as int
        } else {
            0
        }
    }
}

/// Whether Arrow can hold a list: its offsets are 32-bit integers, and it can hold the elements.
pub open spec fn list_exportable(l: ListArray) -> bool
    decreases l,
{
    &&& forall|i: int|
        0 <= i < l.offsets.spec_len() ==> i32::MIN <= #[trigger] l.offsets.int_at(i) <= i32::MAX
    &&& exportable(*l.elements)
}

/// Whether Arrow can hold an array: offsets of lists and binary values are 32-bit integers, every
/// valid binary value lies in a data buffer, codes are signed integers, decimals need no narrowing,
/// and extensions are temporal.
pub open spec fn exportable(a: Array) -> bool
    decreases a,
{
    match a {
        Array::Null(_) => true,
        Array::Bool(_) => true,
        Array::Primitive(_) => true,
        Array::Extension(e) => e.temporal,
        Array::Decimal(d) => match d.buffer {
            crate::decimal::DecimalBuffer::I64(_) => !holds_digits(
                d.decimal_dtype.precision,
                i32::MAX as int,
            ),
            crate::decimal::DecimalBuffer::I128(_) => !holds_digits(
                d.decimal_dtype.precision,
                i64::MAX as int,
            ),
            crate::decimal::DecimalBuffer::I256(_) => !holds_digits(
                d.decimal_dtype.precision,
                i128::MAX as int,
            ),
            _ => true,
        },
        Array::VarBinView(v) => if v.binary {
            &&& valid_bytes(v, v.views@.len()) <= i32::MAX
            &&& forall|i: int|
                0 <= i < v.views@.len() && v.validity.valid_at(i) && (#[trigger] v.views@[i]).size
                    > 12 ==> v.views@[i].in_buffers(data_buffers(v.buffers@))
        } else {
            forall|k: int|
                0 <= k < v.buffers@.len() ==> (#[trigger] v.buffers@[k])@.len() <= i64::MAX
        },
        Array::Struct(s) => forall|k: int|
            0 <= k < s.fields@.len() ==> exportable(#[trigger] s.fields@[k]),
        Array::List(l) => list_exportable(l),
        Array::ListView(v) => match v.device_export {
            Ok(_) => true,
            Err(_) => v.is_host && match v.packed {
                Ok(l) => list_exportable(l),
                Err(_) => false,
            },
        },
        Array::FixedSizeList(f) => {
            &&& f.list_size <= i32::MAX
            &&& f.len <= i32::MAX
            &&& f.len * f.list_size <= i32::MAX
            &&& exportable(*f.elements)
        },
        Array::Dict(d) => {
            &&& forall|i: int|
                0 <= i < d.codes.buffer.spec_len() ==> #[trigger] d.codes.buffer.int_at(i)
                    <= i64::MAX
            &&& exportable(*d.values)
        },
        Array::Variant(_) => false,
    }
}

/// Several arrays are exported if and only if each is.
proof fn all_exported(arrays: Seq<Array>)
    ensures
        export_models(arrays) is Ok <==> forall|k: int|
            0 <= k < arrays.len() ==> export_model(#[trigger] arrays[k]) is Ok,
    decreases arrays.len(),
{
    if arrays.len() > 0 {
        let before = arrays.drop_last();
        all_exported(before);
        if export_models(arrays) is Ok {
            each_child(arrays);
        } else if export_models(before) is Err {
            let k = choose|k: int|
                0 <= k < before.len() && !(export_model(#[trigger] before[k]) is Ok);
            assert(arrays[k] == before[k]);
        } else {
            assert(arrays[arrays.len() - 1] == arrays.last());
        }
    }
}

/// The total size of valid values is the last of the offsets.
proof fn valid_bytes_is_last_offset(a: VarBinViewArray, n: nat)
    requires
        n <= a.views@.len(),
    ensures
        valid_bytes(a, n) == binary::row_offset(
            a.views@,
            a.validity.entries(a.views@.len()),
            n,
        ),
    decreases n,
{
    if n > 0 {
        valid_bytes_is_last_offset(a, (n - 1) as nat);
    }
}

/// A list is exported if and only if Arrow can hold it.
proof fn list_export_is_decided(l: ListArray)
    requires
        l.shape_wf(),
        l.elements.wf(),
        list_lengths_fit(l),
    ensures
        list_model(l) is Ok <==> list_exportable(l),
    decreases l,
{
    nulls_are_counted(&l.validity, l.spec_len());
    assert(forall|i: int|
        0 <= i < l.offsets.spec_len() ==> #[trigger] l.offsets.int_at(i) == l.offsets.ints()[i]);
    assert(buffers::all_i32(l.offsets.ints()) <==> forall|i: int|
        0 <= i < l.offsets.spec_len() ==> i32::MIN <= #[trigger] l.offsets.int_at(i) <= i32::MAX)
        by {
        if buffers::all_i32(l.offsets.ints()) {
            assert forall|i: int| 0 <= i < l.offsets.spec_len() implies i32::MIN
                <= #[trigger] l.offsets.int_at(i) <= i32::MAX by {
                assert(i32::MIN <= l.offsets.ints()[i] <= i32::MAX);
            }
        }
    }
    export_is_decided(*l.elements);
}

/// An array is exported if and only if Arrow can hold it.
#[verifier::rlimit(40)]
proof fn export_is_decided(a: Array)
    requires
        a.wf(),
        lengths_fit(a),
    ensures
        export_model(a) is Ok <==> exportable(a),
    decreases a,
{
    match a {
        Array::Bool(b) => {
            nulls_are_counted(&b.validity, b.bits.len as nat);
        },
        Array::Primitive(p) => {
            nulls_are_counted(&p.validity, p.buffer.spec_len());
        },
        Array::Extension(e) => {
            nulls_are_counted(&e.storage.validity, e.storage.buffer.spec_len());
        },
        Array::Decimal(d) => {
            nulls_are_counted(&d.validity, d.buffer@.len());
            arrow_decimal_is_narrowest(d.decimal_dtype.precision);
        },
        Array::VarBinView(v) => {
            let len = v.views@.len();
            let valid = v.validity.entries(len);
            let data = data_buffers(v.buffers@);
            nulls_are_counted(&v.validity, len);
            valid_bytes_is_last_offset(v, len);
            if v.binary {
                if exportable(a) {
                    assert forall|i: int| 0 <= i < len implies !#[trigger] binary::row_broken(
                        v.views@,
                        valid,
                        data,
                        i,
                    ) by {
                        assert(v.views@[i].size > 12 ==> !v.validity.valid_at(i)
                            || v.views@[i].in_buffers(data));
                    }
                } else if valid_bytes(v, len) <= i32::MAX {
                    let i = choose|i: int|
                        0 <= i < v.views@.len() && v.validity.valid_at(i)
                            && (#[trigger] v.views@[i]).size > 12 && !v.views@[i].in_buffers(data);
                    assert(binary::row_broken(v.views@, valid, data, i));
                }
            }
        },
        Array::Struct(s) => {
            nulls_are_counted(&s.validity, s.len as nat);
            all_exported(s.fields@);
            assert forall|k: int| 0 <= k < s.fields@.len() implies export_model(
                #[trigger] s.fields@[k],
            ) is Ok <==> exportable(s.fields@[k]) by {
                export_is_decided(s.fields@[k]);
            }
        },
        Array::List(l) => {
            list_export_is_decided(l);
        },
        Array::ListView(v) => {
            if v.packed is Ok {
                list_export_is_decided(v.packed->Ok_0);
            }
        },
        Array::FixedSizeList(f) => {
            nulls_are_counted(&f.validity, f.len as nat);
            export_is_decided(*f.elements);
        },
        Array::Dict(d) => {
            nulls_are_counted(&d.codes.validity, d.codes.buffer.spec_len());
            export_is_decided(*d.values);
        },
        _ => {},
    }
}

/// A reader of an exported array finds every row of the array, at every level of the tree: row `i`
/// is null exactly where the array says so, and holds the value that the array holds. Without a
/// null bitmap no row is null. A consumer of anything but nulls waits for the device.
pub proof fn exported_rows_are_read_back(a: Array, r: VortexResult<Exported>)
    requires
        a.wf(),
        lengths_fit(a),
        is_export(r, export_model(a)),
    ensures
        r matches Ok(out) ==> shows(a, out.array) && match a {
            Array::Null(_) => out.sync_event is Null,
            Array::ListView(ListViewArray { device_export: Ok(e), .. }) => out.sync_event
                == e.sync_event,
            _ => out.sync_event is Recorded,
        },
{
    reveal_with_fuel(export_model, 2);
    if let Ok(out) = r {
        export_is_shown(a, out.array);
    }
}

/// Export succeeds on exactly the arrays that Arrow can hold.
pub proof fn export_succeeds_on_exportable(a: Array, r: VortexResult<Exported>)
    requires
        a.wf(),
        lengths_fit(a),
        is_export(r, export_model(a)),
    ensures
        r is Ok <==> exportable(a),
{
    export_is_decided(a);
}

/// Where the bytes of a mixed validity start at the bit at which the exported rows start, a reader
/// finds row `i` at bit `offset + i` of the null bitmap, whatever the validity.
pub proof fn aligned_rows_are_read_in_place(validity: &Validity, len: nat, m: ArrowArray, i: int)
    requires
        shows_nulls(validity, len, m),
        validity matches Validity::Array(bits) ==> bits.offset == m.offset,
        0 <= i < len,
    ensures
        match m.buffers@[0] {
            Some(ArrowBuffer::Bytes(bytes)) => bit_at(bytes@, m.offset + i) == validity.valid_at(i),
            Some(_) => false,
            None => validity.valid_at(i),
        },
        !validity.valid_at(i) ==> m.buffers@[0] is Some && m.null_count > 0,
{
    assert(reads_valid(m, bitmap_start(validity, len, m), i) == validity.valid_at(i));
    nulls_are_counted(validity, len);
}

/// The error that an export of a list owes, if it owes one: to offsets beyond 32 bits, else to its
/// elements.
pub open spec fn list_owes(l: ListArray) -> Option<VortexError>
    decreases l,
{
    if exists|i: int|
        0 <= i < l.offsets.spec_len() && !(i32::MIN <= #[trigger] l.offsets.int_at(i) <= i32::MAX) {
        Some(VortexError::ValueCast)
    } else {
        owes(*l.elements)
    }
}

/// The error of the first of several arrays that owes one.
pub open spec fn first_owes(arrays: Seq<Array>) -> Option<VortexError>
    decreases arrays,
{
    if arrays.len() == 0 {
        None
    } else {
        match first_owes(arrays.drop_last()) {
            Some(e) => Some(e),
            None => owes(arrays.last()),
        }
    }
}

/// The error that an export owes, if it owes one.
pub open spec fn owes(a: Array) -> Option<VortexError>
    decreases a,
{
    match a {
        Array::Null(_) => None,
        Array::Bool(_) => None,
        Array::Primitive(_) => None,
        Array::Extension(e) => if e.temporal {
            None
        } else {
            Some(VortexError::NotTemporal)
        },
        Array::Decimal(d) => if exportable(a) {
            None
        } else {
            Some(
                VortexError::DecimalExportNarrowing {
                    from_type: d.buffer.spec_values_type(),
                    to_type: if holds_digits(d.decimal_dtype.precision, i32::MAX as int) {
                        DecimalType::I32
                    } else if holds_digits(d.decimal_dtype.precision, i64::MAX as int) {
                        DecimalType::I64
                    } else {
                        DecimalType::I128
                    },
                },
            )
        },
        Array::VarBinView(v) => if exportable(a) {
            None
        } else if !v.binary {
            Some(VortexError::TryFromInt)
        } else if valid_bytes(v, v.views@.len()) > i32::MAX {
            Some(VortexError::BinaryOffsetsOverflow)
        } else {
            Some(VortexError::InvalidViewBuffer)
        },
        Array::Struct(s) => first_owes(s.fields@),
        Array::List(l) => list_owes(l),
        Array::ListView(v) => match v.device_export {
            Ok(_) => None,
            Err(e) => if !v.is_host {
                Some(e)
            } else {
                match v.packed {
                    Ok(l) => list_owes(l),
                    Err(e) => Some(e),
                }
            },
        },
        Array::FixedSizeList(f) => if f.list_size > i32::MAX {
            Some(VortexError::FixedListSizeOverflow { list_size: f.list_size })
        } else if f.len > i32::MAX {
            Some(VortexError::TryFromInt)
        } else if f.len * f.list_size > i32::MAX {
            Some(VortexError::FixedListOffsetsOverflow)
        } else {
            owes(*f.elements)
        },
        Array::Dict(d) => if exists|i: int|
            0 <= i < d.codes.buffer.spec_len() && #[trigger] d.codes.buffer.int_at(i) > i64::MAX {
            Some(VortexError::ValueCast)
        } else {
            owes(*d.values)
        },
        Array::Variant(_) => Some(VortexError::UnsupportedExport),
    }
}

/// Whether an export gives the error that is owed, and none where none is.
spec fn gives_what_it_owes(model: Result<(ArrowModel, SyncEvent), VortexError>, owed: Option<
    VortexError,
>) -> bool {
    match model {
        Ok(_) => owed is None,
        Err(e) => owed == Some(e),
    }
}

/// Several arrays give the error that the first of them owes.
proof fn first_error_is_owed(arrays: Seq<Array>)
    requires
        forall|k: int|
            0 <= k < arrays.len() ==> gives_what_it_owes(
                export_model(#[trigger] arrays[k]),
                owes(arrays[k]),
            ),
    ensures
        match export_models(arrays) {
            Ok(_) => first_owes(arrays) is None,
            Err(e) => first_owes(arrays) == Some(e),
        },
    decreases arrays.len(),
{
    if arrays.len() > 0 {
        let before = arrays.drop_last();
        assert forall|k: int| 0 <= k < before.len() implies gives_what_it_owes(
            export_model(#[trigger] before[k]),
            owes(before[k]),
        ) by {
            assert(before[k] == arrays[k]);
        }
        first_error_is_owed(before);
        assert(arrays[arrays.len() - 1] == arrays.last());
    }
}

/// A list gives the error that it owes.
proof fn list_error_is_owed(l: ListArray)
    requires
        l.shape_wf(),
        l.elements.wf(),
        list_lengths_fit(l),
    ensures
        gives_what_it_owes(list_model(l), list_owes(l)),
    decreases l,
{
    nulls_are_counted(&l.validity, l.spec_len());
    error_is_owed(*l.elements);
    if buffers::all_i32(l.offsets.ints()) {
        assert forall|i: int| 0 <= i < l.offsets.spec_len() implies i32::MIN
            <= #[trigger] l.offsets.int_at(i) <= i32::MAX by {
            assert(i32::MIN <= l.offsets.ints()[i] <= i32::MAX);
        }
    } else {
        let i = choose|i: int|
            0 <= i < l.offsets.ints().len() && !(i32::MIN <= #[trigger] l.offsets.ints()[i]
                <= i32::MAX);
        assert(!(i32::MIN <= l.offsets.int_at(i) <= i32::MAX));
    }
}

/// An array gives the error that it owes.
#[verifier::rlimit(40)]
proof fn error_is_owed(a: Array)
    requires
        a.wf(),
        lengths_fit(a),
    ensures
        gives_what_it_owes(export_model(a), owes(a)),
    decreases a,
{
    export_is_decided(a);
    match a {
        Array::Extension(e) => {
            nulls_are_counted(&e.storage.validity, e.storage.buffer.spec_len());
        },
        Array::Decimal(d) => {
            nulls_are_counted(&d.validity, d.buffer@.len());
            arrow_decimal_is_narrowest(d.decimal_dtype.precision);
        },
        Array::VarBinView(v) => {
            nulls_are_counted(&v.validity, v.views@.len());
            valid_bytes_is_last_offset(v, v.views@.len());
        },
        Array::Struct(s) => {
            nulls_are_counted(&s.validity, s.len as nat);
            assert forall|k: int| 0 <= k < s.fields@.len() implies gives_what_it_owes(
                export_model(#[trigger] s.fields@[k]),
                owes(s.fields@[k]),
            ) by {
                error_is_owed(s.fields@[k]);
            }
            first_error_is_owed(s.fields@);
        },
        Array::List(l) => {
            list_error_is_owed(l);
        },
        Array::ListView(v) => {
            if v.packed is Ok {
                list_error_is_owed(v.packed->Ok_0);
            }
        },
        Array::FixedSizeList(f) => {
            nulls_are_counted(&f.validity, f.len as nat);
            error_is_owed(*f.elements);
        },
        Array::Dict(d) => {
            nulls_are_counted(&d.codes.validity, d.codes.buffer.spec_len());
            error_is_owed(*d.values);
        },
        _ => {},
    }
}

/// An export that is refused names what Arrow cannot hold, the first on the way through the tree:
/// parents before children, fields in order.
pub proof fn refused_exports_name_the_reason(a: Array, r: VortexResult<Exported>)
    requires
        a.wf(),
        lengths_fit(a),
        is_export(r, export_model(a)),
    ensures
        match r {
            Ok(_) => owes(a) is None,
            Err(e) => owes(a) == Some(e),
        },
{
    error_is_owed(a);
}

} // verus!
