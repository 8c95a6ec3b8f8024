//! Binary views as Arrow `Binary`: 32-bit offsets and one contiguous buffer of values.
use vstd::prelude::*;

use crate::arrow::array::{data_buffers, BinaryView, MAX_INLINED_SIZE};
use crate::bits::read_bit;
use crate::error::{VortexError, VortexResult};
use crate::validity::Validity;

verus! {

/// The status of an export that went well.
pub const STATUS_OK: u32 = 0;

/// The status of an export in which a view refers to bytes that do not exist.
pub const STATUS_INVALID_BUFFER: u32 = 1;

/// The status of an export whose offsets exceed 32 bits.
pub const STATUS_OFFSET_OVERFLOW: u32 = 2;

/// The error that a status stands for, if any.
pub open spec fn status_error(status: u32) -> Option<VortexError> {
    if status == STATUS_OK {
        None
    } else if status == STATUS_INVALID_BUFFER {
        Some(VortexError::InvalidViewBuffer)
    } else if status == STATUS_OFFSET_OVERFLOW {
        Some(VortexError::BinaryOffsetsOverflow)
    } else {
        Some(VortexError::UnexpectedBinaryStatus { status })
    }
}

/// Turns a status into the error that it stands for.
pub fn check_binary_status(status: u32) -> (r: VortexResult<()>)
    ensures
        match r {
            Ok(_) => status_error(status) is None,
            Err(e) => status_error(status) == Some(e),
        },
{
    if status == STATUS_OK {
        Ok(())
    } else if status == STATUS_INVALID_BUFFER {
        Err(VortexError::InvalidViewBuffer)
    } else if status == STATUS_OFFSET_OVERFLOW {
        Err(VortexError::BinaryOffsetsOverflow)
    } else {
        Err(VortexError::UnexpectedBinaryStatus { status })
    }
}

/// The value of row `i`, empty for a null.
pub open spec fn row_value(
    views: Seq<BinaryView>,
    valid: Seq<bool>,
    buffers: Seq<Seq<u8>>,
    i: int,
) -> Seq<u8> {
    if valid[i] {
        views[i].value(buffers)
    } else {
        Seq::empty()
    }
}

/// The offset of row `n`: the total size of the valid rows before it.
pub open spec fn row_offset(views: Seq<BinaryView>, valid: Seq<bool>, n: nat) -> int
    decreases n,
{
    if n == 0 {
        0
    } else {
        row_offset(views, valid, (n - 1) as nat) + if valid[n - 1] {
            views[n - 1].size as int
        } else {
            0
        }
    }
}

/// The values of the first `n` rows, one after the other.
pub open spec fn gathered(
    views: Seq<BinaryView>,
    valid: Seq<bool>,
    buffers: Seq<Seq<u8>>,
    n: nat,
) -> Seq<u8>
    decreases n,
{
    if n == 0 {
        Seq::empty()
    } else {
        gathered(views, valid, buffers, (n - 1) as nat) + row_value(
            views,
            valid,
            buffers,
            n - 1,
        )
    }
}

/// Whether row `i` is valid and refers to bytes that do not exist.
pub open spec fn row_broken(
    views: Seq<BinaryView>,
    valid: Seq<bool>,
    buffers: Seq<Seq<u8>>,
    i: int,
) -> bool {
    valid[i] && !views[i].inlined() && !views[i].in_buffers(buffers)
}

/// Why binary rows cannot be exported, if they cannot. Offsets come before buffers.
pub open spec fn binary_error(
    views: Seq<BinaryView>,
    valid: Seq<bool>,
    buffers: Seq<Seq<u8>>,
) -> Option<VortexError> {
    if row_offset(views, valid, views.len()) > i32::MAX {
        Some(VortexError::BinaryOffsetsOverflow)
    } else if exists|i: int| 0 <= i < views.len() && #[trigger] row_broken(views, valid, buffers, i) {
        Some(VortexError::InvalidViewBuffer)
    } else {
        None
    }
}

/// The offsets of all rows and the end of the last.
pub open spec fn row_offsets(views: Seq<BinaryView>, valid: Seq<bool>) -> Seq<int> {
    Seq::new(views.len() + 1, |i: int| row_offset(views, valid, i as nat))
}

/// Offsets never decrease.
pub proof fn row_offset_grows(views: Seq<BinaryView>, valid: Seq<bool>, a: nat, b: nat)
    requires
        a <= b,
    ensures
        0 <= row_offset(views, valid, a) <= row_offset(views, valid, b),
    decreases b,
{
    if a < b {
        row_offset_grows(views, valid, a, (b - 1) as nat);
    } else if b > 0 {
        row_offset_grows(views, valid, (a - 1) as nat, (b - 1) as nat);
    }
}

/// The bitmap of the rows, read as one boolean per row; without a bitmap every row is valid.
pub open spec fn bitmap_rows(bitmap: Option<Seq<u8>>, len: nat) -> Seq<bool> {
    Seq::new(
        len,
        |i: int|
            match bitmap {
                Some(bytes) => crate::bits::bit_at(bytes, i),
                None => true,
            },
    )
}

/// A bitmap as a sequence of bytes.
pub open spec fn bitmap_view(bitmap: Option<&Vec<u8>>) -> Option<Seq<u8>> {
    match bitmap {
        Some(b) => Some(b@),
        None => None,
    }
}

/// The bitmap has a bit for every row.
pub open spec fn bitmap_covers(bitmap: Option<&Vec<u8>>, len: nat) -> bool {
    bitmap matches Some(b) ==> len <= b@.len() * 8
}

/// Whether row `i` is valid.
fn row_valid(bitmap: Option<&Vec<u8>>, i: usize, len: Ghost<nat>) -> (b: bool)
    requires
        bitmap_covers(bitmap, len@),
        i < len@,
    ensures
        b == bitmap_rows(bitmap_view(bitmap), len@)[i as int],
{
    match bitmap {
        Some(bytes) => read_bit(bytes.as_slice(), i),
        None => true,
    }
}

/// The 32-bit offsets of the rows, and a status: an overflow stops the scan.
pub fn binary_offsets(views: &Vec<BinaryView>, bitmap: Option<&Vec<u8>>) -> (r: (Vec<i32>, u32))
    requires
        bitmap_covers(bitmap, views@.len()),
    ensures
        ({
            let valid = bitmap_rows(bitmap_view(bitmap), views@.len());
            &&& r.1 == STATUS_OK || r.1 == STATUS_OFFSET_OVERFLOW
            &&& r.1 == STATUS_OK <==> row_offset(views@, valid, views@.len()) <= i32::MAX
            &&& r.1 == STATUS_OK ==> crate::arrow::buffers::offset_ints(r.0@) == row_offsets(
                views@,
                valid,
            )
        }),
{
    let ghost valid = bitmap_rows(bitmap_view(bitmap), views@.len());
    let mut offsets: Vec<i32> = Vec::new();
    offsets.push(0);
    let mut total: i32 = 0;
    let mut i: usize = 0;
    while i < views.len()
        invariant
            valid == bitmap_rows(bitmap_view(bitmap), views@.len()),
            bitmap_covers(bitmap, views@.len()),
            i <= views@.len(),
            0 <= total,
            total == row_offset(views@, valid, i as nat),
            offsets@.len() == i + 1,
            forall|j: int| 0 <= j <= i ==> #[trigger] offsets@[j] == row_offset(views@, valid, j as nat),
        decreases views@.len() - i,
    {
        let size: u32 = if row_valid(bitmap, i, Ghost(views@.len())) {
            views[i].size
        } else {
            0
        };
        let next: i64 = total as i64 + size as i64;
        assert(next == row_offset(views@, valid, (i + 1) as nat));
        if next > 0x7fff_ffff {
            proof {
                row_offset_grows(views@, valid, (i + 1) as nat, views@.len());
            }
            return (offsets, STATUS_OFFSET_OVERFLOW);
        }
        total = next as i32;
        offsets.push(total);
        i = i + 1;
    }
    assert(crate::arrow::buffers::offset_ints(offsets@) =~= row_offsets(views@, valid));
    (offsets, STATUS_OK)
}

/// The values of all valid rows, one after the other, and a status: a view that refers to bytes
/// that do not exist stops the gathering.
pub fn gather_binary_values(
    views: &Vec<BinaryView>,
    bitmap: Option<&Vec<u8>>,
    buffers: &Vec<Vec<u8>>,
) -> (r: (Vec<u8>, u32))
    requires
        bitmap_covers(bitmap, views@.len()),
    ensures
        ({
            let valid = bitmap_rows(bitmap_view(bitmap), views@.len());
            let data = data_buffers(buffers@);
            &&& r.1 == STATUS_OK || r.1 == STATUS_INVALID_BUFFER
            &&& r.1 == STATUS_INVALID_BUFFER <==> exists|i: int|
                0 <= i < views@.len() && #[trigger] row_broken(views@, valid, data, i)
            &&& r.1 == STATUS_OK ==> r.0@ == gathered(views@, valid, data, views@.len())
        }),
{
    let ghost valid = bitmap_rows(bitmap_view(bitmap), views@.len());
    let ghost data = data_buffers(buffers@);
    let mut values: Vec<u8> = Vec::new();
    let mut i: usize = 0;
    while i < views.len()
        invariant
            valid == bitmap_rows(bitmap_view(bitmap), views@.len()),
            data == data_buffers(buffers@),
            bitmap_covers(bitmap, views@.len()),
            i <= views@.len(),
            values@ == gathered(views@, valid, data, i as nat),
            forall|j: int| 0 <= j < i ==> !#[trigger] row_broken(views@, valid, data, j),
        decreases views@.len() - i,
    {
        if row_valid(bitmap, i, Ghost(views@.len())) {
            let view: BinaryView = views[i];
            if view.size > MAX_INLINED_SIZE && !view.is_in_buffers(buffers) {
                assert(row_broken(views@, valid, data, i as int));
                return (values, STATUS_INVALID_BUFFER);
            }
            let mut bytes: Vec<u8> = view.bytes(buffers);
            values.append(&mut bytes);
        }
        assert(values@ =~= gathered(views@, valid, data, (i + 1) as nat));
        i = i + 1;
    }
    (values, STATUS_OK)
}

/// The offsets and values of binary rows. With no rows nothing is looked at.
pub fn export_binary_buffers(
    views: &Vec<BinaryView>,
    buffers: &Vec<Vec<u8>>,
    bitmap: Option<&Vec<u8>>,
) -> (r: VortexResult<(Vec<i32>, Vec<u8>)>)
    requires
        bitmap_covers(bitmap, views@.len()),
    ensures
        ({
            let valid = bitmap_rows(bitmap_view(bitmap), views@.len());
            let data = data_buffers(buffers@);
            match r {
                Ok(out) => {
                    &&& binary_error(views@, valid, data) is None
                    &&& crate::arrow::buffers::offset_ints(out.0@) == row_offsets(views@, valid)
                    &&& out.1@ == gathered(views@, valid, data, views@.len())
                },
                Err(e) => binary_error(views@, valid, data) == Some(e),
            }
        }),
{
    let scanned = binary_offsets(views, bitmap);
    match check_binary_status(scanned.1) {
        Ok(_) => {},
        Err(e) => return Err(e),
    }
    let collected = gather_binary_values(views, bitmap, buffers);
    match check_binary_status(collected.1) {
        Ok(_) => {},
        Err(e) => return Err(e),
    }
    Ok((scanned.0, collected.0))
}

/// Each exported row is found between its offsets: the bytes from offset `i` to offset `i + 1` of
/// the gathered values are the value of row `i`.
pub proof fn exported_row_is_found(
    views: Seq<BinaryView>,
    valid: Seq<bool>,
    buffers: Seq<Seq<u8>>,
    i: int,
)
    requires
        0 <= i < views.len(),
        forall|j: int| 0 <= j < views.len() ==> !#[trigger] row_broken(views, valid, buffers, j),
    ensures
        0 <= row_offset(views, valid, i as nat) <= row_offset(views, valid, (i + 1) as nat)
            <= gathered(views, valid, buffers, views.len()).len(),
        gathered(views, valid, buffers, views.len()).subrange(
            row_offset(views, valid, i as nat),
            row_offset(views, valid, (i + 1) as nat),
        ) == row_value(views, valid, buffers, i),
{
    gathered_prefix(views, valid, buffers, (i + 1) as nat, views.len());
    gathered_len(views, valid, buffers, i as nat);
    gathered_len(views, valid, buffers, (i + 1) as nat);
    row_offset_grows(views, valid, i as nat, (i + 1) as nat);
    let whole = gathered(views, valid, buffers, views.len());
    let to_here = gathered(views, valid, buffers, (i + 1) as nat);
    assert(whole.subrange(
        row_offset(views, valid, i as nat),
        row_offset(views, valid, (i + 1) as nat),
    ) =~= to_here.subrange(
        row_offset(views, valid, i as nat),
        row_offset(views, valid, (i + 1) as nat),
    ));
    assert(to_here.subrange(
        row_offset(views, valid, i as nat),
        row_offset(views, valid, (i + 1) as nat),
    ) =~= row_value(views, valid, buffers, i));
}

/// The values of the first rows take up exactly the bytes before the next offset.
pub proof fn gathered_len(views: Seq<BinaryView>, valid: Seq<bool>, buffers: Seq<Seq<u8>>, n: nat)
    requires
        n <= views.len(),
        forall|j: int| 0 <= j < views.len() ==> !#[trigger] row_broken(views, valid, buffers, j),
    ensures
        gathered(views, valid, buffers, n).len() == row_offset(views, valid, n),
    decreases n,
{
    if n > 0 {
        gathered_len(views, valid, buffers, (n - 1) as nat);
        assert(!row_broken(views, valid, buffers, n - 1));
    }
}

/// The values of fewer rows come first.
proof fn gathered_prefix(
    views: Seq<BinaryView>,
    valid: Seq<bool>,
    buffers: Seq<Seq<u8>>,
    a: nat,
    b: nat,
)
    requires
        a <= b,
    ensures
        gathered(views, valid, buffers, a).len() <= gathered(views, valid, buffers, b).len(),
        gathered(views, valid, buffers, b).take(gathered(views, valid, buffers, a).len() as int)
            == gathered(views, valid, buffers, a),
    decreases b,
{
    let short = gathered(views, valid, buffers, a);
    if a < b {
        gathered_prefix(views, valid, buffers, a, (b - 1) as nat);
        assert(gathered(views, valid, buffers, b).take(short.len() as int) =~= gathered(
            views,
            valid,
            buffers,
            (b - 1) as nat,
        ).take(short.len() as int));
    } else {
        assert(short.take(short.len() as int) =~= short);
    }
}

/// The bitmap of binary rows covers them and says which are valid.
pub proof fn bitmap_is_validity(validity: &Validity, len: nat)
    requires
        validity.wf(len),
    ensures
        bitmap_rows(crate::arrow::buffers::binary_validity_bytes(validity, len), len)
            == validity.entries(len),
        crate::arrow::buffers::binary_validity_bytes(validity, len) matches Some(b) ==> len
            <= b.len() * 8,
{
    let bitmap = crate::arrow::buffers::binary_validity_bytes(validity, len);
    let rows = bitmap_rows(bitmap, len);
    assert forall|i: int| 0 <= i < len implies #[trigger] rows[i] == validity.valid_at(i) by {
        let n = crate::bits::bytes_for_bits(len as int) as nat;
        match validity {
            Validity::Array(bits) => {
                crate::bits::all_counted_is_all_true(bits@);
                let valid = crate::bits::count_true(bits@);
                if valid == 0 {
                    crate::bits::none_counted_is_all_false(bits@);
                    crate::bits::zero_bytes_are_clear(n, i);
                    assert(!bits@[i]);
                } else if valid == len {
                    assert(bits@[i]);
                } else if bits.offset != 0 {
                    crate::bits::packed_reads_back(bits@, i);
                }
            },
            Validity::AllInvalid => {
                crate::bits::zero_bytes_are_clear(n, i);
            },
            _ => {},
        }
    }
    assert(rows =~= validity.entries(len));
}

/// Status 0 alone is no error; 1 stands for a view without bytes, 2 for offsets beyond 32
/// bits, and any other is refused as it is.
pub proof fn only_status_zero_is_no_error(status: u32)
    ensures
        match status_error(status) {
            None => status == 0,
            Some(VortexError::InvalidViewBuffer) => status == 1,
            Some(VortexError::BinaryOffsetsOverflow) => status == 2,
            Some(VortexError::UnexpectedBinaryStatus { status: s }) => status > 2 && s == status,
            _ => false,
        },
{
}

} // verus!
