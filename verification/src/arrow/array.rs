//! The arrays that can be exported and the Arrow arrays that they become.
use vstd::prelude::*;
use vstd::slice::slice_subrange;

use crate::bits::BitBuffer;
use crate::decimal::{DecimalArray, DecimalBuffer};
use crate::dtype::{DecimalType, PType};
use crate::error::VortexResult;
use crate::primitive::{PrimitiveArray, PrimitiveBuffer};
use crate::validity::Validity;

verus! {

/// The longest value that a view holds inline.
pub const MAX_INLINED_SIZE: u32 = 12;

/// A 16-byte view of a string or binary value: its size, then either the value itself, padded to
/// twelve bytes, or a four-byte prefix, the index of a data buffer and an offset into it, the last
/// two in little-endian order.
#[derive(Clone, Copy, Debug, PartialEq, Eq)]
pub struct BinaryView {
    pub size: u32,
    pub data: [u8; 12],
}

/// A four-byte little-endian number at position `at`.
pub open spec fn le_u32(data: Seq<u8>, at: int) -> int {
    data[at] + 256 * data[at + 1] + 65536 * data[at + 2] + 16777216 * data[at + 3]
}

impl BinaryView {
    /// Whether the value is held inline.
    pub open spec fn inlined(&self) -> bool {
        self.size <= MAX_INLINED_SIZE
    }

    /// The index of the data buffer that holds an out-of-line value.
    pub open spec fn buffer_index(&self) -> int {
        le_u32(self.data@, 4)
    }

    /// Where an out-of-line value starts in its data buffer.
    pub open spec fn buffer_offset(&self) -> int {
        le_u32(self.data@, 8)
    }

    /// Whether an out-of-line value lies within its data buffer.
    pub open spec fn in_buffers(&self, buffers: Seq<Seq<u8>>) -> bool {
        &&& self.buffer_index() < buffers.len()
        &&& self.buffer_offset() + self.size <= buffers[self.buffer_index()].len()
    }

    /// The value: the inline bytes, or the range of the data buffer.
    pub open spec fn value(&self, buffers: Seq<Seq<u8>>) -> Seq<u8> {
        if self.inlined() {
            self.data@.subrange(0, self.size as int)
        } else {
            buffers[self.buffer_index()].subrange(
                self.buffer_offset(),
                self.buffer_offset() + self.size,
            )
        }
    }
}

/// The data buffers as sequences.
pub open spec fn data_buffers(buffers: Seq<Vec<u8>>) -> Seq<Seq<u8>> {
    Seq::new(buffers.len(), |i: int| buffers[i]@)
}

/// The four-byte little-endian number at position `at`.
fn read_le_u32(data: &[u8; 12], at: usize) -> (n: u32)
    requires
        at <= 8,
    ensures
        n == le_u32(data@, at as int),
{
    data[at] as u32 + 256 * data[at + 1] as u32 + 65536 * data[at + 2] as u32 + 16777216
        * data[at + 3] as u32
}

impl BinaryView {
    /// Whether an out-of-line value lies within its data buffer.
    pub fn is_in_buffers(&self, buffers: &Vec<Vec<u8>>) -> (b: bool)
        ensures
            b == self.in_buffers(data_buffers(buffers@)),
    {
        let index: usize = read_le_u32(&self.data, 4) as usize;
        let start: usize = read_le_u32(&self.data, 8) as usize;
        let size: usize = self.size as usize;
        index < buffers.len() && start <= buffers[index].len() && size <= buffers[index].len()
            - start
    }

    /// The value.
    pub fn bytes(&self, buffers: &Vec<Vec<u8>>) -> (v: Vec<u8>)
        requires
            self.inlined() || self.in_buffers(data_buffers(buffers@)),
        ensures
            v@ == self.value(data_buffers(buffers@)),
            v@.len() == self.size,
    {
        let mut v: Vec<u8> = Vec::new();
        if self.size <= MAX_INLINED_SIZE {
            let mut k: usize = 0;
            while k < self.size as usize
                invariant
                    k <= self.size <= 12,
                    v@ == self.data@.subrange(0, k as int),
                decreases self.size - k,
            {
                v.push(self.data[k]);
                k = k + 1;
                assert(v@ =~= self.data@.subrange(0, k as int));
            }
        } else {
            let index: usize = read_le_u32(&self.data, 4) as usize;
            let start: usize = read_le_u32(&self.data, 8) as usize;
            let buffer: &[u8] = buffers[index].as_slice();
            assert(data_buffers(buffers@)[index as int] == buffer@);
            assert(start + self.size <= buffer.len());
            let end: usize = start + self.size as usize;
            v.extend_from_slice(slice_subrange(buffer, start, end));
            assert(v@ =~= self.value(data_buffers(buffers@)));
        }
        v
    }
}

/// Booleans with their validity.
#[derive(Debug, PartialEq, Eq)]
pub struct BoolArray {
    pub bits: BitBuffer,
    pub validity: Validity,
}

/// Strings, or binary values, as views into data buffers.
#[derive(Debug, PartialEq, Eq)]
pub struct VarBinViewArray {
    pub binary: bool,
    pub views: Vec<BinaryView>,
    pub buffers: Vec<Vec<u8>>,
    pub validity: Validity,
}

/// Rows of named fields.
#[derive(Debug, PartialEq, Eq)]
pub struct StructArray {
    pub fields: Vec<Array>,
    pub len: usize,
    pub validity: Validity,
}

/// Lists as consecutive ranges of their elements: list `i` is `offsets[i]..offsets[i + 1]`.
#[derive(Debug, PartialEq, Eq)]
pub struct ListArray {
    pub elements: Box<Array>,
    pub offsets: PrimitiveBuffer,
    pub validity: Validity,
}

/// Lists of one size.
#[derive(Debug, PartialEq, Eq)]
pub struct FixedSizeListArray {
    pub elements: Box<Array>,
    pub list_size: u32,
    pub len: usize,
    pub validity: Validity,
}

/// Lists as arbitrary ranges of their elements, seen through the two ways in which they can become
/// consecutive ranges: what the device made of them, and, for lists in host memory, what packing
/// their ranges on the host made of them.
#[derive(Debug, PartialEq, Eq)]
pub struct ListViewArray {
    pub is_host: bool,
    pub device_export: VortexResult<Box<Exported>>,
    pub packed: VortexResult<ListArray>,
}

/// Numbers under an extension type.
#[derive(Debug, PartialEq, Eq)]
pub struct ExtensionArray {
    pub temporal: bool,
    pub storage: PrimitiveArray,
}

/// Values by their code in a dictionary.
#[derive(Debug, PartialEq, Eq)]
pub struct DictArray {
    pub codes: PrimitiveArray,
    pub values: Box<Array>,
}

/// An array of any type.
#[derive(Debug, PartialEq, Eq)]
pub enum Array {
    Null(usize),
    Bool(BoolArray),
    Primitive(PrimitiveArray),
    Decimal(DecimalArray),
    VarBinView(VarBinViewArray),
    Struct(StructArray),
    List(ListArray),
    ListView(ListViewArray),
    FixedSizeList(FixedSizeListArray),
    Extension(ExtensionArray),
    Dict(DictArray),
    Variant(usize),
}

/// A buffer of an exported array.
#[derive(Debug, PartialEq, Eq)]
pub enum ArrowBuffer {
    Bytes(Vec<u8>),
    Values(PrimitiveBuffer),
    Decimals(DecimalBuffer),
    Offsets(Vec<i32>),
    Sizes(Vec<i64>),
    Views(Vec<BinaryView>),
}

/// An exported array. Buffer 0 is the null bitmap, absent where every row is valid.
#[derive(Debug, PartialEq, Eq)]
pub struct ArrowArray {
    pub length: i64,
    pub null_count: i64,
    pub offset: i64,
    pub buffers: Vec<Option<ArrowBuffer>>,
    pub children: Vec<ArrowArray>,
    pub dictionary: Option<Box<ArrowArray>>,
    /// Whether the array has not been released yet.
    pub release: bool,
    /// Whether the array owns what release frees.
    pub private_data: bool,
}

/// Whether a consumer has work on the device to wait for.
#[derive(Clone, Copy, Debug, PartialEq, Eq, Structural)]
pub enum SyncEvent {
    Null,
    Recorded,
}

/// An exported array and what its consumer waits for.
#[derive(Debug, PartialEq, Eq)]
pub struct Exported {
    pub array: ArrowArray,
    pub sync_event: SyncEvent,
}

/// What a buffer holds.
#[verifier::ext_equal]
pub enum BufferModel {
    Bytes(Seq<u8>),
    Values(PType, Seq<int>),
    Decimals(DecimalType, Seq<int>),
    Offsets(Seq<int>),
    Sizes(Seq<int>),
    Views(Seq<BinaryView>),
}

/// What an exported array holds.
#[verifier::ext_equal]
pub struct ArrowModel {
    pub length: i64,
    pub null_count: i64,
    pub offset: i64,
    pub buffers: Seq<Option<BufferModel>>,
    pub children: Seq<ArrowModel>,
    pub dictionary: Option<Box<ArrowModel>>,
    pub release: bool,
    pub private_data: bool,
}

impl View for ArrowBuffer {
    type V = BufferModel;

    open spec fn view(&self) -> BufferModel {
        match self {
            ArrowBuffer::Bytes(v) => BufferModel::Bytes(v@),
            ArrowBuffer::Values(v) => BufferModel::Values(v.spec_ptype(), v.ints()),
            ArrowBuffer::Decimals(v) => BufferModel::Decimals(v.spec_values_type(), v@),
            ArrowBuffer::Offsets(v) => BufferModel::Offsets(Seq::new(v@.len(), |i: int| v@[i] as int)),
            ArrowBuffer::Sizes(v) => BufferModel::Sizes(Seq::new(v@.len(), |i: int| v@[i] as int)),
            ArrowBuffer::Views(v) => BufferModel::Views(v@),
        }
    }
}

/// What an optional buffer holds.
pub open spec fn buffer_model(b: Option<ArrowBuffer>) -> Option<BufferModel> {
    match b {
        Some(b) => Some(b@),
        None => None,
    }
}

impl View for ArrowArray {
    type V = ArrowModel;

    open spec fn view(&self) -> ArrowModel {
        self.model()
    }
}

impl ArrowArray {
    /// What the array holds.
    pub open spec fn model(&self) -> ArrowModel
        decreases self,
    {
        ArrowModel {
            length: self.length,
            null_count: self.null_count,
            offset: self.offset,
            buffers: Seq::new(self.buffers@.len(), |i: int| buffer_model(self.buffers@[i])),
            children: Seq::new(
                self.children@.len(),
                |i: int|
                    if 0 <= i < self.children@.len() {
                        self.children@[i].model()
                    } else {
                        arbitrary()
                    },
            ),
            dictionary: match self.dictionary {
                Some(d) => Some(Box::new((*d).model())),
                None => None,
            },
            release: self.release,
            private_data: self.private_data,
        }
    }
}

impl Array {
    /// The number of rows.
    pub open spec fn spec_len(&self) -> nat {
        match self {
            Array::Null(n) => *n as nat,
            Array::Bool(a) => a.bits@.len(),
            Array::Primitive(a) => a.buffer.spec_len(),
            Array::Decimal(a) => a.buffer@.len(),
            Array::VarBinView(a) => a.views@.len(),
            Array::Struct(a) => a.len as nat,
            Array::List(a) => a.spec_len(),
            Array::ListView(a) => match a.packed {
                Ok(list) => list.spec_len(),
                Err(_) => 0,
            },
            Array::FixedSizeList(a) => a.len as nat,
            Array::Extension(a) => a.storage.buffer.spec_len(),
            Array::Dict(a) => a.codes.buffer.spec_len(),
            Array::Variant(n) => *n as nat,
        }
    }

    /// Whether the array is in canonical form.
    pub open spec fn canonical(&self) -> bool {
        !(self is Dict || self is List)
    }

    /// Every validity covers its rows, lists have an offset on both sides of each list, and codes
    /// and offsets are integers. Packing list views gives a dictionary or canonical elements.
    pub open spec fn wf(&self) -> bool
        decreases self,
    {
        match self {
            Array::Null(_) => true,
            Array::Bool(a) => a.bits.wf() && a.validity.wf(a.bits@.len()),
            Array::Primitive(a) => a.wf(),
            Array::Decimal(a) => a.wf(),
            Array::VarBinView(a) => a.validity.wf(a.views@.len()),
            Array::Struct(a) => a.validity.wf(a.len as nat) && forall|i: int|
                0 <= i < a.fields@.len() ==> (#[trigger] a.fields@[i]).wf(),
            Array::List(a) => a.shape_wf() && a.elements.wf(),
            Array::ListView(a) => match a.packed {
                Ok(list) => list.shape_wf() && list.elements.wf() && (list.elements.canonical()
                    || *list.elements is Dict),
                Err(_) => true,
            },
            Array::FixedSizeList(a) => a.validity.wf(a.len as nat) && a.elements.wf(),
            Array::Extension(a) => a.storage.wf(),
            Array::Dict(a) => a.codes.wf() && a.codes.buffer.integer() && a.values.wf(),
            Array::Variant(_) => true,
        }
    }
}

impl ListArray {
    /// The number of lists.
    pub open spec fn spec_len(&self) -> nat {
        (self.offsets.spec_len() - 1) as nat
    }

    /// An offset on both sides of each list, and a validity that covers the lists.
    pub open spec fn shape_wf(&self) -> bool {
        &&& self.offsets.spec_len() >= 1
        &&& self.offsets.integer()
        &&& self.validity.wf(self.spec_len())
    }
}

/// Whether the four bytes from `at` on are the number `n`, the lowest byte first.
pub open spec fn spells(data: Seq<u8>, at: int, n: nat) -> bool {
    &&& data[at] == n % 256
    &&& data[at + 1] == (n / 256) % 256
    &&& data[at + 2] == (n / 256 / 256) % 256
    &&& data[at + 3] == n / 256 / 256 / 256
}

/// A view of up to twelve bytes holds its value. A longer one refers to it: bytes 4 to 7 spell the
/// data buffer and bytes 8 to 11 where in it the value starts.
pub proof fn view_refers_to_its_value(view: BinaryView, buffers: Seq<Seq<u8>>, index: nat, start: nat)
    requires
        spells(view.data@, 4, index),
        spells(view.data@, 8, start),
    ensures
        view.size <= 12 ==> view.value(buffers) == view.data@.take(view.size as int),
        view.size > 12 ==> view.value(buffers) == buffers[index as int].subrange(
            start as int,
            start + view.size,
        ),
        view.in_buffers(buffers) <==> index < buffers.len() && start + view.size
            <= buffers[index as int].len(),
{
    assert(view.buffer_index() == index);
    assert(view.buffer_offset() == start);
    assert(view.data@.subrange(0, view.size as int) =~= view.data@.take(view.size as int));
}

} // verus!
