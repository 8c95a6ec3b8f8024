//! The export of array trees.
use vstd::prelude::*;

use crate::arrow::array::{
    Array, ArrowArray, ArrowBuffer, ArrowModel, BoolArray, BufferModel, DictArray, Exported,
    ExtensionArray, FixedSizeListArray, ListArray, ListViewArray, StructArray, SyncEvent,
    VarBinViewArray,
};
use crate::arrow::binary::export_binary_buffers;
use crate::arrow::buffers::{
    count_to_i64, cuda_decimal_value_type, export_arrow_list_offsets, export_arrow_validity_buffer,
    export_binary_validity_buffer, export_decimal_values, export_dictionary_codes,
    fixed_size_list_offsets,
};
use crate::arrow::{array, binary, buffers};
use crate::decimal::DecimalArray;
use crate::error::{VortexError, VortexResult};
use crate::primitive::PrimitiveArray;
use crate::validity::Validity;

verus! {

/// What an export gives: an array and what its consumer waits for, or an error.
pub type ExportModel = Result<(ArrowModel, SyncEvent), VortexError>;

/// An array without children or dictionary.
pub open spec fn leaf_model(
    len: nat,
    null_count: int,
    offset: nat,
    buffers: Seq<Option<BufferModel>>,
) -> ArrowModel {
    parent_model(len, null_count, offset, buffers, Seq::empty(), None)
}

/// An array with children or a dictionary.
pub open spec fn parent_model(
    len: nat,
    null_count: int,
    offset: nat,
    buffers: Seq<Option<BufferModel>>,
    children: Seq<ArrowModel>,
    dictionary: Option<Box<ArrowModel>>,
) -> ArrowModel {
    ArrowModel {
        length: len as i64,
        null_count: null_count as i64,
        offset: offset as i64,
        buffers,
        children,
        dictionary,
        release: true,
        private_data: true,
    }
}

/// The null bitmap of `len` rows at `offset`.
pub open spec fn validity_model(validity: &Validity, len: nat, offset: nat) -> Option<BufferModel> {
    buffers::bytes_model(buffers::validity_bytes(validity, len, offset))
}

/// Values of one width under a null bitmap.
pub open spec fn fixed_size_model(
    validity: &Validity,
    len: nat,
    offset: nat,
    values: BufferModel,
) -> ExportModel {
    if buffers::null_count_fits(validity, len) {
        Ok(
            (
                leaf_model(
                    len,
                    validity.null_count(len),
                    offset,
                    seq![validity_model(validity, len, offset), Some(values)],
                ),
                SyncEvent::Recorded,
            ),
        )
    } else {
        Err(VortexError::TryFromInt)
    }
}

/// Decimals in the Arrow decimal of their precision.
pub open spec fn decimal_model(a: DecimalArray) -> ExportModel {
    let len = a.buffer@.len();
    let target = buffers::arrow_decimal_type(a.decimal_dtype.precision);
    if !buffers::null_count_fits(&a.validity, len) {
        Err(VortexError::TryFromInt)
    } else if let Some(e) = buffers::decimal_export_error(a.buffer.spec_values_type(), target) {
        Err(e)
    } else {
        fixed_size_model(&a.validity, len, 0, BufferModel::Decimals(target, a.buffer@))
    }
}

/// The lengths of the data buffers.
pub open spec fn buffer_sizes(buffers: Seq<Vec<u8>>) -> Seq<int> {
    Seq::new(buffers.len(), |i: int| buffers[i]@.len() as int)
}

/// The data buffers, one Arrow buffer each.
pub open spec fn data_buffer_models(buffers: Seq<Vec<u8>>) -> Seq<Option<BufferModel>> {
    Seq::new(buffers.len(), |i: int| Some(BufferModel::Bytes(buffers[i]@)))
}

/// Whether every data buffer's length fits an `i64`.
pub open spec fn sizes_fit(buffers: Seq<Vec<u8>>) -> bool {
    forall|i: int| 0 <= i < buffers.len() ==> (#[trigger] buffers[i])@.len() <= i64::MAX
}

/// String views: null bitmap, views, data buffers, and last the lengths of the data buffers.
pub open spec fn views_model(a: VarBinViewArray) -> ExportModel {
    let len = a.views@.len();
    if !buffers::null_count_fits(&a.validity, len) {
        Err(VortexError::TryFromInt)
    } else if !sizes_fit(a.buffers@) {
        Err(VortexError::TryFromInt)
    } else {
        Ok(
            (
                leaf_model(
                    len,
                    a.validity.null_count(len),
                    0,
                    seq![validity_model(&a.validity, len, 0), Some(BufferModel::Views(a.views@))]
                        + data_buffer_models(a.buffers@) + seq![
                        Some(BufferModel::Sizes(buffer_sizes(a.buffers@))),
                    ],
                ),
                SyncEvent::Recorded,
            ),
        )
    }
}

/// Binary values: null bitmap from bit 0, offsets, and the values of the valid rows.
pub open spec fn binary_model(a: VarBinViewArray) -> ExportModel {
    let len = a.views@.len();
    let valid = a.validity.entries(len);
    let data = array::data_buffers(a.buffers@);
    if !buffers::null_count_fits(&a.validity, len) {
        Err(VortexError::TryFromInt)
    } else if let Some(e) = binary::binary_error(a.views@, valid, data) {
        Err(e)
    } else {
        Ok(
            (
                leaf_model(
                    len,
                    a.validity.null_count(len),
                    0,
                    seq![
                        buffers::bytes_model(buffers::binary_validity_bytes(&a.validity, len)),
                        Some(BufferModel::Offsets(binary::row_offsets(a.views@, valid))),
                        Some(BufferModel::Bytes(binary::gathered(a.views@, valid, data, len))),
                    ],
                ),
                SyncEvent::Recorded,
            ),
        )
    }
}

/// Lists over an exported child: null bitmap and offsets.
pub open spec fn list_layout_model(
    child: ArrowModel,
    len: nat,
    validity: Option<BufferModel>,
    null_count: int,
    offsets: Seq<int>,
) -> ExportModel {
    Ok(
        (
            parent_model(
                len,
                null_count,
                0,
                seq![validity, Some(BufferModel::Offsets(offsets))],
                seq![child],
                None,
            ),
            SyncEvent::Recorded,
        ),
    )
}

/// The exports of several arrays, or the error of the first that fails.
pub open spec fn export_models(arrays: Seq<Array>) -> Result<Seq<ArrowModel>, VortexError>
    decreases arrays,
{
    if arrays.len() == 0 {
        Ok(Seq::empty())
    } else {
        match export_models(arrays.drop_last()) {
            Err(e) => Err(e),
            Ok(before) => match export_model(arrays.last()) {
                Err(e) => Err(e),
                Ok(last) => Ok(before.push(last.0)),
            },
        }
    }
}

/// What exporting a list gives: the validity is exported first, then the offsets, then the
/// elements.
pub open spec fn list_model(a: ListArray) -> ExportModel
    decreases a,
{
    let len = a.spec_len();
    if !buffers::null_count_fits(&a.validity, len) {
        Err(VortexError::TryFromInt)
    } else if !buffers::all_i32(a.offsets.ints()) {
        Err(VortexError::ValueCast)
    } else {
        match export_model(*a.elements) {
            Err(e) => Err(e),
            Ok(child) => list_layout_model(
                child.0,
                len,
                validity_model(&a.validity, len, 0),
                a.validity.null_count(len),
                a.offsets.ints(),
            ),
        }
    }
}

/// What exporting an array gives.
pub open spec fn export_model(a: Array) -> ExportModel
    decreases a,
{
    match a {
        Array::Null(n) => Ok(
            (
                ArrowModel {
                    length: n as i64,
                    null_count: n as i64,
                    offset: 0,
                    buffers: Seq::empty(),
                    children: Seq::empty(),
                    dictionary: None,
                    release: true,
                    private_data: false,
                },
                SyncEvent::Null,
            ),
        ),
        Array::Bool(a) => fixed_size_model(
            &a.validity,
            a.bits.len as nat,
            a.bits.offset as nat,
            BufferModel::Bytes(a.bits.bytes@),
        ),
        Array::Primitive(a) => fixed_size_model(
            &a.validity,
            a.buffer.spec_len(),
            0,
            BufferModel::Values(a.buffer.spec_ptype(), a.buffer.ints()),
        ),
        Array::Decimal(a) => decimal_model(a),
        Array::VarBinView(a) => if a.binary {
            binary_model(a)
        } else {
            views_model(a)
        },
        Array::Struct(a) => if !buffers::null_count_fits(&a.validity, a.len as nat) {
            Err(VortexError::TryFromInt)
        } else {
            match export_models(a.fields@) {
                Err(e) => Err(e),
                Ok(children) => Ok(
                    (
                        parent_model(
                            a.len as nat,
                            a.validity.null_count(a.len as nat),
                            0,
                            seq![validity_model(&a.validity, a.len as nat, 0)],
                            children,
                            None,
                        ),
                        SyncEvent::Recorded,
                    ),
                ),
            }
        },
        Array::List(a) => list_model(a),
        Array::ListView(a) => match a.device_export {
            Ok(exported) => Ok((exported.array.model(), exported.sync_event)),
            Err(e) => if !a.is_host {
                Err(e)
            } else {
                match a.packed {
                    Ok(list) => list_model(list),
                    Err(e) => Err(e),
                }
            },
        },
        Array::FixedSizeList(a) => {
            let len = a.len as nat;
            if !buffers::null_count_fits(&a.validity, len) {
                Err(VortexError::TryFromInt)
            } else if let Some(e) = buffers::fixed_offsets_error(len, a.list_size) {
                Err(e)
            } else {
                match export_model(*a.elements) {
                    Err(e) => Err(e),
                    Ok(child) => list_layout_model(
                        child.0,
                        len,
                        validity_model(&a.validity, len, 0),
                        a.validity.null_count(len),
                        buffers::fixed_offsets(len, a.list_size as int),
                    ),
                }
            }
        },
        Array::Extension(a) => if !a.temporal {
            Err(VortexError::NotTemporal)
        } else {
            fixed_size_model(
                &a.storage.validity,
                a.storage.buffer.spec_len(),
                0,
                BufferModel::Values(a.storage.buffer.spec_ptype(), a.storage.buffer.ints()),
            )
        },
        Array::Dict(a) => {
            let len = a.codes.buffer.spec_len();
            if buffers::code_overflows(&a.codes.buffer) {
                Err(VortexError::ValueCast)
            } else if !buffers::null_count_fits(&a.codes.validity, len) {
                Err(VortexError::TryFromInt)
            } else {
                match export_model(*a.values) {
                    Err(e) => Err(e),
                    Ok(values) => Ok(
                        (
                            parent_model(
                                len,
                                a.codes.validity.null_count(len),
                                0,
                                seq![
                                    validity_model(&a.codes.validity, len, 0),
                                    Some(
                                        BufferModel::Values(
                                            buffers::exported_codes_ptype(
                                                a.codes.buffer.spec_ptype(),
                                            ),
                                            a.codes.buffer.ints(),
                                        ),
                                    ),
                                ],
                                Seq::empty(),
                                Some(Box::new(values.0)),
                            ),
                            SyncEvent::Recorded,
                        ),
                    ),
                }
            }
        },
        Array::Variant(_) => Err(VortexError::UnsupportedExport),
    }
}

/// Whether a result is what a model says.
pub open spec fn is_export(r: VortexResult<Exported>, model: ExportModel) -> bool {
    match r {
        Ok(out) => model == Ok::<(ArrowModel, SyncEvent), VortexError>((out.array@, out.sync_event)),
        Err(e) => model == Err::<(ArrowModel, SyncEvent), VortexError>(e),
    }
}

/// What several buffers hold.
pub open spec fn buffer_models(buffers: Seq<Option<ArrowBuffer>>) -> Seq<Option<BufferModel>> {
    Seq::new(buffers.len(), |i: int| array::buffer_model(buffers[i]))
}

/// What several arrays hold.
pub open spec fn array_models(arrays: Seq<ArrowArray>) -> Seq<ArrowModel> {
    Seq::new(arrays.len(), |i: int| arrays[i].model())
}

/// An array that owns its buffers, children and dictionary.
fn own_array(
    len: usize,
    null_count: i64,
    offset: usize,
    buffers: Vec<Option<ArrowBuffer>>,
    children: Vec<ArrowArray>,
    dictionary: Option<Box<ArrowArray>>,
) -> (array: ArrowArray)
    ensures
        array@ == parent_model(
            len as nat,
            null_count as int,
            offset as nat,
            buffer_models(buffers@),
            array_models(children@),
            match dictionary {
                Some(d) => Some(Box::new(d.model())),
                None => None,
            },
        ),
{
    let array = ArrowArray {
        length: len as i64,
        null_count,
        offset: offset as i64,
        buffers,
        children,
        dictionary,
        release: true,
        private_data: true,
    };
    assert(array@.buffers =~= buffer_models(buffers@));
    assert(array@.children =~= array_models(children@));
    array
}

/// A vector of two buffers.
fn two_buffers(a: Option<ArrowBuffer>, b: ArrowBuffer) -> (v: Vec<Option<ArrowBuffer>>)
    ensures
        buffer_models(v@) == seq![array::buffer_model(a), Some(b@)],
{
    let mut v: Vec<Option<ArrowBuffer>> = Vec::new();
    v.push(a);
    v.push(Some(b));
    assert(buffer_models(v@) =~= seq![array::buffer_model(a), Some(b@)]);
    v
}

/// Exports values of one width that own a single buffer.
pub fn export_fixed_size(
    buffer: ArrowBuffer,
    len: usize,
    offset: usize,
    validity: Option<ArrowBuffer>,
    null_count: i64,
) -> (out: Exported)
    ensures
        out.array@ == leaf_model(
            len as nat,
            null_count as int,
            offset as nat,
            seq![array::buffer_model(validity), Some(buffer@)],
        ),
        out.sync_event == SyncEvent::Recorded,
{
    let buffers = two_buffers(validity, buffer);
    let array = own_array(len, null_count, offset, buffers, Vec::new(), None);
    assert(array_models(Seq::<ArrowArray>::empty()) =~= Seq::<ArrowModel>::empty());
    Exported { array, sync_event: SyncEvent::Recorded }
}

/// Exports decimals in the Arrow decimal of their precision.
pub fn export_decimal(decimal: DecimalArray) -> (r: VortexResult<Exported>)
    requires
        decimal.wf(),
    ensures
        is_export(r, decimal_model(decimal)),
{
    let len: usize = decimal.buffer.len();
    let DecimalArray { buffer, decimal_dtype, validity } = decimal;
    let exported_validity = match export_arrow_validity_buffer(&validity, len, 0) {
        Ok(v) => v,
        Err(e) => return Err(e),
    };
    let target_type = cuda_decimal_value_type(decimal_dtype);
    let values = match export_decimal_values(buffer, target_type) {
        Ok(v) => v,
        Err(e) => return Err(e),
    };
    Ok(
        export_fixed_size(
            ArrowBuffer::Decimals(values),
            len,
            0,
            exported_validity.0,
            exported_validity.1,
        ),
    )
}

/// Exports binary views as offsets and values.
pub fn export_binary(varbinview: VarBinViewArray) -> (r: VortexResult<Exported>)
    requires
        varbinview.validity.wf(varbinview.views@.len()),
    ensures
        is_export(r, binary_model(varbinview)),
{
    let len: usize = varbinview.views.len();
    let exported_validity = match export_binary_validity_buffer(&varbinview.validity, len) {
        Ok(v) => v,
        Err(e) => return Err(e),
    };
    let bitmap = exported_validity.0;
    proof {
        binary::bitmap_is_validity(&varbinview.validity, len as nat);
    }
    let exported = match export_binary_buffers(
        &varbinview.views,
        &varbinview.buffers,
        bitmap.as_ref(),
    ) {
        Ok(b) => b,
        Err(e) => return Err(e),
    };
    let validity_buffer = match bitmap {
        Some(bytes) => Some(ArrowBuffer::Bytes(bytes)),
        None => None,
    };
    let mut buffers: Vec<Option<ArrowBuffer>> = Vec::new();
    buffers.push(validity_buffer);
    buffers.push(Some(ArrowBuffer::Offsets(exported.0)));
    buffers.push(Some(ArrowBuffer::Bytes(exported.1)));
    let array = own_array(len, exported_validity.1, 0, buffers, Vec::new(), None);
    proof {
        let valid = varbinview.validity.entries(len as nat);
        let data = array::data_buffers(varbinview.buffers@);
        assert(buffer_models(buffers@) =~= seq![
            buffers::bytes_model(
                buffers::binary_validity_bytes(&varbinview.validity, len as nat),
            ),
            Some(BufferModel::Offsets(binary::row_offsets(varbinview.views@, valid))),
            Some(
                BufferModel::Bytes(
                    binary::gathered(varbinview.views@, valid, data, len as nat),
                ),
            ),
        ]);
        assert(array_models(Seq::<ArrowArray>::empty()) =~= Seq::<ArrowModel>::empty());
    }
    Ok(Exported { array, sync_event: SyncEvent::Recorded })
}

/// Exports string views, with the lengths of their data buffers in a last buffer of their own.
fn export_string_views(varbinview: VarBinViewArray) -> (r: VortexResult<Exported>)
    requires
        varbinview.validity.wf(varbinview.views@.len()),
    ensures
        is_export(r, views_model(varbinview)),
{
    let len: usize = varbinview.views.len();
    let VarBinViewArray { binary: _, views, buffers: data, validity } = varbinview;
    let exported_validity = match export_arrow_validity_buffer(&validity, len, 0) {
        Ok(v) => v,
        Err(e) => return Err(e),
    };
    let mut sizes: Vec<i64> = Vec::new();
    let mut i: usize = 0;
    while i < data.len()
        invariant
            i <= data@.len(),
            sizes@.len() == i,
            data@ == varbinview.buffers@,
            forall|j: int| 0 <= j < i ==> #[trigger] sizes@[j] == data@[j]@.len(),
            forall|j: int| 0 <= j < i ==> (#[trigger] data@[j])@.len() <= i64::MAX,
            buffers::null_count_fits(&varbinview.validity, varbinview.views@.len()),
        decreases data@.len() - i,
    {
        match count_to_i64(data[i].len()) {
            Ok(n) => {
                sizes.push(n);
            },
            Err(e) => {
                assert(data@[i as int]@.len() > i64::MAX);
                return Err(e);
            },
        }
        i = i + 1;
    }
    let mut buffers: Vec<Option<ArrowBuffer>> = Vec::new();
    buffers.push(exported_validity.0);
    buffers.push(Some(ArrowBuffer::Views(views)));
    let ghost head = buffer_models(buffers@);
    assert(head =~= seq![
        validity_model(&varbinview.validity, len as nat, 0),
        Some(BufferModel::Views(varbinview.views@)),
    ]);
    let ghost all = data@;
    for buffer in it: data
        invariant
            it.seq() == all,
            buffer_models(buffers@) == head + data_buffer_models(all.take(it.index() as int)),
    {
        let ghost n = it.index() as int;
        let ghost so_far = buffer_models(buffers@);
        assert(buffer == all[n]);
        buffers.push(Some(ArrowBuffer::Bytes(buffer)));
        assert(buffer_models(buffers@) =~= so_far.push(Some(BufferModel::Bytes(all[n]@))));
        assert(buffer_models(buffers@) =~= head + data_buffer_models(all.take(n + 1)));
    }
    assert(all.take(all.len() as int) =~= all);
    let ghost before = buffer_models(buffers@);
    buffers.push(Some(ArrowBuffer::Sizes(sizes)));
    let array = own_array(len, exported_validity.1, 0, buffers, Vec::new(), None);
    proof {
        assert(ArrowBuffer::Sizes(sizes)@->Sizes_0 =~= buffer_sizes(all));
        assert(buffer_models(buffers@) =~= before + seq![Some(BufferModel::Sizes(buffer_sizes(all)))]);
        assert(array_models(Seq::<ArrowArray>::empty()) =~= Seq::<ArrowModel>::empty());
    }
    Ok(Exported { array, sync_event: SyncEvent::Recorded })
}

/// How the elements of a list are exported.
#[derive(Clone, Copy, Debug, PartialEq, Eq)]
pub enum ListChildExport {
    /// Keep the elements' own layout, such as a dictionary.
    PreserveConcreteLayout,
    /// Bring the elements into canonical form, but keep a dictionary.
    RebuiltListViewChild,
}

impl ListChildExport {
    /// Exports the elements of a list.
    pub fn export(self, elements: Array) -> (r: VortexResult<ArrowArray>)
        requires
            elements.wf(),
            self == ListChildExport::RebuiltListViewChild ==> elements is Dict
                || elements.canonical(),
        ensures
            match r {
                Ok(out) => export_model(elements) matches Ok(m) && m.0 == out@,
                Err(e) => export_model(elements) == Err::<(ArrowModel, SyncEvent), VortexError>(e),
            },
        decreases elements, 4int,
    {
        let exported = match self {
            ListChildExport::PreserveConcreteLayout => export_array(elements),
            ListChildExport::RebuiltListViewChild => {
                if matches!(elements, Array::Dict(_)) {
                    export_array(elements)
                } else {
                    export_canonical(elements)
                }
            },
        };
        match exported {
            Ok(out) => Ok(out.array),
            Err(e) => Err(e),
        }
    }
}

/// Exports lists over a child that is already exported.
pub fn export_list_layout_with_child(
    elements_child: ArrowArray,
    len: usize,
    validity_buffer: Option<ArrowBuffer>,
    null_count: i64,
    offsets: Vec<i32>,
) -> (out: Exported)
    ensures
        is_export(
            Ok(out),
            list_layout_model(
                elements_child@,
                len as nat,
                array::buffer_model(validity_buffer),
                null_count as int,
                buffers::offset_ints(offsets@),
            ),
        ),
{
    let buffers = two_buffers(validity_buffer, ArrowBuffer::Offsets(offsets));
    let mut children: Vec<ArrowArray> = Vec::new();
    children.push(elements_child);
    assert(array_models(children@) =~= seq![elements_child@]);
    let array = own_array(len, null_count, 0, buffers, children, None);
    Exported { array, sync_event: SyncEvent::Recorded }
}

/// Exports lists once their null bitmap and offsets are ready.
pub fn export_list_layout(
    elements: Array,
    len: usize,
    validity_buffer: Option<ArrowBuffer>,
    null_count: i64,
    offsets: Vec<i32>,
    child_export: ListChildExport,
) -> (r: VortexResult<Exported>)
    requires
        elements.wf(),
        child_export == ListChildExport::RebuiltListViewChild ==> elements is Dict
            || elements.canonical(),
    ensures
        is_export(
            r,
            match export_model(elements) {
                Err(e) => Err(e),
                Ok(child) => list_layout_model(
                    child.0,
                    len as nat,
                    array::buffer_model(validity_buffer),
                    null_count as int,
                    buffers::offset_ints(offsets@),
                ),
            },
        ),
    decreases elements, 5int,
{
    match child_export.export(elements) {
        Ok(child) => Ok(
            export_list_layout_with_child(child, len, validity_buffer, null_count, offsets),
        ),
        Err(e) => Err(e),
    }
}

/// Exports a list as Arrow `List`.
pub fn export_list(array: ListArray, child_export: ListChildExport) -> (r: VortexResult<Exported>)
    requires
        array.shape_wf(),
        array.elements.wf(),
        child_export == ListChildExport::RebuiltListViewChild ==> *array.elements is Dict
            || array.elements.canonical(),
    ensures
        is_export(r, list_model(array)),
    decreases array, 6int,
{
    let len: usize = array.offsets.len() - 1;
    let ListArray { elements, offsets, validity } = array;
    let exported_validity = match export_arrow_validity_buffer(&validity, len, 0) {
        Ok(v) => v,
        Err(e) => return Err(e),
    };
    let offsets = match export_arrow_list_offsets(&offsets) {
        Ok(o) => o,
        Err(e) => return Err(e),
    };
    export_list_layout(
        *elements,
        len,
        exported_validity.0,
        exported_validity.1,
        offsets,
        child_export,
    )
}

/// Exports list views as Arrow `List`. What the device made of them comes first; where it failed,
/// list views in host memory are packed into a list, and any other keep the device's error.
pub fn export_list_view(listview: ListViewArray) -> (r: VortexResult<Exported>)
    requires
        Array::ListView(listview).wf(),
    ensures
        is_export(r, export_model(Array::ListView(listview))),
    decreases listview, 7int,
{
    let ListViewArray { is_host, device_export, packed } = listview;
    let device_error = match device_export {
        Ok(exported) => return Ok(*exported),
        Err(e) => e,
    };
    if !is_host {
        return Err(device_error);
    }
    match packed {
        Ok(list) => export_list(list, ListChildExport::RebuiltListViewChild),
        Err(e) => Err(e),
    }
}

/// Exports fixed-size lists as Arrow `List`.
pub fn export_fixed_size_list(array: FixedSizeListArray) -> (r: VortexResult<Exported>)
    requires
        Array::FixedSizeList(array).wf(),
    ensures
        is_export(r, export_model(Array::FixedSizeList(array))),
    decreases array, 6int,
{
    let FixedSizeListArray { elements, list_size, len, validity } = array;
    let exported_validity = match export_arrow_validity_buffer(&validity, len, 0) {
        Ok(v) => v,
        Err(e) => return Err(e),
    };
    let offsets = match fixed_size_list_offsets(len, list_size) {
        Ok(o) => o,
        Err(e) => return Err(e),
    };
    export_list_layout(
        *elements,
        len,
        exported_validity.0,
        exported_validity.1,
        offsets,
        ListChildExport::PreserveConcreteLayout,
    )
}

/// Exports a dictionary with its values.
pub fn export_dict(array: DictArray) -> (r: VortexResult<Exported>)
    requires
        Array::Dict(array).wf(),
    ensures
        is_export(r, export_model(Array::Dict(array))),
    decreases array, 1int,
{
    let DictArray { codes, values } = array;
    let len: usize = codes.buffer.len();
    let codes = match export_dictionary_codes(codes) {
        Ok(c) => c,
        Err(e) => return Err(e),
    };
    proof {
        assert(codes.buffer.ints().len() == array.codes.buffer.ints().len());
    }
    let PrimitiveArray { buffer, validity } = codes;
    let exported_validity = match export_arrow_validity_buffer(&validity, len, 0) {
        Ok(v) => v,
        Err(e) => return Err(e),
    };
    let dictionary = match export_array(*values) {
        Ok(d) => d,
        Err(e) => return Err(e),
    };
    let buffers = two_buffers(exported_validity.0, ArrowBuffer::Values(buffer));
    let array = own_array(
        len,
        exported_validity.1,
        0,
        buffers,
        Vec::new(),
        Some(Box::new(dictionary.array)),
    );
    assert(array_models(Seq::<ArrowArray>::empty()) =~= Seq::<ArrowModel>::empty());
    Ok(Exported { array, sync_event: SyncEvent::Recorded })
}

/// Exports a struct with its fields, in order.
pub fn export_struct(array: StructArray) -> (r: VortexResult<Exported>)
    requires
        Array::Struct(array).wf(),
    ensures
        is_export(r, export_model(Array::Struct(array))),
    decreases array, 1int,
{
    let StructArray { fields, len, validity } = array;
    let exported_validity = match export_arrow_validity_buffer(&validity, len, 0) {
        Ok(v) => v,
        Err(e) => return Err(e),
    };
    let ghost all = fields@;
    let mut children: Vec<ArrowArray> = Vec::new();
    assert(all.take(0) =~= Seq::<Array>::empty());
    assert(array_models(children@) =~= Seq::<ArrowModel>::empty());
    for field in it: fields
        invariant
            all == array.fields@,
            it.seq() == all,
            Array::Struct(array).wf(),
            buffers::null_count_fits(&array.validity, array.len as nat),
            export_models(all.take(it.index() as int)) == Ok::<Seq<ArrowModel>, VortexError>(
                array_models(children@),
            ),
    {
        let ghost n = it.index() as int;
        let ghost so_far = array_models(children@);
        proof {
            assert(field == all[n]);
            assert(decreases_to!(array => array.fields@[n]));
            assert(all.take(n + 1).drop_last() =~= all.take(n));
            assert(all.take(n + 1).last() == field);
        }
        match export_array(field) {
            Ok(out) => {
                children.push(out.array);
                assert(array_models(children@) =~= so_far.push(out.array@));
            },
            Err(e) => {
                proof {
                    first_error_stands(all, n + 1);
                }
                return Err(e);
            },
        }
    }
    assert(all.take(all.len() as int) =~= all);
    let mut buffers: Vec<Option<ArrowBuffer>> = Vec::new();
    buffers.push(exported_validity.0);
    assert(buffer_models(buffers@) =~= seq![validity_model(&array.validity, len as nat, 0)]);
    let array = own_array(len, exported_validity.1, 0, buffers, children, None);
    Ok(Exported { array, sync_event: SyncEvent::Recorded })
}

/// The error of a prefix is the error of the whole.
proof fn first_error_stands(arrays: Seq<Array>, n: int)
    requires
        0 <= n <= arrays.len(),
        export_models(arrays.take(n)) is Err,
    ensures
        export_models(arrays) == export_models(arrays.take(n)),
    decreases arrays.len(),
{
    if n < arrays.len() {
        assert(arrays.drop_last().take(n) =~= arrays.take(n));
        first_error_stands(arrays.drop_last(), n);
    } else {
        assert(arrays.take(n) =~= arrays);
    }
}

/// Exports an array that is in canonical form.
pub fn export_canonical(array: Array) -> (r: VortexResult<Exported>)
    requires
        array.wf(),
        array.canonical(),
    ensures
        is_export(r, export_model(array)),
    decreases array, 2int,
{
    match array {
        Array::Struct(a) => export_struct(a),
        Array::Primitive(a) => {
            let len: usize = a.buffer.len();
            let PrimitiveArray { buffer, validity } = a;
            match export_arrow_validity_buffer(&validity, len, 0) {
                Ok(v) => Ok(export_fixed_size(ArrowBuffer::Values(buffer), len, 0, v.0, v.1)),
                Err(e) => Err(e),
            }
        },
        Array::Null(len) => {
            let out = ArrowArray {
                length: len as i64,
                null_count: len as i64,
                offset: 0,
                buffers: Vec::new(),
                children: Vec::new(),
                dictionary: None,
                release: true,
                private_data: false,
            };
            assert(out@.buffers =~= Seq::empty());
            assert(out@.children =~= Seq::empty());
            Ok(Exported { array: out, sync_event: SyncEvent::Null })
        },
        Array::Decimal(a) => export_decimal(a),
        Array::Extension(a) => {
            let ExtensionArray { temporal, storage } = a;
            if !temporal {
                return Err(VortexError::NotTemporal);
            }
            let len: usize = storage.buffer.len();
            let PrimitiveArray { buffer, validity } = storage;
            match export_arrow_validity_buffer(&validity, len, 0) {
                Ok(v) => Ok(export_fixed_size(ArrowBuffer::Values(buffer), len, 0, v.0, v.1)),
                Err(e) => Err(e),
            }
        },
        Array::Bool(a) => {
            let BoolArray { bits, validity } = a;
            match export_arrow_validity_buffer(&validity, bits.len, bits.offset) {
                Ok(v) => Ok(
                    export_fixed_size(
                        ArrowBuffer::Bytes(bits.bytes),
                        bits.len,
                        bits.offset,
                        v.0,
                        v.1,
                    ),
                ),
                Err(e) => Err(e),
            }
        },
        Array::ListView(a) => export_list_view(a),
        Array::FixedSizeList(a) => export_fixed_size_list(a),
        Array::VarBinView(a) => {
            if a.binary {
                export_binary(a)
            } else {
                export_string_views(a)
            }
        },
        _ => Err(VortexError::UnsupportedExport),
    }
}

/// Exports an array. Dictionaries and lists are exported before a canonical form could erase their
/// layout.
pub fn export_array(array: Array) -> (r: VortexResult<Exported>)
    requires
        array.wf(),
    ensures
        is_export(r, export_model(array)),
    decreases array, 3int,
{
    match array {
        Array::Dict(a) => export_dict(a),
        Array::Struct(a) => export_struct(a),
        Array::List(a) => export_list(a, ListChildExport::PreserveConcreteLayout),
        Array::FixedSizeList(a) => export_fixed_size_list(a),
        Array::ListView(a) => export_list_view(a),
        other => export_canonical(other),
    }
}

/// A null count lies between zero and the number of rows.
proof fn null_count_bounds(validity: &Validity, len: nat)
    ensures
        0 <= validity.null_count(len) <= len,
{
    crate::bits::all_counted_is_all_true(validity.entries(len));
}

/// An exported array has as many rows as the array that it comes from, between none and all of
/// them null, and is yet to be released. Only one of type null owns nothing and has nothing to
/// wait for.
pub proof fn exported_shape(a: Array)
    requires
        a.wf(),
        a !is ListView,
        a.spec_len() <= i64::MAX,
        export_model(a) is Ok,
    ensures
        ({
            let (m, sync_event) = export_model(a)->Ok_0;
            &&& m.length == a.spec_len()
            &&& 0 <= m.null_count <= m.length
            &&& m.release
            &&& m.private_data == !(a is Null)
            &&& sync_event == (if a is Null {
                SyncEvent::Null
            } else {
                SyncEvent::Recorded
            })
        }),
{
    let len = a.spec_len();
    match a {
        Array::Bool(a) => null_count_bounds(&a.validity, len),
        Array::Primitive(a) => null_count_bounds(&a.validity, len),
        Array::Decimal(a) => null_count_bounds(&a.validity, len),
        Array::VarBinView(a) => null_count_bounds(&a.validity, len),
        Array::Struct(a) => null_count_bounds(&a.validity, len),
        Array::List(a) => {
            reveal_with_fuel(export_model, 2);
            null_count_bounds(&a.validity, len);
        },
        Array::FixedSizeList(a) => null_count_bounds(&a.validity, len),
        Array::Extension(a) => null_count_bounds(&a.storage.validity, len),
        Array::Dict(a) => null_count_bounds(&a.codes.validity, len),
        _ => {},
    }
}

} // verus!
