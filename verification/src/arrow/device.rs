//! Exported arrays as a device hands them out, and their release.
use vstd::prelude::*;

use crate::arrow::array::{Array, ArrowArray, ArrowModel, Exported, SyncEvent};
use crate::arrow::export::{export_array, export_model};
use crate::arrow::laws;
use crate::error::{VortexError, VortexResult};

verus! {

/// The Arrow device type of CUDA devices.
pub const ARROW_DEVICE_CUDA: i32 = 2;

/// An exported array with the device that holds it.
#[derive(Debug, PartialEq, Eq)]
pub struct ArrowDeviceArray {
    pub array: ArrowArray,
    pub device_id: i64,
    pub device_type: i32,
    pub sync_event: SyncEvent,
    pub reserved: [i64; 3],
}

/// What an export to the CUDA device with an ordinal gives.
pub open spec fn is_device_export(
    array: Array,
    device_ordinal: usize,
    r: VortexResult<ArrowDeviceArray>,
) -> bool {
    match r {
        Ok(out) => {
            &&& export_model(array) == Ok::<(ArrowModel, SyncEvent), VortexError>(
                (out.array@, out.sync_event),
            )
            &&& out.device_id == device_ordinal as i64
            &&& out.device_type == ARROW_DEVICE_CUDA
            &&& out.reserved@ == seq![0i64, 0i64, 0i64]
        },
        Err(e) => export_model(array) == Err::<(ArrowModel, SyncEvent), VortexError>(e),
    }
}

/// Exports arrays in their nearest Arrow layout.
#[derive(Clone, Copy, Debug, PartialEq, Eq)]
pub struct CanonicalDeviceArrayExport;

impl CanonicalDeviceArrayExport {
    /// Exports an array to the CUDA device with the given ordinal.
    pub fn export_device_array(&self, array: Array, device_ordinal: usize) -> (r: VortexResult<
        ArrowDeviceArray,
    >)
        requires
            array.wf(),
        ensures
            is_device_export(array, device_ordinal, r),
    {
        match export_array(array) {
            Ok(exported) => Ok(
                ArrowDeviceArray {
                    array: exported.array,
                    device_id: device_ordinal as i64,
                    device_type: ARROW_DEVICE_CUDA,
                    sync_event: exported.sync_event,
                    reserved: [0, 0, 0],
                },
            ),
            Err(e) => Err(e),
        }
    }
}

/// What an array holds after its release. An array that was released before stays as it is. One
/// that owns data gives up its buffers, children and dictionary.
pub open spec fn released(m: ArrowModel) -> ArrowModel {
    if !m.release {
        m
    } else if m.private_data {
        ArrowModel {
            buffers: Seq::empty(),
            children: Seq::empty(),
            dictionary: None,
            release: false,
            private_data: false,
            ..m
        }
    } else {
        ArrowModel { release: false, ..m }
    }
}

/// Releasing twice is the same as releasing once.
pub proof fn release_is_idempotent(m: ArrowModel)
    ensures
        released(released(m)) == released(m),
        !released(m).release,
{
}

/// An owned array after its release, with what it had owned.
#[derive(Debug)]
pub struct Released {
    pub shell: ArrowArray,
    pub parts: ReleasedParts,
}

/// What an array had owned, each part after its own release.
#[derive(Debug)]
pub struct ReleasedParts {
    pub children: Vec<Released>,
    pub dictionary: Option<Box<Released>>,
}

/// Whether `r` is an owned array after its release, and everything below it was released with it.
pub open spec fn is_released(m: ArrowModel, r: Released) -> bool
    decreases m, 1int,
{
    &&& r.shell@ == released(m)
    &&& !r.shell.release
    &&& are_released_parts(m, r.parts)
}

/// Whether `parts` are the children and the dictionary that an array owned, each of them released
/// once together with everything below it. An array that was released before, or that owns nothing,
/// gives up none.
pub open spec fn are_released_parts(m: ArrowModel, parts: ReleasedParts) -> bool
    decreases m, 0int,
{
    if m.release && m.private_data {
        &&& parts.children@.len() == m.children.len()
        &&& forall|i: int|
            0 <= i < m.children.len() ==> is_released(m.children[i], #[trigger] parts.children@[i])
        &&& match m.dictionary {
            Some(d) => match parts.dictionary {
                Some(r) => is_released(*d, *r),
                None => false,
            },
            None => parts.dictionary is None,
        }
    } else {
        parts.children@.len() == 0 && parts.dictionary is None
    }
}

/// Releases an array, and hands out what it owned, each part released together with everything
/// below it: every child once, in order, and the dictionary once.
pub fn release_parts(array: &mut ArrowArray) -> (parts: ReleasedParts)
    ensures
        final(array)@ == released(old(array)@),
        are_released_parts(old(array)@, parts),
    decreases *old(array), 0int,
{
    let mut parts = ReleasedParts { children: Vec::new(), dictionary: None };
    if !array.release {
        return parts;
    }
    if array.private_data {
        array.private_data = false;
        let mut buffers = Vec::new();
        std::mem::swap(&mut array.buffers, &mut buffers);
        let mut children = Vec::new();
        std::mem::swap(&mut array.children, &mut children);
        parts.children = release_children(children);
        let dictionary = array.dictionary.take();
        parts.dictionary = release_dictionary(dictionary);
    }
    array.release = false;
    proof {
        assert(array@.buffers =~= released(old(array)@).buffers);
        assert(array@.children =~= released(old(array)@).children);
    }
    parts
}

/// Releases an array together with everything that it owns.
pub fn release_array(array: &mut ArrowArray)
    ensures
        final(array)@ == released(old(array)@),
{
    release_parts(array);
}

/// Releases every child, in order.
fn release_children(children: Vec<ArrowArray>) -> (out: Vec<Released>)
    ensures
        out@.len() == children@.len(),
        forall|i: int| 0 <= i < children@.len() ==> is_released(children@[i]@, #[trigger] out@[i]),
    decreases children, 2int,
{
    let ghost all = children@;
    let mut out: Vec<Released> = Vec::new();
    for child in it: children
        invariant
            it.seq() == all,
            all == children@,
            out@.len() == it.index(),
            forall|i: int| 0 <= i < it.index() ==> is_released(all[i]@, #[trigger] out@[i]),
    {
        let ghost n = it.index() as int;
        assert(child == all[n]);
        assert(decreases_to!(children => children@[n]));
        out.push(release_array_ptr(child));
    }
    out
}

/// Releases the dictionary, if there is one.
fn release_dictionary(dictionary: Option<Box<ArrowArray>>) -> (out: Option<Box<Released>>)
    ensures
        match dictionary {
            Some(d) => match out {
                Some(r) => is_released((*d)@, *r),
                None => false,
            },
            None => out is None,
        },
    decreases dictionary, 2int,
{
    match dictionary {
        Some(d) => Some(Box::new(release_array_ptr(*d))),
        None => None,
    }
}

/// Releases an owned array.
fn release_array_ptr(array: ArrowArray) -> (out: Released)
    ensures
        is_released(array@, out),
    decreases array, 1int,
{
    let mut shell = array;
    let parts = release_parts(&mut shell);
    assert(!shell@.release);
    Released { shell, parts }
}

/// A reader of what a device hands out finds every row of the array, and the device's own number
/// under the type that Arrow has for CUDA, which is 2. Export to a device succeeds on exactly the
/// arrays that Arrow can hold.
pub proof fn device_shows_the_array(
    array: Array,
    device_ordinal: usize,
    r: VortexResult<ArrowDeviceArray>,
)
    requires
        array.wf(),
        laws::lengths_fit(array),
        device_ordinal <= i64::MAX,
        is_device_export(array, device_ordinal, r),
    ensures
        r is Ok <==> laws::exportable(array),
        r matches Ok(out) ==> {
            &&& laws::shows(array, out.array)
            &&& out.device_id == device_ordinal
            &&& out.device_type == 2
            &&& out.reserved[0] == 0 && out.reserved[1] == 0 && out.reserved[2] == 0
        },
{
    let exported = match r {
        Ok(out) => Ok(Exported { array: out.array, sync_event: out.sync_event }),
        Err(e) => Err(e),
    };
    laws::exported_rows_are_read_back(array, exported);
    laws::export_succeeds_on_exportable(array, exported);
}

/// After its release an array is marked as released and owns nothing: what it owned, buffers,
/// children and dictionary, is gone. Its length, null count and offset are still those that it had.
/// An array that was released before is left alone.
pub proof fn released_arrays_own_nothing(m: ArrowModel)
    ensures
        !released(m).release,
        m.release && m.private_data ==> {
            &&& !released(m).private_data
            &&& released(m).buffers.len() == 0
            &&& released(m).children.len() == 0
            &&& released(m).dictionary is None
        },
        m.release && !m.private_data ==> {
            &&& released(m).buffers == m.buffers
            &&& released(m).children == m.children
            &&& released(m).dictionary == m.dictionary
            &&& !released(m).private_data
        },
        released(m).length == m.length,
        released(m).null_count == m.null_count,
        released(m).offset == m.offset,
        !m.release ==> released(m) == m,
{
}

/// Whether every array of a tree is yet to be released and owns what is below it.
pub open spec fn owned_throughout(m: ArrowModel) -> bool
    decreases m,
{
    &&& m.release
    &&& m.private_data
    &&& forall|i: int| 0 <= i < m.children.len() ==> owned_throughout(#[trigger] m.children[i])
    &&& match m.dictionary {
        Some(d) => owned_throughout(*d),
        None => true,
    }
}

/// Whether what was handed out is a whole tree of arrays, each of them released.
pub open spec fn released_throughout(m: ArrowModel, parts: ReleasedParts) -> bool
    decreases m,
{
    &&& parts.children@.len() == m.children.len()
    &&& forall|i: int|
        0 <= i < m.children.len() ==> !(#[trigger] parts.children@[i]).shell.release
            && parts.children@[i].shell.buffers@.len() == 0 && released_throughout(
            m.children[i],
            parts.children@[i].parts,
        )
    &&& match (m.dictionary, parts.dictionary) {
        (Some(d), Some(r)) => !r.shell.release && r.shell.buffers@.len() == 0
            && released_throughout(*d, r.parts),
        (None, None) => true,
        _ => false,
    }
}

/// Releasing an array releases every array below it, each of them once, and frees their buffers.
pub proof fn release_reaches_everything(m: ArrowModel, parts: ReleasedParts)
    requires
        owned_throughout(m),
        are_released_parts(m, parts),
    ensures
        released_throughout(m, parts),
    decreases m,
{
    reveal_with_fuel(is_released, 2);
    reveal_with_fuel(owned_throughout, 2);
    assert forall|i: int| 0 <= i < m.children.len() implies !(
    #[trigger] parts.children@[i]).shell.release && parts.children@[i].shell.buffers@.len() == 0
        && released_throughout(m.children[i], parts.children@[i].parts) by {
        assert(is_released(m.children[i], parts.children@[i]));
        assert(owned_throughout(m.children[i]));
        freed_shell(m.children[i], parts.children@[i]);
        release_reaches_everything(m.children[i], parts.children@[i].parts);
    }
    if let (Some(d), Some(r)) = (m.dictionary, parts.dictionary) {
        assert(owned_throughout(*d));
        freed_shell(*d, *r);
        release_reaches_everything(*d, r.parts);
    }
}

/// The shell of a released array that owned its data has no buffers.
proof fn freed_shell(m: ArrowModel, r: Released)
    requires
        m.release,
        m.private_data,
        is_released(m, r),
    ensures
        !r.shell.release,
        r.shell.buffers@.len() == 0,
        are_released_parts(m, r.parts),
{
    assert(r.shell@.buffers.len() == r.shell.buffers@.len());
}

} // verus!
