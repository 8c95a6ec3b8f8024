//! Take over run-end encoded arrays.
use vstd::prelude::*;

use crate::error::{VortexError, VortexResult};
use crate::primitive::{PrimitiveArray, ValueArray};
use crate::validity::{Mask, Validity};

verus! {

/// How many runs a scan of sorted indices may pass per index.
pub const SORTED_LINEAR_RUNS_PER_INDEX_THRESHOLD: usize = 16;

/// How many runs a scan of unsorted indices may pass per index.
pub const UNSORTED_LINEAR_RUNS_PER_INDEX_THRESHOLD: usize = 4;

/// The unsigned integer types in which run ends are stored.
pub trait UnsignedPType: Copy {
    /// The value as a number.
    spec fn as_nat(self) -> nat;

    /// The largest value of the type.
    spec fn max_nat() -> nat;

    /// `value` in this type, if it fits.
    fn from_usize(value: usize) -> (r: Option<Self>)
        ensures
            r is Some <==> value <= Self::max_nat(),
            r matches Some(x) ==> x.as_nat() == value,
    ;

    /// Whether `self` is at most `other`.
    fn at_most(self, other: Self) -> (b: bool)
        ensures
            b == (self.as_nat() <= other.as_nat()),
    ;

    /// Every value is at most the largest.
    proof fn bounded(self)
        ensures
            self.as_nat() <= Self::max_nat(),
    ;
}

/// Calls `num_traits::NumCast::from` for `u8`: the value, or `None` where it does not fit.
#[verifier::external_body]
fn cast_u8(value: usize) -> (r: Option<u8>)
    ensures
        r == (if value <= u8::MAX {
            Some(value as u8)
        } else {
            None
        }),
{
    num_traits::NumCast::from(value)
}

/// Calls `num_traits::NumCast::from` for `u16`: the value, or `None` where it does not fit.
#[verifier::external_body]
fn cast_u16(value: usize) -> (r: Option<u16>)
    ensures
        r == (if value <= u16::MAX {
            Some(value as u16)
        } else {
            None
        }),
{
    num_traits::NumCast::from(value)
}

/// Calls `num_traits::NumCast::from` for `u32`: the value, or `None` where it does not fit.
#[verifier::external_body]
fn cast_u32(value: usize) -> (r: Option<u32>)
    ensures
        r == (if value <= u32::MAX {
            Some(value as u32)
        } else {
            None
        }),
{
    num_traits::NumCast::from(value)
}

/// Calls `num_traits::NumCast::from` for `u64`: the value, which always fits.
#[verifier::external_body]
fn cast_u64(value: usize) -> (r: Option<u64>)
    ensures
        r == Some(value as u64),
{
    num_traits::NumCast::from(value)
}

impl UnsignedPType for u8 {
    open spec fn as_nat(self) -> nat {
        self as nat
    }

    open spec fn max_nat() -> nat {
        u8::MAX as nat
    }

    fn from_usize(value: usize) -> (r: Option<Self>) {
        cast_u8(value)
    }

    fn at_most(self, other: Self) -> (b: bool) {
        self <= other
    }

    proof fn bounded(self) {
    }
}

impl UnsignedPType for u16 {
    open spec fn as_nat(self) -> nat {
        self as nat
    }

    open spec fn max_nat() -> nat {
        u16::MAX as nat
    }

    fn from_usize(value: usize) -> (r: Option<Self>) {
        cast_u16(value)
    }

    fn at_most(self, other: Self) -> (b: bool) {
        self <= other
    }

    proof fn bounded(self) {
    }
}

impl UnsignedPType for u32 {
    open spec fn as_nat(self) -> nat {
        self as nat
    }

    open spec fn max_nat() -> nat {
        u32::MAX as nat
    }

    fn from_usize(value: usize) -> (r: Option<Self>) {
        cast_u32(value)
    }

    fn at_most(self, other: Self) -> (b: bool) {
        self <= other
    }

    proof fn bounded(self) {
    }
}

impl UnsignedPType for u64 {
    open spec fn as_nat(self) -> nat {
        self as nat
    }

    open spec fn max_nat() -> nat {
        u64::MAX as nat
    }

    fn from_usize(value: usize) -> (r: Option<Self>) {
        cast_u64(value)
    }

    fn at_most(self, other: Self) -> (b: bool) {
        self <= other
    }

    proof fn bounded(self) {
    }
}

/// Whether `run` is the run that holds the logical position `logical`: the first whose end lies
/// beyond it, or the last run where none does. With no runs at all it is run 0.
pub open spec fn holds_run<I: UnsignedPType>(ends: Seq<I>, logical: int, run: int) -> bool {
    if ends.len() == 0 {
        run == 0
    } else {
        &&& 0 <= run < ends.len()
        &&& forall|j: int| 0 <= j < run ==> (#[trigger] ends[j]).as_nat() <= logical
        &&& run == ends.len() - 1 || ends[run].as_nat() > logical
    }
}

/// Whether `physical` maps every index that `mask` selects to the run that holds it, and every
/// other index to 0.
pub open spec fn maps_to_runs<I: UnsignedPType>(
    ends: Seq<I>,
    offset: int,
    indices: Seq<usize>,
    mask: Seq<bool>,
    physical: Seq<u64>,
) -> bool {
    &&& physical.len() == indices.len()
    &&& forall|i: int|
        0 <= i < indices.len() ==> if mask[i] {
            holds_run(ends, indices[i] + offset, #[trigger] physical[i] as int)
        } else {
            physical[i] == 0
        }
}

/// The ends never decrease.
pub open spec fn sorted_ends<I: UnsignedPType>(ends: Seq<I>) -> bool {
    forall|i: int, j: int|
        0 <= i <= j < ends.len() ==> (#[trigger] ends[i]).as_nat() <= (#[trigger] ends[j]).as_nat()
}

/// No logical position is held by two runs: every strategy that finds the run holding a position
/// finds the same run.
pub proof fn run_is_unique<I: UnsignedPType>(ends: Seq<I>, logical: int, a: int, b: int)
    requires
        holds_run(ends, logical, a),
        holds_run(ends, logical, b),
    ensures
        a == b,
{
    if ends.len() > 0 && a < b {
        assert(ends[a].as_nat() <= logical);
    } else if ends.len() > 0 && b < a {
        assert(ends[b].as_nat() <= logical);
    }
}

/// Every logical position is held by a run.
pub proof fn run_exists<I: UnsignedPType>(ends: Seq<I>, logical: int)
    ensures
        holds_run(ends, logical, run_of(ends, logical)),
{
    if ends.len() == 0 {
        assert(holds_run(ends, logical, 0));
    } else {
        first_run_beyond(ends, logical, 0);
    }
}

/// Where no run before `from` reaches beyond a position, that run or a later one holds it.
proof fn first_run_beyond<I: UnsignedPType>(ends: Seq<I>, logical: int, from: int)
    requires
        0 <= from < ends.len(),
        forall|j: int| 0 <= j < from ==> (#[trigger] ends[j]).as_nat() <= logical,
    ensures
        exists|run: int| holds_run(ends, logical, run),
    decreases ends.len() - from,
{
    if from == ends.len() - 1 || ends[from].as_nat() > logical {
        assert(holds_run(ends, logical, from));
    } else {
        first_run_beyond(ends, logical, from + 1);
    }
}

/// Any two mappings of the same indices to runs are equal: the choice between a scan and a search
/// never shows in the result.
pub proof fn physical_indices_are_unique<I: UnsignedPType>(
    ends: Seq<I>,
    offset: int,
    indices: Seq<usize>,
    mask: Seq<bool>,
    a: Seq<u64>,
    b: Seq<u64>,
)
    requires
        maps_to_runs(ends, offset, indices, mask, a),
        maps_to_runs(ends, offset, indices, mask, b),
    ensures
        a == b,
{
    assert forall|i: int| 0 <= i < a.len() implies a[i] == b[i] by {
        if mask[i] {
            run_is_unique(ends, indices[i] + offset, a[i] as int, b[i] as int);
        }
    }
    assert(a =~= b);
}

/// The number of indices that `mask` selects among the first `n`.
pub open spec fn valid_count(mask: Seq<bool>, n: int) -> nat {
    crate::bits::count_true(mask.take(n))
}

/// The selected indices never decrease.
pub open spec fn valid_indices_sorted(indices: Seq<usize>, mask: Seq<bool>) -> bool {
    forall|i: int, j: int|
        0 <= i < j < indices.len() && #[trigger] mask[i] && #[trigger] mask[j] ==> indices[i]
            <= indices[j]
}

/// Whether the run that ends at `run_end` lies wholly at or before `logical_idx`.
pub fn run_end_le_logical_idx<I: UnsignedPType>(run_end: I, logical_idx: usize) -> (b: bool)
    ensures
        b == (run_end.as_nat() <= logical_idx),
{
    proof {
        run_end.bounded();
    }
    match I::from_usize(logical_idx) {
        Some(logical) => run_end.at_most(logical),
        None => true,
    }
}

/// Moves `run_idx` forward to the first run, from where it stands, that ends beyond `logical_idx`,
/// or to the last run where none does. Beyond the runs it stays where it is.
pub fn advance_run<I: UnsignedPType>(ends: &[I], run_idx: &mut usize, logical_idx: usize)
    ensures
        *old(run_idx) <= *final(run_idx),
        *final(run_idx) == *old(run_idx) || *final(run_idx) < ends@.len(),
        forall|j: int|
            *old(run_idx) <= j < *final(run_idx) ==> (#[trigger] ends@[j]).as_nat() <= logical_idx,
        *final(run_idx) + 1 >= ends@.len() || ends@[*final(run_idx) as int].as_nat() > logical_idx,
{
    while *run_idx < ends.len() && *run_idx + 1 < ends.len() && run_end_le_logical_idx(
        ends[*run_idx],
        logical_idx,
    )
        invariant
            *old(run_idx) <= *run_idx,
            *run_idx == *old(run_idx) || *run_idx < ends@.len(),
            forall|j: int|
                *old(run_idx) <= j < *run_idx ==> (#[trigger] ends@[j]).as_nat() <= logical_idx,
        decreases ends@.len() - *run_idx,
    {
        *run_idx = *run_idx + 1;
    }
}

/// Whether a scan over `ends_len` runs is worth it for `valid_count` indices.
pub fn prefer_linear_scan(
    ends_len: usize,
    valid_count: usize,
    runs_per_index_threshold: usize,
) -> (b: bool)
    ensures
        b == (ends_len <= valid_count * runs_per_index_threshold),
{
    match valid_count.checked_mul(runs_per_index_threshold) {
        Some(runs) => ends_len <= runs,
        None => true,
    }
}

/// The number of selected indices, and whether they never decrease.
pub fn valid_indices_stats(indices: &[usize], validity_mask: &Mask) -> (stats: (usize, bool))
    requires
        validity_mask.wf(),
        validity_mask@.len() == indices@.len(),
    ensures
        stats.0 == valid_count(validity_mask@, indices@.len() as int),
        stats.0 <= indices@.len(),
        stats.1 == valid_indices_sorted(indices@, validity_mask@),
{
    let mut count: usize = 0;
    let mut previous_idx: Option<usize> = None;
    let ghost mut previous_pos: int = -1;
    let mut sorted: bool = true;
    let mut i: usize = 0;
    while i < indices.len()
        invariant
            validity_mask.wf(),
            validity_mask@.len() == indices@.len(),
            i <= indices@.len(),
            count <= i,
            count == valid_count(validity_mask@, i as int),
            previous_idx is None ==> forall|j: int| 0 <= j < i ==> !#[trigger] validity_mask@[j],
            previous_idx matches Some(p) ==> 0 <= previous_pos < i && validity_mask@[previous_pos]
                && indices@[previous_pos] == p,
            forall|j: int| previous_pos < j < i ==> !#[trigger] validity_mask@[j],
            sorted == (forall|a: int, b: int|
                0 <= a < b < i && #[trigger] validity_mask@[a] && #[trigger] validity_mask@[b]
                    ==> indices@[a] <= indices@[b]),
        decreases indices@.len() - i,
    {
        assert(validity_mask@.take(i + 1).drop_last() =~= validity_mask@.take(i as int));
        if validity_mask.value(i) {
            let idx: usize = indices[i];
            let ghost was_sorted = sorted;
            if let Some(previous) = previous_idx {
                if previous > idx {
                    sorted = false;
                }
            }
            proof {
                if previous_idx is Some && was_sorted && sorted {
                    assert forall|a: int, b: int|
                        0 <= a < b < i + 1 && #[trigger] validity_mask@[a]
                            && #[trigger] validity_mask@[b] implies indices@[a] <= indices@[b] by {
                        if b == i && a < previous_pos {
                            assert(indices@[a] <= indices@[previous_pos]);
                        }
                    }
                }
                previous_pos = i as int;
            }
            previous_idx = Some(idx);
            count = count + 1;
        }
        i = i + 1;
    }
    (count, sorted)
}

/// `n` zeros.
fn zeroed(n: usize) -> (v: Vec<u64>)
    ensures
        v@ == Seq::new(n as nat, |i: int| 0u64),
{
    let v: Vec<u64> = vec![0u64; n];
    assert(v@ =~= Seq::new(n as nat, |i: int| 0u64));
    v
}

/// The run of each selected index, in one pass over the runs. The selected indices never decrease.
pub fn physical_indices_linear_sorted<I: UnsignedPType>(
    ends: &[I],
    offset: usize,
    indices: &[usize],
    validity_mask: &Mask,
) -> (physical: Vec<u64>)
    requires
        validity_mask.wf(),
        validity_mask@.len() == indices@.len(),
        valid_indices_sorted(indices@, validity_mask@),
        forall|i: int|
            0 <= i < indices@.len() && validity_mask@[i] ==> #[trigger] indices@[i] + offset
                <= usize::MAX,
    ensures
        maps_to_runs(ends@, offset as int, indices@, validity_mask@, physical@),
{
    let mut physical: Vec<u64> = zeroed(indices.len());
    let mut run_idx: usize = 0;
    let mut i: usize = 0;
    while i < indices.len()
        invariant
            validity_mask.wf(),
            validity_mask@.len() == indices@.len(),
            valid_indices_sorted(indices@, validity_mask@),
            forall|j: int|
                0 <= j < indices@.len() && validity_mask@[j] ==> #[trigger] indices@[j] + offset
                    <= usize::MAX,
            i <= indices@.len(),
            physical@.len() == indices@.len(),
            run_idx == 0 || run_idx < ends@.len(),
            forall|k: int, j: int|
                0 <= k < run_idx && i <= j < indices@.len() && #[trigger] validity_mask@[j]
                    ==> (#[trigger] ends@[k]).as_nat() <= indices@[j] + offset,
            forall|j: int|
                0 <= j < i ==> if validity_mask@[j] {
                    holds_run(ends@, indices@[j] + offset, #[trigger] physical@[j] as int)
                } else {
                    physical@[j] == 0
                },
            forall|j: int| i <= j < indices@.len() ==> #[trigger] physical@[j] == 0,
        decreases indices@.len() - i,
    {
        if validity_mask.value(i) {
            let logical_idx: usize = indices[i] + offset;
            advance_run(ends, &mut run_idx, logical_idx);
            physical.set(i, run_idx as u64);
        }
        i = i + 1;
    }
    physical
}

/// Lexicographic order of pairs.
pub open spec fn pair_le(a: (usize, usize), b: (usize, usize)) -> bool {
    a.0 < b.0 || (a.0 == b.0 && a.1 <= b.1)
}

/// Calls `<[(usize, usize)]>::sort_unstable`: the same pairs, in ascending lexicographic order.
#[verifier::external_body]
fn sort_pairs(pairs: &mut Vec<(usize, usize)>)
    ensures
        final(pairs)@.to_multiset() == old(pairs)@.to_multiset(),
        forall|i: int, j: int|
            0 <= i <= j < final(pairs)@.len() ==> pair_le(
                #[trigger] final(pairs)@[i],
                #[trigger] final(pairs)@[j],
            ),
{
    pairs.sort_unstable();
}

/// The run of each selected index, in one pass over the runs after ordering the indices.
/// `valid_count` is how many indices are expected to be selected; it only sizes a buffer.
pub fn physical_indices_linear_unsorted<I: UnsignedPType>(
    ends: &[I],
    offset: usize,
    indices: &[usize],
    validity_mask: &Mask,
    valid_count: usize,
) -> (physical: Vec<u64>)
    requires
        validity_mask.wf(),
        validity_mask@.len() == indices@.len(),
        forall|i: int|
            0 <= i < indices@.len() && validity_mask@[i] ==> #[trigger] indices@[i] + offset
                <= usize::MAX,
    ensures
        maps_to_runs(ends@, offset as int, indices@, validity_mask@, physical@),
{
    let capacity: usize = if valid_count < indices.len() {
        valid_count
    } else {
        indices.len()
    };
    let mut pairs: Vec<(usize, usize)> = Vec::with_capacity(capacity);
    let mut i: usize = 0;
    while i < indices.len()
        invariant
            validity_mask.wf(),
            validity_mask@.len() == indices@.len(),
            i <= indices@.len(),
            forall|k: int|
                0 <= k < pairs@.len() ==> 0 <= (#[trigger] pairs@[k]).1 < i
                    && validity_mask@[pairs@[k].1 as int] && pairs@[k].0
                    == indices@[pairs@[k].1 as int],
            forall|j: int|
                0 <= j < i && #[trigger] validity_mask@[j] ==> pairs@.contains(
                    (indices@[j], j as usize),
                ),
        decreases indices@.len() - i,
    {
        if validity_mask.value(i) {
            let ghost before = pairs@;
            pairs.push((indices[i], i));
            proof {
                assert(pairs@[before.len() as int] == (indices@[i as int], i));
                assert forall|j: int| 0 <= j < i + 1 && #[trigger] validity_mask@[j] implies pairs@.contains(
                    (indices@[j], j as usize),
                ) by {
                    if j < i {
                        let k = choose|k: int|
                            0 <= k < before.len() && before[k] == (indices@[j], j as usize);
                        assert(pairs@[k] == (indices@[j], j as usize));
                    }
                }
            }
        }
        i = i + 1;
    }
    let ghost gathered = pairs@;
    sort_pairs(&mut pairs);
    proof {
        broadcast use vstd::seq_lib::group_to_multiset_ensures;

        assert forall|x: (usize, usize)| gathered.contains(x) == #[trigger] pairs@.contains(x) by {
            assert(gathered.contains(x) == (gathered.to_multiset().count(x) > 0));
            assert(pairs@.contains(x) == (pairs@.to_multiset().count(x) > 0));
        }
        assert forall|k: int| 0 <= k < pairs@.len() implies 0 <= (#[trigger] pairs@[k]).1
            < indices@.len() && validity_mask@[pairs@[k].1 as int] && pairs@[k].0
            == indices@[pairs@[k].1 as int] by {
            assert(pairs@.contains(pairs@[k]));
            assert(gathered.contains(pairs@[k]));
        }
        assert forall|j: int|
            0 <= j < indices@.len() && #[trigger] validity_mask@[j] implies pairs@.contains(
            (indices@[j], j as usize),
        ) by {
            assert(gathered.contains((indices@[j], j as usize)));
        }
    }
    let mut physical: Vec<u64> = zeroed(indices.len());
    let mut run_idx: usize = 0;
    let mut p: usize = 0;
    while p < pairs.len()
        invariant
            validity_mask@.len() == indices@.len(),
            forall|j: int|
                0 <= j < indices@.len() && validity_mask@[j] ==> #[trigger] indices@[j] + offset
                    <= usize::MAX,
            forall|k: int|
                0 <= k < pairs@.len() ==> 0 <= (#[trigger] pairs@[k]).1 < indices@.len()
                    && validity_mask@[pairs@[k].1 as int] && pairs@[k].0
                    == indices@[pairs@[k].1 as int],
            forall|a: int, b: int|
                0 <= a <= b < pairs@.len() ==> pair_le(#[trigger] pairs@[a], #[trigger] pairs@[b]),
            p <= pairs@.len(),
            physical@.len() == indices@.len(),
            run_idx == 0 || run_idx < ends@.len(),
            forall|k: int, j: int|
                0 <= k < run_idx && p <= j < pairs@.len() ==> (#[trigger] ends@[k]).as_nat() <= (
                #[trigger] pairs@[j]).0 + offset,
            forall|j: int|
                0 <= j < p ==> holds_run(
                    ends@,
                    (#[trigger] pairs@[j]).0 + offset,
                    physical@[pairs@[j].1 as int] as int,
                ),
            forall|j: int|
                0 <= j < indices@.len() && !validity_mask@[j] ==> #[trigger] physical@[j] == 0,
        decreases pairs@.len() - p,
    {
        let idx: usize = pairs[p].0;
        let idx_pos: usize = pairs[p].1;
        let logical_idx: usize = idx + offset;
        advance_run(ends, &mut run_idx, logical_idx);
        physical.set(idx_pos, run_idx as u64);
        p = p + 1;
    }
    proof {
        assert forall|j: int| 0 <= j < indices@.len() && validity_mask@[j] implies holds_run(
            ends@,
            indices@[j] + offset,
            #[trigger] physical@[j] as int,
        ) by {
            let k = choose|k: int| 0 <= k < pairs@.len() && pairs@[k] == (indices@[j], j as usize);
            assert(pairs@[k].1 == j);
        }
    }
    physical
}

/// The run that holds `logical_idx`, by binary search.
pub fn physical_index_binary<I: UnsignedPType>(ends: &[I], logical_idx: usize) -> (run: usize)
    requires
        ends@.len() > 0,
        sorted_ends(ends@),
    ensures
        holds_run(ends@, logical_idx as int, run as int),
{
    let last: usize = ends.len() - 1;
    let index: usize = match I::from_usize(logical_idx) {
        Some(logical) => {
            let mut lo: usize = 0;
            let mut hi: usize = ends.len();
            while lo < hi
                invariant
                    lo <= hi <= ends@.len(),
                    logical.as_nat() == logical_idx,
                    sorted_ends(ends@),
                    forall|j: int| 0 <= j < lo ==> (#[trigger] ends@[j]).as_nat() <= logical_idx,
                    forall|j: int|
                        hi <= j < ends@.len() ==> (#[trigger] ends@[j]).as_nat() > logical_idx,
                decreases hi - lo,
            {
                let mid: usize = lo + (hi - lo) / 2;
                if ends[mid].at_most(logical) {
                    lo = mid + 1;
                } else {
                    hi = mid;
                }
            }
            lo
        },
        None => {
            proof {
                assert forall|j: int| 0 <= j < ends@.len() implies (#[trigger] ends@[j]).as_nat()
                    <= logical_idx by {
                    ends@[j].bounded();
                }
            }
            ends.len()
        },
    };
    if index < last {
        index
    } else {
        last
    }
}

/// The run of each selected index, by one binary search per index.
pub fn physical_indices_binary<I: UnsignedPType>(
    ends: &[I],
    offset: usize,
    indices: &[usize],
    validity_mask: &Mask,
) -> (physical: Vec<u64>)
    requires
        validity_mask.wf(),
        validity_mask@.len() == indices@.len(),
        ends@.len() > 0,
        sorted_ends(ends@),
        forall|i: int|
            0 <= i < indices@.len() && validity_mask@[i] ==> #[trigger] indices@[i] + offset
                <= usize::MAX,
    ensures
        maps_to_runs(ends@, offset as int, indices@, validity_mask@, physical@),
{
    let mut physical: Vec<u64> = zeroed(indices.len());
    let mut i: usize = 0;
    while i < indices.len()
        invariant
            validity_mask.wf(),
            validity_mask@.len() == indices@.len(),
            ends@.len() > 0,
            sorted_ends(ends@),
            forall|j: int|
                0 <= j < indices@.len() && validity_mask@[j] ==> #[trigger] indices@[j] + offset
                    <= usize::MAX,
            i <= indices@.len(),
            physical@.len() == indices@.len(),
            forall|j: int|
                0 <= j < i ==> if validity_mask@[j] {
                    holds_run(ends@, indices@[j] + offset, #[trigger] physical@[j] as int)
                } else {
                    physical@[j] == 0
                },
            forall|j: int| i <= j < indices@.len() ==> #[trigger] physical@[j] == 0,
        decreases indices@.len() - i,
    {
        if validity_mask.value(i) {
            let logical_idx: usize = indices[i] + offset;
            let run: usize = physical_index_binary(ends, logical_idx);
            physical.set(i, run as u64);
        }
        i = i + 1;
    }
    physical
}

/// The run of each selected index, and 0 for every other, by whichever strategy is cheapest.
pub fn physical_indices<I: UnsignedPType>(
    ends: &[I],
    offset: usize,
    indices: &[usize],
    validity_mask: &Mask,
) -> (physical: Vec<u64>)
    requires
        validity_mask.wf(),
        validity_mask@.len() == indices@.len(),
        sorted_ends(ends@),
        forall|i: int|
            0 <= i < indices@.len() && validity_mask@[i] ==> #[trigger] indices@[i] + offset
                <= usize::MAX,
    ensures
        maps_to_runs(ends@, offset as int, indices@, validity_mask@, physical@),
{
    let stats = valid_indices_stats(indices, validity_mask);
    let valid_count: usize = stats.0;
    if valid_count == 0 {
        proof {
            assert(validity_mask@.take(indices@.len() as int) =~= validity_mask@);
            crate::bits::none_counted_is_all_false(validity_mask@);
        }
        return zeroed(indices.len());
    }
    if stats.1 && prefer_linear_scan(
        ends.len(),
        valid_count,
        SORTED_LINEAR_RUNS_PER_INDEX_THRESHOLD,
    ) {
        return physical_indices_linear_sorted(ends, offset, indices, validity_mask);
    }
    if prefer_linear_scan(ends.len(), valid_count, UNSORTED_LINEAR_RUNS_PER_INDEX_THRESHOLD) {
        return physical_indices_linear_unsorted(ends, offset, indices, validity_mask, valid_count);
    }
    physical_indices_binary(ends, offset, indices, validity_mask)
}

/// The run that holds the logical position `logical`.
pub open spec fn run_of<I: UnsignedPType>(ends: Seq<I>, logical: int) -> int {
    choose|run: int| holds_run(ends, logical, run)
}

/// An array stored as runs: run `r` repeats value `r` up to the logical position `ends[r]`. The
/// array shows the `length` positions from `offset` on.
#[derive(Debug, PartialEq, Eq)]
pub struct RunEndArray<I, V> {
    pub ends: Vec<I>,
    pub values: ValueArray<V>,
    pub offset: usize,
    pub length: usize,
}

impl<I: UnsignedPType, V: Copy> RunEndArray<I, V> {
    /// One value per run, ends in order, and the last run reaching the last position.
    pub open spec fn wf(&self) -> bool {
        &&& self.values.wf()
        &&& self.values@.len() == self.ends@.len()
        &&& sorted_ends(self.ends@)
        &&& self.offset + self.length <= usize::MAX
        &&& self.length > 0 ==> self.ends@.len() > 0 && self.offset + self.length
            <= self.ends@.last().as_nat()
    }

    /// The entry at logical position `i`, counted from the start of the array: the value of the
    /// run that holds it, or `None` for a null.
    pub open spec fn entry(&self, i: int) -> Option<V> {
        self.values@[run_of(self.ends@, i + self.offset)]
    }
}

impl<I: UnsignedPType, V: Copy> View for RunEndArray<I, V> {
    type V = Seq<Option<V>>;

    open spec fn view(&self) -> Seq<Option<V>> {
        Seq::new(self.length as nat, |i: int| self.entry(i))
    }
}

/// The entries of `values` at `indices`, null where the index is null.
fn take_values<V: Copy>(
    values: &ValueArray<V>,
    indices: &Vec<u64>,
    validity: &Validity,
) -> (taken: ValueArray<V>)
    requires
        values.wf(),
        validity.wf(indices@.len()),
        forall|i: int|
            0 <= i < indices@.len() && validity.valid_at(i) ==> #[trigger] indices@[i]
                < values@.len(),
    ensures
        taken.wf(),
        taken@ == Seq::new(
            indices@.len(),
            |i: int|
                if validity.valid_at(i) {
                    values@[indices@[i] as int]
                } else {
                    None
                },
        ),
        taken.nullable == (values.nullable || validity.nullable()),
{
    let mut entries: Vec<Option<V>> = Vec::new();
    let mut i: usize = 0;
    while i < indices.len()
        invariant
            values.wf(),
            validity.wf(indices@.len()),
            forall|j: int|
                0 <= j < indices@.len() && validity.valid_at(j) ==> #[trigger] indices@[j]
                    < values@.len(),
            i <= indices@.len(),
            entries@.len() == i,
            forall|j: int|
                0 <= j < i ==> #[trigger] entries@[j] == (if validity.valid_at(j) {
                    values@[indices@[j] as int]
                } else {
                    None
                }),
        decreases indices@.len() - i,
    {
        if validity.is_valid(i) {
            let run: u64 = indices[i];
            assert(indices@[i as int] < values@.len() <= usize::MAX) by {
                assert(values.entries.len() <= usize::MAX);
            }
            entries.push(values.entries[run as usize]);
        } else {
            entries.push(None);
        }
        i = i + 1;
    }
    let taken = ValueArray { entries, nullable: values.nullable || validity.is_nullable() };
    assert(taken@ =~= Seq::new(
        indices@.len(),
        |i: int|
            if validity.valid_at(i) {
                values@[indices@[i] as int]
            } else {
                None
            },
    ));
    taken
}

fn take_indices_unchecked_with_mask<I: UnsignedPType, V: Copy>(
    array: &RunEndArray<I, V>,
    indices: &[usize],
    validity: &Validity,
    validity_mask: &Mask,
) -> (taken: VortexResult<ValueArray<V>>)
    requires
        array.wf(),
        validity.wf(indices@.len()),
        validity_mask.wf(),
        validity_mask@ == validity.entries(indices@.len()),
        forall|i: int|
            0 <= i < indices@.len() && validity.valid_at(i) ==> #[trigger] indices@[i]
                + array.offset <= usize::MAX && array.ends@.len() > 0,
    ensures
        taken is Ok,
        taken->Ok_0.wf(),
        taken->Ok_0@ == taken_entries(array, indices@, validity),
        taken->Ok_0.nullable == (array.values.nullable || validity.nullable()),
{
    let physical: Vec<u64> = physical_indices(
        array.ends.as_slice(),
        array.offset,
        indices,
        validity_mask,
    );
    proof {
        assert forall|i: int| 0 <= i < physical@.len() && validity.valid_at(i) implies #[trigger] physical@[i]
            < array.values@.len() && physical@[i] == run_of(
            array.ends@,
            indices@[i] + array.offset,
        ) by {
            assert(validity_mask@[i]);
            assert(indices@[i] + array.offset <= usize::MAX);
            assert(holds_run(array.ends@, indices@[i] + array.offset, physical@[i] as int));
            run_is_unique(
                array.ends@,
                indices@[i] + array.offset,
                physical@[i] as int,
                run_of(array.ends@, indices@[i] + array.offset),
            );
        }
    }
    let taken = take_values(&array.values, &physical, validity);
    assert(taken@ =~= taken_entries(array, indices@, validity));
    Ok(taken)
}

/// What taking `indices` from `array` yields: the entry at each valid index, and null elsewhere.
pub open spec fn taken_entries<I: UnsignedPType, V: Copy>(
    array: &RunEndArray<I, V>,
    indices: Seq<usize>,
    validity: &Validity,
) -> Seq<Option<V>> {
    Seq::new(
        indices.len(),
        |i: int|
            if validity.valid_at(i) {
                array.entry(indices[i] as int)
            } else {
                None
            },
    )
}

/// The entries of `array` at `indices`, null where `validity` marks the index null. The indices
/// are not checked against the array's length: one beyond the last run yields the last run's
/// value.
pub fn take_indices_unchecked<I: UnsignedPType, V: Copy>(
    array: &RunEndArray<I, V>,
    indices: &[usize],
    validity: &Validity,
) -> (taken: VortexResult<ValueArray<V>>)
    requires
        array.wf(),
        validity.wf(indices@.len()),
        forall|i: int|
            0 <= i < indices@.len() && validity.valid_at(i) ==> #[trigger] indices@[i]
                + array.offset <= usize::MAX && array.ends@.len() > 0,
    ensures
        taken is Ok,
        taken->Ok_0.wf(),
        taken->Ok_0@ == taken_entries(array, indices@, validity),
        taken->Ok_0.nullable == (array.values.nullable || validity.nullable()),
{
    let validity_mask = validity.execute_mask(indices.len());
    take_indices_unchecked_with_mask(array, indices, validity, &validity_mask)
}

/// The run-end encoding.
#[derive(Clone, Copy, Debug, PartialEq, Eq)]
pub struct RunEnd;

/// Whether index `i` is valid and lies outside an array of `len` entries.
pub open spec fn out_of_bounds_at(indices: &PrimitiveArray, len: int, i: int) -> bool {
    indices.validity.valid_at(i) && indices.buffer.usize_at(i) >= len
}

/// What `RunEnd::take` gives: the entry at each valid index and null elsewhere, or the error of the
/// first valid index outside the array.
pub open spec fn take_outcome<I: UnsignedPType, V: Copy>(
    array: &RunEndArray<I, V>,
    indices: &PrimitiveArray,
    taken: VortexResult<Option<ValueArray<V>>>,
) -> bool {
    match taken {
        Ok(Some(out)) => {
            &&& out.wf()
            &&& out@ == Seq::new(
                indices.buffer.spec_len(),
                |i: int|
                    if indices.validity.valid_at(i) {
                        array@[indices.buffer.usize_at(i) as int]
                    } else {
                        None
                    },
            )
            &&& out.nullable == (array.values.nullable || indices.validity.nullable())
            &&& forall|i: int|
                0 <= i < indices.buffer.spec_len() ==> !#[trigger] out_of_bounds_at(
                    indices,
                    array.length as int,
                    i,
                )
        },
        Ok(None) => false,
        Err(e) => exists|i: int|
            {
                &&& 0 <= i < indices.buffer.spec_len()
                &&& #[trigger] out_of_bounds_at(indices, array.length as int, i)
                &&& forall|j: int|
                    0 <= j < i ==> !#[trigger] out_of_bounds_at(
                        indices,
                        array.length as int,
                        j,
                    )
                &&& e == (VortexError::OutOfBounds {
                    index: indices.buffer.usize_at(i),
                    first: 0,
                    stop: array.length,
                })
            },
    }
}

impl RunEnd {
    /// The entries of `array` at `indices`, null where the index is null. The first valid index
    /// outside the array is an error; the value under a null index is never looked at.
    pub fn take<I: UnsignedPType, V: Copy>(
        array: &RunEndArray<I, V>,
        indices: &PrimitiveArray,
    ) -> (taken: VortexResult<Option<ValueArray<V>>>)
        requires
            array.wf(),
            indices.wf(),
            indices.buffer.integer(),
        ensures
            take_outcome(array, indices, taken),
    {
        let n: usize = indices.buffer.len();
        let indices_mask = indices.validity.execute_mask(n);
        let mut checked: Vec<usize> = Vec::new();
        let mut i: usize = 0;
        while i < n
            invariant
                n == indices.buffer.spec_len(),
                indices.wf(),
                indices_mask.wf(),
                indices_mask@ == indices.validity.entries(n as nat),
                i <= n,
                checked@.len() == i,
                forall|j: int|
                    0 <= j < i ==> !#[trigger] out_of_bounds_at(indices, array.length as int, j),
                forall|j: int|
                    0 <= j < i ==> #[trigger] checked@[j] == (if indices.validity.valid_at(j) {
                        indices.buffer.usize_at(j)
                    } else {
                        0
                    }),
            decreases n - i,
        {
            if !indices_mask.value(i) {
                checked.push(0);
            } else {
                let usize_idx: usize = indices.buffer.as_usize(i);
                if usize_idx >= array.length {
                    assert(out_of_bounds_at(indices, array.length as int, i as int));
                    return Err(
                        VortexError::OutOfBounds { index: usize_idx, first: 0, stop: array.length },
                    );
                }
                checked.push(usize_idx);
            }
            i = i + 1;
        }
        proof {
            assert forall|j: int| 0 <= j < n && indices.validity.valid_at(j) implies #[trigger] checked@[j]
                + array.offset <= usize::MAX && array.ends@.len() > 0 by {
                assert(!out_of_bounds_at(indices, array.length as int, j));
            }
        }
        match take_indices_unchecked_with_mask(
            array,
            checked.as_slice(),
            &indices.validity,
            &indices_mask,
        ) {
            Ok(out) => {
                proof {
                    assert forall|j: int| 0 <= j < n && indices.validity.valid_at(j) implies out@[j]
                        == array@[indices.buffer.usize_at(j) as int] by {
                        assert(!out_of_bounds_at(indices, array.length as int, j));
                    }
                    assert(out@ =~= Seq::new(
                        indices.buffer.spec_len(),
                        |i: int|
                            if indices.validity.valid_at(i) {
                                array@[indices.buffer.usize_at(i) as int]
                            } else {
                                None
                            },
                    ));
                }
                Ok(Some(out))
            },
            Err(e) => Err(e),
        }
    }
}

/// Whether run `r` covers the logical position `p`: it starts, where the run before it ends, at or
/// before `p`, and ends beyond it.
pub open spec fn covers<I: UnsignedPType>(ends: Seq<I>, p: int, r: int) -> bool {
    &&& 0 <= r < ends.len()
    &&& r > 0 ==> ends[r - 1].as_nat() <= p
    &&& p < ends[r].as_nat()
}

/// A position that a run covers is held by that run.
proof fn covering_run_holds<I: UnsignedPType>(ends: Seq<I>, p: int, r: int)
    requires
        sorted_ends(ends),
        covers(ends, p, r),
    ensures
        holds_run(ends, p, r),
        run_of(ends, p) == r,
{
    assert forall|j: int| 0 <= j < r implies (#[trigger] ends[j]).as_nat() <= p by {
        assert(ends[j].as_nat() <= ends[r - 1].as_nat());
    }
    assert(holds_run(ends, p, r));
    run_exists(ends, p);
    run_is_unique(ends, p, r, run_of(ends, p));
}

/// Every entry is the value of the run that covers its position.
pub proof fn entry_is_value_of_its_run<I: UnsignedPType, V: Copy>(
    array: &RunEndArray<I, V>,
    i: int,
    r: int,
)
    requires
        array.wf(),
        0 <= i < array.length,
        covers(array.ends@, i + array.offset, r),
    ensures
        array@.len() == array.length,
        array@[i] == array.values@[r],
{
    covering_run_holds(array.ends@, i + array.offset, r);
}

/// Every position of an array is covered by a run.
pub proof fn every_position_is_covered<I: UnsignedPType, V: Copy>(array: &RunEndArray<I, V>, i: int)
    requires
        array.wf(),
        0 <= i < array.length,
    ensures
        exists|r: int| #[trigger] covers(array.ends@, i + array.offset, r),
{
    let p = i + array.offset;
    run_exists(array.ends@, p);
    let r = run_of(array.ends@, p);
    assert(array.ends@[array.ends@.len() - 1].as_nat() > p);
    assert(covers(array.ends@, p, r));
}

/// Whether index `i` is null or a position of the array.
pub open spec fn within<I: UnsignedPType, V: Copy>(
    array: &RunEndArray<I, V>,
    indices: &PrimitiveArray,
    i: int,
) -> bool {
    indices.validity.valid_at(i) ==> 0 <= indices.buffer.int_at(i) < array.length
}

/// Taking succeeds where every valid index is a position of the array. The result has an entry for
/// each index: the value of the run that covers the position, or null for a null index. It may hold
/// nulls exactly where the values or the indices may.
pub proof fn taken_entries_are_values_of_runs<I: UnsignedPType, V: Copy>(
    array: &RunEndArray<I, V>,
    indices: &PrimitiveArray,
    taken: VortexResult<Option<ValueArray<V>>>,
)
    requires
        array.wf(),
        forall|i: int| 0 <= i < indices.buffer.spec_len() ==> #[trigger] within(array, indices, i),
        take_outcome(array, indices, taken),
    ensures
        taken is Ok,
        taken->Ok_0 is Some,
        ({
            let out = taken->Ok_0->Some_0;
            &&& out.entries@.len() == indices.buffer.spec_len()
            &&& out.nullable <==> array.values.nullable || !(indices.validity is NonNullable)
            &&& forall|i: int|
                0 <= i < indices.buffer.spec_len() && !indices.validity.valid_at(i)
                    ==> #[trigger] out.entries@[i] is None
            &&& forall|i: int, r: int|
                0 <= i < indices.buffer.spec_len() && indices.validity.valid_at(i) && #[trigger] covers(
                    array.ends@,
                    indices.buffer.int_at(i) + array.offset,
                    r,
                ) ==> #[trigger] out.entries@[i] == array.values@[r]
        }),
{
    assert forall|i: int| 0 <= i < indices.buffer.spec_len() implies !#[trigger] out_of_bounds_at(
        indices,
        array.length as int,
        i,
    ) by {
        assert(within(array, indices, i));
        if indices.validity.valid_at(i) {
            cast_keeps_positions(indices, i);
        }
    }
    let out = taken->Ok_0->Some_0;
    assert forall|i: int, r: int|
        0 <= i < indices.buffer.spec_len() && indices.validity.valid_at(i) && #[trigger] covers(
            array.ends@,
            indices.buffer.int_at(i) + array.offset,
            r,
        ) implies #[trigger] out.entries@[i] == array.values@[r] by {
        assert(within(array, indices, i));
        cast_keeps_positions(indices, i);
        entry_is_value_of_its_run(array, indices.buffer.int_at(i), r);
        assert(out@[i] == array@[indices.buffer.usize_at(i) as int]);
    }
}

/// An index that is a position of some array keeps its value as one.
proof fn cast_keeps_positions(indices: &PrimitiveArray, i: int)
    requires
        0 <= indices.buffer.int_at(i) <= usize::MAX,
    ensures
        indices.buffer.usize_at(i) == indices.buffer.int_at(i),
{
}

/// The first valid index beyond the array is refused by name, whatever follows it.
pub proof fn first_index_beyond_is_refused<I: UnsignedPType, V: Copy>(
    array: &RunEndArray<I, V>,
    indices: &PrimitiveArray,
    taken: VortexResult<Option<ValueArray<V>>>,
    k: int,
)
    requires
        array.wf(),
        0 <= k < indices.buffer.spec_len(),
        indices.validity.valid_at(k),
        array.length <= indices.buffer.int_at(k) <= usize::MAX,
        forall|i: int| 0 <= i < k ==> #[trigger] within(array, indices, i),
        take_outcome(array, indices, taken),
    ensures
        taken matches Err(VortexError::OutOfBounds { index, first, stop }) && index
            == indices.buffer.int_at(k) && first == 0 && stop == array.length,
{
    cast_keeps_positions(indices, k);
    assert(out_of_bounds_at(indices, array.length as int, k));
    assert forall|i: int| 0 <= i < k implies !#[trigger] out_of_bounds_at(
        indices,
        array.length as int,
        i,
    ) by {
        assert(within(array, indices, i));
        if indices.validity.valid_at(i) {
            cast_keeps_positions(indices, i);
        }
    }
    if let Err(e) = taken {
        let i = choose|i: int|
            {
                &&& 0 <= i < indices.buffer.spec_len()
                &&& #[trigger] out_of_bounds_at(indices, array.length as int, i)
                &&& forall|j: int|
                    0 <= j < i ==> !#[trigger] out_of_bounds_at(indices, array.length as int, j)
                &&& e == (VortexError::OutOfBounds {
                    index: indices.buffer.usize_at(i),
                    first: 0,
                    stop: array.length,
                })
            };
        assert(!(i < k));
        assert(!(k < i));
    }
}

/// Indices that are not checked find the same: the value of the run that covers the position, the
/// last value beyond the last run, and null for a null index.
pub proof fn unchecked_entries_are_values_of_runs<I: UnsignedPType, V: Copy>(
    array: &RunEndArray<I, V>,
    indices: Seq<usize>,
    validity: &Validity,
    i: int,
    r: int,
)
    requires
        array.wf(),
        0 <= i < indices.len(),
        covers(array.ends@, indices[i] + array.offset, r) || r == array.ends@.len() - 1 && r >= 0
            && array.ends@[r].as_nat() <= indices[i] + array.offset,
    ensures
        taken_entries(array, indices, validity).len() == indices.len(),
        validity.valid_at(i) ==> taken_entries(array, indices, validity)[i] == array.values@[r],
        !validity.valid_at(i) ==> taken_entries(array, indices, validity)[i] is None,
{
    let p = indices[i] + array.offset;
    if covers(array.ends@, p, r) {
        covering_run_holds(array.ends@, p, r);
    } else {
        assert forall|j: int| 0 <= j < r implies (#[trigger] array.ends@[j]).as_nat() <= p by {
            assert(array.ends@[j].as_nat() <= array.ends@[r].as_nat());
        }
        assert(holds_run(array.ends@, p, r));
        run_exists(array.ends@, p);
        run_is_unique(array.ends@, p, r, run_of(array.ends@, p));
    }
}

/// Selected indices stay in order as long as none comes that is below a selected one before it;
/// indices that are not selected never matter, and equal ones are in order. The count grows by one
/// for each that is selected.
pub proof fn one_more_index_in_order(indices: Seq<usize>, mask: Seq<bool>, x: usize, selected: bool)
    requires
        mask.len() == indices.len(),
    ensures
        valid_indices_sorted(Seq::empty(), Seq::empty()),
        valid_indices_sorted(indices.push(x), mask.push(selected)) <==> valid_indices_sorted(
            indices,
            mask,
        ) && (selected ==> forall|i: int|
            0 <= i < indices.len() && #[trigger] mask[i] ==> indices[i] <= x),
        valid_count(mask.push(selected), mask.len() as int + 1) == valid_count(mask, mask.len() as int)
            + (if selected {
            1nat
        } else {
            0nat
        }),
{
    let more = indices.push(x);
    let flags = mask.push(selected);
    let n = indices.len() as int;
    assert(flags.take(n + 1).drop_last() =~= mask.take(n));
    if valid_indices_sorted(more, flags) {
        assert forall|i: int, j: int|
            0 <= i < j < indices.len() && #[trigger] mask[i] && #[trigger] mask[j] implies indices[i]
            <= indices[j] by {
            assert(flags[i] && flags[j]);
            assert(more[i] <= more[j]);
        }
        if selected {
            assert forall|i: int| 0 <= i < indices.len() && #[trigger] mask[i] implies indices[i]
                <= x by {
                assert(flags[i] && flags[n]);
                assert(more[i] <= more[n]);
            }
        }
    } else {
        let (i, j) = choose|i: int, j: int|
            0 <= i < j < more.len() && #[trigger] flags[i] && #[trigger] flags[j] && more[i]
                > more[j];
        assert(mask[i]);
        if j < n {
            assert(mask[j]);
        }
    }
}

/// Each selected index is mapped to the run that covers its position, however it is found, and each
/// index beyond the last run to that run. An index that is not selected is mapped to 0.
pub proof fn mapped_indices_are_covered<I: UnsignedPType>(
    ends: Seq<I>,
    offset: int,
    indices: Seq<usize>,
    mask: Seq<bool>,
    physical: Seq<u64>,
    i: int,
)
    requires
        ends.len() > 0,
        maps_to_runs(ends, offset, indices, mask, physical),
        0 <= i < indices.len(),
    ensures
        physical.len() == indices.len(),
        mask[i] && indices[i] + offset < ends.last().as_nat() ==> covers(
            ends,
            indices[i] + offset,
            physical[i] as int,
        ),
        mask[i] && (forall|j: int|
            0 <= j < ends.len() ==> (#[trigger] ends[j]).as_nat() <= indices[i] + offset)
            ==> physical[i] == ends.len() - 1,
        !mask[i] ==> physical[i] == 0,
{
    if mask[i] {
        let r = physical[i] as int;
        assert(holds_run(ends, indices[i] + offset, r));
        if r > 0 {
            assert(ends[r - 1].as_nat() <= indices[i] + offset);
        }
        assert(ends[ends.len() - 1] == ends.last());
    }
}

} // verus!
