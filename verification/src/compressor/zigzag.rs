//! ZigZag: signed integers as unsigned ones, small in magnitude where the signed ones are.
use vstd::prelude::*;

use crate::compressor::ctx::{CompressorContext, ContextModel, SchemeId};
use crate::compressor::scheme;
use crate::compressor::scheme::{
    dict_codes_exclusions, int_dict_id, AncestorExclusion, ArrayAndStats, ChildSelection,
    CompressionEstimate, DeferredEstimate, DescendantExclusion, EstimateVerdict,
};
use crate::dtype::{DType, PType};
use crate::error::{VortexError, VortexResult};
use crate::file::encodings::ArrayId;
use crate::primitive;
use crate::primitive::{PrimitiveArray, PrimitiveBuffer};

verus! {

/// The ZigZag code of a number: 0, -1, 1, -2, 2 and so on become 0, 1, 2, 3, 4.
pub open spec fn zigzag(v: int) -> int {
    if v >= 0 {
        2 * v
    } else {
        -2 * v - 1
    }
}

/// The number with a ZigZag code.
pub open spec fn unzigzag(c: int) -> int {
    if c % 2 == 0 {
        c / 2
    } else {
        -(c + 1) / 2
    }
}

/// Every code is at least 0 and stands for one number: nothing is lost, and equal codes come from
/// equal numbers only.
pub proof fn zigzag_is_bijective(v: int)
    ensures
        zigzag(v) >= 0,
        unzigzag(zigzag(v)) == v,
        v >= 0 ==> zigzag(unzigzag(v)) == v,
{
}

/// The unsigned type of a signed type's width.
pub open spec fn unsigned_of(p: PType) -> PType {
    match p {
        PType::I8 => PType::U8,
        PType::I16 => PType::U16,
        PType::I32 => PType::U32,
        PType::I64 => PType::U64,
        _ => p,
    }
}

/// The codes of all values, null slots as well.
pub open spec fn zigzag_ints(a: &PrimitiveArray) -> Seq<int> {
    Seq::new(a.buffer.spec_len(), |i: int| zigzag(a.buffer.int_at(i)))
}

/// Integers by their ZigZag codes; the codes in some compressed form.
#[derive(Debug, PartialEq, Eq)]
pub struct ZigZagArray<C> {
    pub encoded: C,
}

/// Encodes signed integers of any width as unsigned ones of the same width.
pub fn zigzag_encode(array: &PrimitiveArray) -> (r: VortexResult<ZigZagArray<PrimitiveArray>>)
    requires
        array.wf(),
    ensures
        match r {
            Ok(out) => {
                &&& array.buffer.spec_ptype().signed_int()
                &&& out.encoded.wf()
                &&& out.encoded.buffer.spec_ptype() == unsigned_of(array.buffer.spec_ptype())
                &&& out.encoded.buffer.ints() == zigzag_ints(array)
                &&& out.encoded.validity.same(&array.validity)
            },
            Err(e) => e == VortexError::ZigZagUnsigned && !array.buffer.spec_ptype().signed_int(),
        },
{
    let ptype = array.buffer.ptype();
    if !ptype.is_signed_int() {
        return Err(VortexError::ZigZagUnsigned);
    }
    let target = match ptype {
        PType::I8 => PType::U8,
        PType::I16 => PType::U16,
        PType::I32 => PType::U32,
        _ => PType::U64,
    };
    let n: usize = array.buffer.len();
    let mut codes: Vec<i128> = Vec::new();
    let mut i: usize = 0;
    while i < n
        invariant
            n == array.buffer.spec_len(),
            ptype == array.buffer.spec_ptype(),
            ptype.signed_int(),
            target == unsigned_of(ptype),
            i <= n,
            codes@.len() == i,
            forall|j: int| 0 <= j < i ==> target.holds(#[trigger] codes@[j] as int),
            forall|j: int| 0 <= j < i ==> #[trigger] codes@[j] == zigzag(array.buffer.int_at(j)),
        decreases n - i,
    {
        let v: i128 = array.buffer.as_i128(i);
        proof {
            array.buffer.in_range(i as int);
        }
        let code: i128 = if v >= 0 {
            2 * v
        } else {
            -(2 * v) - 1
        };
        codes.push(code);
        i = i + 1;
    }
    let buffer = PrimitiveBuffer::from_ints(target, &codes);
    proof {
        assert(buffer.ints() =~= zigzag_ints(array));
        assert(buffer.ints().len() == n);
    }
    Ok(
        ZigZagArray { encoded: PrimitiveArray { buffer, validity: array.validity.duplicate() } },
    )
}

/// ZigZag encoding of negative integers.
#[derive(Clone, Copy, Debug, PartialEq, Eq)]
pub struct ZigZagScheme;

impl ZigZagScheme {
    /// The scheme's name.
    pub fn scheme_name(&self) -> (s: &'static str)
        ensures
            s@ == "vortex.int.zigzag"@,
    {
        "vortex.int.zigzag"
    }

    /// The scheme's id.
    pub fn id(&self) -> (id: SchemeId)
        ensures
            id@ == "vortex.int.zigzag"@,
    {
        SchemeId { name: self.scheme_name() }
    }

    /// Whether the scheme applies to arrays of a type: to integers.
    pub fn matches(&self, dtype: &DType) -> (b: bool)
        ensures
            b == dtype.int_type(),
    {
        dtype.is_int()
    }

    /// The encodings that the scheme's output may have.
    pub fn produced_encodings(&self) -> (v: Vec<ArrayId>)
        ensures
            v@ == seq![ArrayId::ZigZag],
    {
        let mut v: Vec<ArrayId> = Vec::new();
        v.push(ArrayId::ZigZag);
        assert(v@ =~= seq![ArrayId::ZigZag]);
        v
    }

    /// The only child is the encoded integers.
    pub fn num_children(&self) -> (n: usize)
        ensures
            n == 1,
    {
        1
    }

    /// Dictionaries, runs and sparse values that lost on the integers lose on their codes.
    pub fn descendant_exclusions(&self) -> (v: Vec<DescendantExclusion>)
        ensures
            v@.len() == 3,
            v@[0].excluded@ == "vortex.int.dict"@,
            v@[1].excluded@ == "vortex.int.runend"@,
            v@[2].excluded@ == "vortex.int.sparse"@,
            forall|i: int| 0 <= i < 3 ==> (#[trigger] v@[i]).children == ChildSelection::All,
    {
        let mut v: Vec<DescendantExclusion> = Vec::new();
        v.push(DescendantExclusion { excluded: int_dict_id(), children: ChildSelection::All });
        v.push(
            DescendantExclusion {
                excluded: SchemeId { name: "vortex.int.runend" },
                children: ChildSelection::All,
            },
        );
        v.push(
            DescendantExclusion {
                excluded: SchemeId { name: "vortex.int.sparse" },
                children: ChildSelection::All,
            },
        );
        v
    }

    /// Dictionary codes are never negative.
    pub fn ancestor_exclusions(&self) -> (v: Vec<AncestorExclusion>)
        ensures
            scheme::is_dict_codes(v@),
    {
        dict_codes_exclusions()
    }

    /// What the scheme is expected to gain. It is skipped where nothing could compress its output
    /// and where no value is negative; elsewhere a sample decides.
    pub fn expected_compression_ratio<O>(
        &self,
        data: &ArrayAndStats,
        compress_ctx: &CompressorContext<O>,
    ) -> (e: CompressionEstimate)
        requires
            data.array.wf(),
            data.array.buffer.integer(),
        ensures
            e == zigzag_estimate(&data.array, compress_ctx@),
    {
        if compress_ctx.finished_cascading() {
            return CompressionEstimate::Verdict(EstimateVerdict::Skip);
        }
        let min: i128 = match data.array.compute_min() {
            Some(m) => m,
            None => 0,
        };
        proof {
            primitive::extremes_bound_values(&data.array, data.array.buffer.spec_len());
            minimum_is_a_value(&data.array, data.array.buffer.spec_len());
            if has_negative(&data.array) {
                let i = choose|i: int|
                    0 <= i < data.array.buffer.spec_len() && data.array.validity.valid_at(i)
                        && #[trigger] data.array.buffer.int_at(i) < 0;
                assert(primitive::within_extremes(
                    &data.array,
                    data.array.buffer.spec_len(),
                    i,
                ));
            }
        }
        if !(min < 0) {
            return CompressionEstimate::Verdict(EstimateVerdict::Skip);
        }
        CompressionEstimate::Deferred(DeferredEstimate::Sample)
    }

    /// Compresses integers: encodes them, and hands the codes to `compress_child` as child 0 of
    /// this scheme.
    pub fn compress<
        O,
        C,
        F: FnOnce(PrimitiveArray, CompressorContext<O>, SchemeId, usize) -> VortexResult<C>,
    >(
        &self,
        data: &ArrayAndStats,
        compress_ctx: &CompressorContext<O>,
        compress_child: F,
    ) -> (r: VortexResult<ZigZagArray<C>>)
        requires
            data.array.wf(),
            forall|a: PrimitiveArray, c: CompressorContext<O>, id: SchemeId, n: usize| #[trigger]
                compress_child.requires((a, c, id, n)),
        ensures
            zigzag_outcome(data, compress_ctx, compress_child, r),
    {
        let zag = match zigzag_encode(&data.array) {
            Ok(z) => z,
            Err(e) => return Err(e),
        };
        let ctx = compress_ctx.duplicate();
        let id = self.id();
        let encoded = zag.encoded;
        let compressed = compress_child(encoded, ctx, id, 0);
        assert(compress_child.ensures((encoded, ctx, id, 0usize), compressed));
        match compressed {
            Ok(encoded) => Ok(ZigZagArray { encoded }),
            Err(e) => Err(e),
        }
    }
}

/// What compressing integers gives: an error where they are not signed; else what `compress_child`
/// makes of their codes, as child 0.
pub open spec fn zigzag_outcome<
    O,
    C,
    F: FnOnce(PrimitiveArray, CompressorContext<O>, SchemeId, usize) -> VortexResult<C>,
>(
    data: &ArrayAndStats,
    ctx: &CompressorContext<O>,
    compress_child: F,
    r: VortexResult<ZigZagArray<C>>,
) -> bool {
    if !data.array.buffer.spec_ptype().signed_int() {
        r == Err::<ZigZagArray<C>, VortexError>(VortexError::ZigZagUnsigned)
    } else {
        exists|a: PrimitiveArray, c: CompressorContext<O>, id: SchemeId, out: VortexResult<C>|
            {
                &&& #[trigger] compress_child.ensures((a, c, id, 0usize), out)
                &&& a.wf()
                &&& a.buffer.spec_ptype() == unsigned_of(data.array.buffer.spec_ptype())
                &&& a.buffer.ints() == zigzag_ints(&data.array)
                &&& a.validity.same(&data.array.validity)
                &&& c@ == ctx@
                &&& id@ == "vortex.int.zigzag"@
                &&& match out {
                    Ok(encoded) => r matches Ok(z) && z.encoded == encoded,
                    Err(e) => r == Err::<ZigZagArray<C>, VortexError>(e),
                }
            }
    }
}

/// Compressing signed integers loses nothing: with a child that is compressed without loss it
/// succeeds, and what the child decodes to stands for every value of the input, under its nulls.
pub proof fn compressed_integers_decode<
    O,
    C,
    F: FnOnce(PrimitiveArray, CompressorContext<O>, SchemeId, usize) -> VortexResult<C>,
>(
    data: &ArrayAndStats,
    ctx: &CompressorContext<O>,
    compress_child: F,
    decode: spec_fn(C) -> PrimitiveArray,
    r: VortexResult<ZigZagArray<C>>,
)
    requires
        data.array.wf(),
        data.array.buffer.spec_ptype().signed_int(),
        forall|
            a: PrimitiveArray,
            c: CompressorContext<O>,
            id: SchemeId,
            n: usize,
            out: VortexResult<C>,
        |
            a.wf() && #[trigger] compress_child.ensures((a, c, id, n), out) ==> (out matches Ok(x)
                && {
                &&& decode(x).buffer.ints() == a.buffer.ints()
                &&& decode(x).validity.same(&a.validity)
            }),
        zigzag_outcome(data, ctx, compress_child, r),
    ensures
        r is Ok,
        ({
            let codes = decode(r->Ok_0.encoded);
            &&& codes.buffer.ints().len() == data.array.buffer.ints().len()
            &&& codes.validity.same(&data.array.validity)
            &&& forall|i: int|
                0 <= i < data.array.buffer.ints().len() ==> unzigzag(
                    #[trigger] codes.buffer.ints()[i],
                ) == data.array.buffer.ints()[i]
        }),
{
    assert forall|i: int| 0 <= i < data.array.buffer.ints().len() implies unzigzag(
        #[trigger] zigzag_ints(&data.array)[i],
    ) == data.array.buffer.ints()[i] by {
        zigzag_is_bijective(data.array.buffer.int_at(i));
    }
}

/// Whether some valid value is negative.
pub open spec fn has_negative(a: &PrimitiveArray) -> bool {
    exists|i: int|
        0 <= i < a.buffer.spec_len() && a.validity.valid_at(i) && #[trigger] a.buffer.int_at(i) < 0
}

/// The smallest valid value is one of the values.
proof fn minimum_is_a_value(a: &PrimitiveArray, n: nat)
    ensures
        primitive::min_valid(a, n) matches Some(m) ==> exists|i: int|
            0 <= i < n && a.validity.valid_at(i) && #[trigger] a.buffer.int_at(i) == m,
    decreases n,
{
    if n > 0 {
        minimum_is_a_value(a, (n - 1) as nat);
        if let Some(m) = primitive::min_valid(a, n) {
            if a.validity.valid_at(n - 1) && a.buffer.int_at(n - 1) == m {
            } else {
                let i = choose|i: int|
                    0 <= i < n - 1 && a.validity.valid_at(i) && #[trigger] a.buffer.int_at(i) == m;
                assert(a.buffer.int_at(i) == m);
            }
        }
    }
}

/// What ZigZag is expected to gain on an array.
pub open spec fn zigzag_estimate<O>(a: &PrimitiveArray, ctx: ContextModel<O>) -> CompressionEstimate {
    if ctx.allowed_cascading == 0 || !has_negative(a) {
        CompressionEstimate::Verdict(EstimateVerdict::Skip)
    } else {
        CompressionEstimate::Deferred(DeferredEstimate::Sample)
    }
}

/// Integers are sampled as soon as one valid value is negative and something may still compress the
/// codes. Otherwise they are skipped: no code would be shorter, or nothing would shorten it.
pub proof fn negative_values_are_sampled<O>(a: &PrimitiveArray, ctx: ContextModel<O>)
    ensures
        (exists|i: int|
            0 <= i < a.buffer.spec_len() && a.validity.valid_at(i) && #[trigger] a.buffer.int_at(i)
                < 0) && ctx.allowed_cascading > 0 ==> zigzag_estimate(a, ctx)
            == CompressionEstimate::Deferred(DeferredEstimate::Sample),
        (forall|i: int|
            0 <= i < a.buffer.spec_len() && a.validity.valid_at(i) ==> #[trigger] a.buffer.int_at(i)
                >= 0) || ctx.allowed_cascading == 0 ==> zigzag_estimate(a, ctx)
            == CompressionEstimate::Verdict(EstimateVerdict::Skip),
{
}

/// The codes count outwards from zero, a negative number after each number that is not: 0, -1, 1,
/// -2, 2 and so on. The codes of a signed type are the values of the unsigned type of its width.
pub proof fn codes_count_outwards(v: int, p: PType)
    requires
        v >= 0,
        p.signed_int(),
    ensures
        zigzag(0) == 0,
        zigzag(-v - 1) == zigzag(v) + 1,
        zigzag(v + 1) == zigzag(-v - 1) + 1,
        unsigned_of(p).bits() == p.bits(),
        unsigned_of(p).int_type(),
        unsigned_of(p).min_int() == 0,
        unsigned_of(p).holds(v) <==> p.holds(unzigzag(v)),
{
}

/// The codes are handed on as child 0 of this scheme, under the caller's own context. So a child
/// that need only succeed there is enough, and its error there is the error of the whole.
pub proof fn codes_are_child_zero<
    O,
    C,
    F: FnOnce(PrimitiveArray, CompressorContext<O>, SchemeId, usize) -> VortexResult<C>,
>(
    data: &ArrayAndStats,
    ctx: &CompressorContext<O>,
    compress_child: F,
    e: VortexError,
    r: VortexResult<ZigZagArray<C>>,
)
    requires
        data.array.buffer.spec_ptype().signed_int(),
        zigzag_outcome(data, ctx, compress_child, r),
    ensures
        (forall|a: PrimitiveArray, c: CompressorContext<O>, id: SchemeId, out: VortexResult<C>|
            a.buffer.spec_len() == data.array.buffer.spec_len() && a.buffer.spec_ptype().min_int()
                == 0 && a.buffer.spec_ptype().bits() == data.array.buffer.spec_ptype().bits() && c@
                == ctx@ && id.name@
                == "vortex.int.zigzag"@ && #[trigger] compress_child.ensures((a, c, id, 0usize), out)
                ==> out is Ok) ==> r is Ok,
        (forall|a: PrimitiveArray, c: CompressorContext<O>, id: SchemeId, out: VortexResult<C>|
            #[trigger] compress_child.ensures((a, c, id, 0usize), out) ==> out == Err::<
                C,
                VortexError,
            >(e)) ==> r == Err::<ZigZagArray<C>, VortexError>(e),
{
    let (a, c, id, out) = choose|
        a: PrimitiveArray,
        c: CompressorContext<O>,
        id: SchemeId,
        out: VortexResult<C>,
    |
        {
            &&& #[trigger] compress_child.ensures((a, c, id, 0usize), out)
            &&& a.wf()
            &&& a.buffer.spec_ptype() == unsigned_of(data.array.buffer.spec_ptype())
            &&& a.buffer.ints() == zigzag_ints(&data.array)
            &&& a.validity.same(&data.array.validity)
            &&& c@ == ctx@
            &&& id@ == "vortex.int.zigzag"@
            &&& match out {
                Ok(encoded) => r matches Ok(z) && z.encoded == encoded,
                Err(e) => r == Err::<ZigZagArray<C>, VortexError>(e),
            }
        };
    assert(a.buffer.ints().len() == a.buffer.spec_len());
}

} // verus!
