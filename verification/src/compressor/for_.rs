//! Frame of reference: integers as their distance from the smallest.
use vstd::arithmetic::power2::pow2;
use vstd::prelude::*;

use crate::compressor::ctx::{CompressorContext, ContextModel, SchemeId};
use crate::compressor::scheme::{
    dict_codes_exclusions, AncestorExclusion, ArrayAndStats, CompressionEstimate, EstimateVerdict,
};
use crate::dtype::{DType, PType};
use crate::error::{VortexError, VortexResult};
use crate::primitive;
use crate::primitive::{PrimitiveArray, PrimitiveBuffer};

verus! {

/// How many bits a number needs.
pub open spec fn bit_length(n: nat) -> nat
    decreases n,
{
    if n == 0 {
        0
    } else {
        1 + bit_length(n / 2)
    }
}

/// A number is below two to the power of its bits, and not below half of that.
pub proof fn bit_length_bounds(n: nat)
    ensures
        n < pow2(bit_length(n)),
        n > 0 ==> pow2((bit_length(n) - 1) as nat) <= n,
    decreases n,
{
    vstd::arithmetic::power2::lemma2_to64();
    if n > 0 {
        bit_length_bounds(n / 2);
        vstd::arithmetic::power2::lemma_pow2_unfold(bit_length(n));
        if n / 2 > 0 {
            vstd::arithmetic::power2::lemma_pow2_unfold((bit_length(n) - 1) as nat);
        }
    }
}

/// A number below a power of two needs no more bits than the exponent, and no other does.
pub proof fn bit_length_below_power(n: nat, k: nat)
    ensures
        n < pow2(k) <==> bit_length(n) <= k,
    decreases k,
{
    vstd::arithmetic::power2::lemma2_to64();
    if k > 0 {
        vstd::arithmetic::power2::lemma_pow2_unfold(k);
        bit_length_below_power(n / 2, (k - 1) as nat);
    }
}

/// How many bits a number needs.
fn bits_needed(n: u128) -> (w: u32)
    requires
        n <= u64::MAX,
    ensures
        w == bit_length(n as nat),
        w <= 64,
{
    let mut rest: u128 = n;
    let mut w: u32 = 0;
    proof {
        vstd::arithmetic::power2::lemma2_to64();
        bit_length_below_power(n as nat, 64);
    }
    while rest > 0
        invariant
            bit_length(n as nat) <= 64,
            w + bit_length(rest as nat) == bit_length(n as nat),
        decreases rest,
    {
        rest = rest / 2;
        w = w + 1;
    }
    w
}

/// How many values an integer type has.
pub open spec fn modulus(p: PType) -> int {
    p.max_int() - p.min_int() + 1
}

/// A number wrapped around to an integer type.
pub open spec fn wrapped(p: PType, x: int) -> int {
    p.min_int() + (x - p.min_int()) % modulus(p)
}

/// Wrapping leaves the type's values as they are, and brings its neighbours on either side back by
/// the number of values.
proof fn wrapped_cases(p: PType, x: int)
    requires
        p.int_type(),
    ensures
        p.holds(x) ==> wrapped(p, x) == x,
        p.holds(x - modulus(p)) ==> wrapped(p, x) == x - modulus(p),
        p.holds(x + modulus(p)) ==> wrapped(p, x) == x + modulus(p),
{
    let m = modulus(p);
    let d = x - p.min_int();
    if p.holds(x) {
        vstd::arithmetic::div_mod::lemma_fundamental_div_mod_converse(d, m, 0, d);
    }
    if p.holds(x - m) {
        vstd::arithmetic::div_mod::lemma_fundamental_div_mod_converse(d, m, 1, d - m);
    }
    if p.holds(x + m) {
        assert((-1) * m == -m) by (nonlinear_arith);
        vstd::arithmetic::div_mod::lemma_fundamental_div_mod_converse(d, m, -1, d + m);
    }
}

/// The encoding of an array relative to `reference`: each valid value becomes its wrapped distance,
/// each null becomes 0.
pub open spec fn biased_ints(a: &PrimitiveArray, reference: int) -> Seq<int> {
    Seq::new(
        a.buffer.spec_len(),
        |i: int|
            if a.validity.valid_at(i) {
                wrapped(a.buffer.spec_ptype(), a.buffer.int_at(i) - reference)
            } else {
                0
            },
    )
}

/// Integers as their distance from a reference; the distances in some compressed form.
#[derive(Debug, PartialEq, Eq)]
pub struct FoRArray<C> {
    pub encoded: C,
    pub reference: i128,
}

/// Encodes integers as their distance from the smallest. An array without a valid value has none.
pub fn for_encode(array: &PrimitiveArray) -> (r: VortexResult<FoRArray<PrimitiveArray>>)
    requires
        array.wf(),
        array.buffer.integer(),
    ensures
        match r {
            Ok(out) => {
                &&& array.spec_min() == Some(out.reference as int)
                &&& out.encoded.wf()
                &&& out.encoded.buffer.spec_ptype() == array.buffer.spec_ptype()
                &&& out.encoded.buffer.ints() == biased_ints(array, out.reference as int)
                &&& out.encoded.validity.same(&array.validity)
            },
            Err(e) => e == VortexError::NoMinimum && array.spec_min() is None,
        },
{
    let reference: i128 = match array.compute_min() {
        Some(m) => m,
        None => return Err(VortexError::NoMinimum),
    };
    let ptype = array.buffer.ptype();
    let limits = ptype.limits();
    let n: usize = array.buffer.len();
    let mut biased: Vec<i128> = Vec::new();
    let mut i: usize = 0;
    proof {
        primitive::extremes_bound_values(array, n as nat);
    }
    while i < n
        invariant
            array.wf(),
            array.buffer.integer(),
            n == array.buffer.spec_len(),
            ptype == array.buffer.spec_ptype(),
            limits.0 == ptype.min_int(),
            limits.1 == ptype.max_int(),
            array.spec_min() == Some(reference as int),
            ptype.holds(reference as int),
            forall|j: int|
                0 <= j < n && array.validity.valid_at(j) ==> #[trigger] primitive::within_extremes(
                    array,
                    n as nat,
                    j,
                ),
            i <= n,
            biased@.len() == i,
            forall|j: int| 0 <= j < i ==> ptype.holds(#[trigger] biased@[j] as int),
            forall|j: int|
                0 <= j < i ==> #[trigger] biased@[j] == biased_ints(array, reference as int)[j],
        decreases n - i,
    {
        if array.validity.is_valid(i) {
            let v: i128 = array.buffer.as_i128(i);
            proof {
                array.buffer.in_range(i as int);
                assert(primitive::within_extremes(array, n as nat, i as int));
            }
            let distance: i128 = v - reference;
            let wrapped_distance: i128 = if distance > limits.1 {
                distance - (limits.1 - limits.0 + 1)
            } else {
                distance
            };
            proof {
                wrapped_cases(ptype, distance as int);
            }
            biased.push(wrapped_distance);
        } else {
            biased.push(0);
        }
        i = i + 1;
    }
    let buffer = PrimitiveBuffer::from_ints(ptype, &biased);
    proof {
        assert(buffer.ints() =~= biased_ints(array, reference as int));
        assert(buffer.ints().len() == n);
    }
    Ok(
        FoRArray {
            encoded: PrimitiveArray { buffer, validity: array.validity.duplicate() },
            reference,
        },
    )
}

/// Adding the reference back, wrapping around, gives every valid value: the encoding loses nothing.
pub proof fn for_roundtrip(a: &PrimitiveArray, reference: int, i: int)
    requires
        a.buffer.integer(),
        a.buffer.spec_ptype().holds(reference),
        0 <= i < a.buffer.spec_len(),
        a.validity.valid_at(i),
    ensures
        wrapped(a.buffer.spec_ptype(), biased_ints(a, reference)[i] + reference)
            == a.buffer.int_at(i),
{
    a.buffer.in_range(i);
    let p = a.buffer.spec_ptype();
    let distance = a.buffer.int_at(i) - reference;
    wrapped_cases(p, distance);
    wrapped_cases(p, wrapped(p, distance) + reference);
}

/// What frame of reference is expected to gain on an array.
pub open spec fn for_estimate<O>(a: &PrimitiveArray, ctx: ContextModel<O>) -> CompressionEstimate {
    let skip = CompressionEstimate::Verdict(EstimateVerdict::Skip);
    let min = match a.spec_min() {
        Some(m) => m,
        None => 0,
    };
    let max = match a.spec_max() {
        Some(m) => m,
        None => 0,
    };
    let p = a.buffer.spec_ptype();
    let width = bit_length((max - min) as nat);
    if ctx.allowed_cascading == 0 {
        skip
    } else if min == 0 {
        skip
    } else if max == min {
        skip
    } else if p.signed_int() && width > p.bits() - 1 {
        skip
    } else if min >= 0 && width >= bit_length(max as nat) {
        skip
    } else {
        CompressionEstimate::Verdict(
            EstimateVerdict::Ratio { full_width: p.bits() as u32, compressed_width: width as u32 },
        )
    }
}

/// Where frame of reference is worth a try, every encoded value is at least 0 and fits the
/// estimated width: bit packing never meets a negative value.
pub proof fn estimated_values_can_be_packed<O>(a: &PrimitiveArray, ctx: ContextModel<O>, i: int)
    requires
        a.wf(),
        a.buffer.integer(),
        for_estimate(a, ctx) is Verdict,
        for_estimate(a, ctx)->Verdict_0 is Ratio,
        0 <= i < a.buffer.spec_len(),
    ensures
        a.spec_min() is Some,
        0 <= biased_ints(a, a.spec_min()->Some_0)[i] < pow2(
            for_estimate(a, ctx)->Verdict_0->compressed_width as nat,
        ),
        for_estimate(a, ctx)->Verdict_0->compressed_width
            <= for_estimate(a, ctx)->Verdict_0->full_width,
{
    let n = a.buffer.spec_len();
    primitive::extremes_bound_values(a, n);
    let p = a.buffer.spec_ptype();
    let min = a.spec_min()->Some_0;
    let max = a.spec_max()->Some_0;
    let width = bit_length((max - min) as nat);
    bit_length_bounds((max - min) as nat);
    width_at_most(p, (max - min) as nat);
    assert(for_estimate(a, ctx)->Verdict_0->compressed_width == width);
    if a.validity.valid_at(i) {
        assert(primitive::within_extremes(a, n, i));
        let distance = a.buffer.int_at(i) - min;
        assert(0 <= distance <= max - min);
        if p.signed_int() {
            signed_width(p, (max - min) as nat);
        }
        wrapped_cases(p, distance);
    } else {
        vstd::arithmetic::power2::lemma_pow2_pos(width);
    }
}

/// A distance within a type needs no more bits than the type has.
proof fn width_at_most(p: PType, d: nat)
    requires
        d < modulus(p),
    ensures
        bit_length(d) <= p.bits(),
{
    vstd::arithmetic::power2::lemma2_to64();
    bit_length_below_power(d, p.bits() as nat);
}

/// A distance that needs fewer bits than a signed type has is one of its values.
proof fn signed_width(p: PType, d: nat)
    requires
        p.signed_int(),
        bit_length(d) <= p.bits() - 1,
    ensures
        d <= p.max_int(),
{
    vstd::arithmetic::power2::lemma2_to64();
    vstd::arithmetic::power2::lemma2_to64_rest();
    bit_length_below_power(d, (p.bits() - 1) as nat);
}

/// A span of signed integers that is refused because a distance would wrap around needs as many
/// bits as the type has: refusing it costs nothing.
pub proof fn refused_spans_gain_nothing(a: &PrimitiveArray)
    requires
        a.wf(),
        a.buffer.integer(),
        a.buffer.spec_ptype().signed_int(),
        a.spec_min() is Some,
        bit_length((a.spec_max()->Some_0 - a.spec_min()->Some_0) as nat)
            > a.buffer.spec_ptype().bits() - 1,
    ensures
        bit_length((a.spec_max()->Some_0 - a.spec_min()->Some_0) as nat)
            == a.buffer.spec_ptype().bits(),
{
    primitive::extremes_bound_values(a, a.buffer.spec_len());
    width_at_most(
        a.buffer.spec_ptype(),
        (a.spec_max()->Some_0 - a.spec_min()->Some_0) as nat,
    );
}

/// What compressing integers gives: an error where there is no smallest value; else what
/// `bit_pack` makes of the distances, in a context that allows no further scheme, with the
/// reference beside it.
pub open spec fn for_outcome<O, C, F: FnOnce(ArrayAndStats, CompressorContext<O>) -> VortexResult<C>>(
    data: &ArrayAndStats,
    ctx: &CompressorContext<O>,
    bit_pack: F,
    r: VortexResult<FoRArray<C>>,
) -> bool {
    match data.array.spec_min() {
        None => r == Err::<FoRArray<C>, VortexError>(VortexError::NoMinimum),
        Some(min) => exists|d: ArrayAndStats, c: CompressorContext<O>, packed: VortexResult<C>|
            {
                &&& #[trigger] bit_pack.ensures((d, c), packed)
                &&& d.array.wf()
                &&& d.array.buffer.spec_ptype() == data.array.buffer.spec_ptype()
                &&& d.array.buffer.ints() == biased_ints(&data.array, min)
                &&& d.array.validity.same(&data.array.validity)
                &&& d.options == ctx@.merged_stats_options
                &&& c@ == (ContextModel { allowed_cascading: 0, ..ctx@ })
                &&& match packed {
                    Ok(encoded) => r matches Ok(out) && out.encoded == encoded && out.reference
                        == min,
                    Err(e) => r == Err::<FoRArray<C>, VortexError>(e),
                }
            },
    }
}

/// Whether every integer of an array is at least 0 and fits `width` bits.
pub open spec fn packable(a: &PrimitiveArray, width: nat) -> bool {
    forall|i: int|
        0 <= i < a.buffer.ints().len() ==> 0 <= #[trigger] a.buffer.ints()[i] < pow2(width)
}

/// Whether `bit_pack` succeeds on integers that are at least 0 and fit `width` bits, and `decode`
/// gives the array back.
pub open spec fn packs_without_loss<
    O,
    C,
    F: FnOnce(ArrayAndStats, CompressorContext<O>) -> VortexResult<C>,
>(bit_pack: F, decode: spec_fn(C) -> PrimitiveArray, width: nat) -> bool {
    forall|d: ArrayAndStats, c: CompressorContext<O>, packed: VortexResult<C>|
        d.array.wf() && packable(&d.array, width) && #[trigger] bit_pack.ensures((d, c), packed)
            ==> (packed matches Ok(x) && {
            &&& decode(x).buffer.spec_ptype() == d.array.buffer.spec_ptype()
            &&& decode(x).buffer.ints() == d.array.buffer.ints()
            &&& decode(x).validity.same(&d.array.validity)
        })
}

/// After a ratio was estimated, compressing loses nothing: with a `bit_pack` that packs integers of
/// the estimated width, which it may refuse where they are negative, it succeeds, and adding the
/// reference to what is unpacked gives the type, the nulls and every valid value of the input.
pub proof fn estimated_arrays_decode<
    O,
    C,
    F: FnOnce(ArrayAndStats, CompressorContext<O>) -> VortexResult<C>,
>(
    data: &ArrayAndStats,
    ctx: &CompressorContext<O>,
    bit_pack: F,
    decode: spec_fn(C) -> PrimitiveArray,
    r: VortexResult<FoRArray<C>>,
)
    requires
        data.array.wf(),
        data.array.buffer.integer(),
        for_estimate(&data.array, ctx@) matches CompressionEstimate::Verdict(v) && v is Ratio
            && packs_without_loss(bit_pack, decode, v->compressed_width as nat),
        for_outcome(data, ctx, bit_pack, r),
    ensures
        r is Ok,
        ({
            let out = r->Ok_0;
            let unpacked = decode(out.encoded);
            let p = data.array.buffer.spec_ptype();
            &&& unpacked.buffer.spec_ptype() == p
            &&& unpacked.buffer.ints().len() == data.array.buffer.ints().len()
            &&& unpacked.validity.same(&data.array.validity)
            &&& forall|i: int|
                0 <= i < data.array.buffer.ints().len() && data.array.validity.valid_at(i)
                    ==> wrapped(p, #[trigger] unpacked.buffer.ints()[i] + out.reference)
                    == data.array.buffer.ints()[i]
        }),
{
    let a = &data.array;
    let n = a.buffer.spec_len();
    primitive::extremes_bound_values(a, n);
    let min = a.spec_min()->Some_0;
    let width = for_estimate(a, ctx@)->Verdict_0->compressed_width as nat;
    let (d, c, packed) = choose|d: ArrayAndStats, c: CompressorContext<O>, packed: VortexResult<C>|
        {
            &&& #[trigger] bit_pack.ensures((d, c), packed)
            &&& d.array.wf()
            &&& d.array.buffer.spec_ptype() == a.buffer.spec_ptype()
            &&& d.array.buffer.ints() == biased_ints(a, min)
            &&& d.array.validity.same(&a.validity)
            &&& d.options == ctx@.merged_stats_options
            &&& c@ == (ContextModel { allowed_cascading: 0, ..ctx@ })
            &&& match packed {
                Ok(encoded) => r matches Ok(out) && out.encoded == encoded && out.reference == min,
                Err(e) => r == Err::<FoRArray<C>, VortexError>(e),
            }
        };
    assert(a.buffer.ints().len() == n);
    assert forall|i: int| 0 <= i < d.array.buffer.ints().len() implies 0
        <= #[trigger] d.array.buffer.ints()[i] < pow2(width) by {
        estimated_values_can_be_packed(a, ctx@, i);
    }
    assert(packable(&d.array, width));
    let unpacked = decode(r->Ok_0.encoded);
    assert forall|i: int| 0 <= i < n && a.validity.valid_at(i) implies wrapped(
        a.buffer.spec_ptype(),
        #[trigger] unpacked.buffer.ints()[i] + min,
    ) == a.buffer.ints()[i] by {
        assert(primitive::within_extremes(a, n, i));
        for_roundtrip(a, min, i);
    }
}

/// Frame of reference.
#[derive(Clone, Copy, Debug, PartialEq, Eq)]
pub struct FoRScheme;

impl FoRScheme {
    /// The scheme's name.
    pub fn scheme_name(&self) -> (s: &'static str)
        ensures
            s@ == "vortex.int.for"@,
    {
        "vortex.int.for"
    }

    /// The scheme's id.
    pub fn id(&self) -> (id: SchemeId)
        ensures
            id@ == "vortex.int.for"@,
    {
        SchemeId { name: self.scheme_name() }
    }

    /// Whether the scheme applies to arrays of a type: to integers.
    pub fn matches(&self, dtype: &DType) -> (b: bool)
        ensures
            b == dtype.int_type(),
    {
        dtype.is_int()
    }

    /// Dictionary codes start at 0 already.
    pub fn ancestor_exclusions(&self) -> (v: Vec<AncestorExclusion>)
        ensures
            crate::compressor::scheme::is_dict_codes(v@),
    {
        dict_codes_exclusions()
    }

    /// What the scheme is expected to gain. It is skipped where nothing could compress its output,
    /// where the smallest value is 0 or the only one, where a distance would wrap around to a
    /// negative value, and where plain bit packing needs no more bits.
    pub fn expected_compression_ratio<O>(
        &self,
        data: &ArrayAndStats,
        compress_ctx: &CompressorContext<O>,
    ) -> (e: CompressionEstimate)
        requires
            data.array.wf(),
            data.array.buffer.integer(),
        ensures
            e == for_estimate(&data.array, compress_ctx@),
    {
        if compress_ctx.finished_cascading() {
            return CompressionEstimate::Verdict(EstimateVerdict::Skip);
        }
        proof {
            primitive::extremes_bound_values(&data.array, data.array.buffer.spec_len());
        }
        let ptype = data.array.buffer.ptype();
        let full_width: u32 = ptype.bit_width();
        let min: i128 = match data.array.compute_min() {
            Some(m) => m,
            None => 0,
        };
        let max: i128 = match data.array.compute_max() {
            Some(m) => m,
            None => 0,
        };
        if min == 0 {
            return CompressionEstimate::Verdict(EstimateVerdict::Skip);
        }
        let span: u128 = (max - min) as u128;
        if span == 0 {
            return CompressionEstimate::Verdict(EstimateVerdict::Skip);
        }
        let for_bitwidth: u32 = bits_needed(span);
        if ptype.is_signed_int() && for_bitwidth > full_width - 1 {
            return CompressionEstimate::Verdict(EstimateVerdict::Skip);
        }
        if min >= 0 {
            let bitpack_bitwidth: u32 = bits_needed(max as u128);
            if for_bitwidth >= bitpack_bitwidth {
                return CompressionEstimate::Verdict(EstimateVerdict::Skip);
            }
        }
        CompressionEstimate::Verdict(
            EstimateVerdict::Ratio { full_width, compressed_width: for_bitwidth },
        )
    }

    /// Compresses integers: encodes them, and hands the distances straight to `bit_pack`, in a
    /// context that allows no further scheme. The reference stays beside what comes back.
    pub fn compress<O, C, F: FnOnce(ArrayAndStats, CompressorContext<O>) -> VortexResult<C>>(
        &self,
        data: &ArrayAndStats,
        compress_ctx: &CompressorContext<O>,
        bit_pack: F,
    ) -> (r: VortexResult<FoRArray<C>>)
        requires
            data.array.wf(),
            data.array.buffer.integer(),
            forall|d: ArrayAndStats, c: CompressorContext<O>| #[trigger]
                bit_pack.requires((d, c)),
        ensures
            for_outcome(data, compress_ctx, bit_pack, r),
    {
        let for_array = match for_encode(&data.array) {
            Ok(f) => f,
            Err(e) => return Err(e),
        };
        let leaf_ctx = compress_ctx.duplicate().as_leaf();
        let biased_data = ArrayAndStats {
            array: for_array.encoded,
            options: compress_ctx.merged_stats_options(),
        };
        let packed = bit_pack(biased_data, leaf_ctx);
        assert(bit_pack.ensures((biased_data, leaf_ctx), packed));
        match packed {
            Ok(encoded) => Ok(FoRArray { encoded, reference: for_array.reference }),
            Err(e) => Err(e),
        }
    }
}

/// Whether `w` is the least number of bits that hold every distance up to `span`.
pub open spec fn least_width(span: int, w: nat) -> bool {
    span < pow2(w) && (w > 0 ==> span >= pow2((w - 1) as nat))
}

/// Where a ratio is owed and where none is. Let `min` and `max` be the extremes of the valid
/// values and `w` the least number of bits that hold `max - min`. The estimate is the ratio of the
/// type's width to `w` where something may still pack the distances, the smallest value is neither
/// zero nor the only one, no distance of a signed type wraps around, and packing the values
/// themselves would take more bits; and everywhere else it is to skip.
pub proof fn ratio_is_estimated_where_it_gains<O>(
    a: &PrimitiveArray,
    ctx: ContextModel<O>,
    min: int,
    max: int,
    w: nat,
)
    requires
        a.buffer.integer(),
        primitive::spans(a, min, max),
        least_width(max - min, w),
    ensures
        ({
            let p = a.buffer.spec_ptype();
            let gains = {
                &&& ctx.allowed_cascading > 0
                &&& min != 0
                &&& max > min
                &&& p.min_int() == 0 || w < p.bits()
                &&& min < 0 || max >= pow2(w)
            };
            match for_estimate(a, ctx) {
                CompressionEstimate::Verdict(EstimateVerdict::Ratio {
                    full_width,
                    compressed_width,
                }) => gains && full_width == p.bits() && compressed_width == w,
                CompressionEstimate::Verdict(EstimateVerdict::Skip) => !gains,
                _ => false,
            }
        }),
{
    let p = a.buffer.spec_ptype();
    primitive::extremes_span_the_array(a, min, max);
    primitive::extremes_bound_values(a, a.buffer.spec_len());
    let span = (max - min) as nat;
    bit_length_below_power(span, w);
    if w > 0 {
        bit_length_below_power(span, (w - 1) as nat);
    }
    assert(bit_length(span) == w);
    width_at_most(p, span);
    p.width_counts_values();
    if min >= 0 {
        bit_length_below_power(max as nat, w);
    }
}

/// Without a valid value there is nothing to estimate: the scheme is skipped, and it has no
/// reference to encode by.
pub proof fn arrays_of_nulls_are_skipped<O>(a: &PrimitiveArray, ctx: ContextModel<O>)
    requires
        forall|i: int| 0 <= i < a.buffer.spec_len() ==> !#[trigger] a.validity.valid_at(i),
    ensures
        for_estimate(a, ctx) == CompressionEstimate::Verdict(EstimateVerdict::Skip),
{
    primitive::extremes_span_the_array(a, 0, 0);
}

/// The encoded distances are distances: a valid value is the smallest one plus what is encoded for
/// it, one full turn of the type more where that is negative, and a null is encoded as zero.
pub proof fn distances_lead_back(a: &PrimitiveArray, min: int, max: int, i: int)
    requires
        a.buffer.integer(),
        primitive::spans(a, min, max),
        0 <= i < a.buffer.spec_len(),
    ensures
        ({
            let p = a.buffer.spec_ptype();
            let d = biased_ints(a, min)[i];
            &&& p.holds(d)
            &&& if a.validity.valid_at(i) {
                a.buffer.int_at(i) == min + d + (if d < 0 {
                    pow2(p.bits() as nat) as int
                } else {
                    0
                })
            } else {
                d == 0
            }
        }),
{
    let p = a.buffer.spec_ptype();
    p.width_counts_values();
    a.buffer.in_range(i);
    primitive::extremes_span_the_array(a, min, max);
    primitive::extremes_bound_values(a, a.buffer.spec_len());
    if a.validity.valid_at(i) {
        let distance = a.buffer.int_at(i) - min;
        wrapped_cases(p, distance);
        assert(0 <= distance < modulus(p));
        assert(p.holds(distance) || p.holds(distance - modulus(p)));
    }
}

/// Packing ends the cascade: what is handed on is under the caller's history, hints, sampling and
/// statistics, with no further scheme allowed. So a `bit_pack` that need only succeed there is
/// enough, and its error there is the error of the whole.
pub proof fn distances_are_packed_as_a_leaf<
    O,
    C,
    F: FnOnce(ArrayAndStats, CompressorContext<O>) -> VortexResult<C>,
>(
    data: &ArrayAndStats,
    ctx: &CompressorContext<O>,
    bit_pack: F,
    e: VortexError,
    r: VortexResult<FoRArray<C>>,
)
    requires
        exists|i: int|
            0 <= i < data.array.buffer.spec_len() && #[trigger] data.array.validity.valid_at(i),
        for_outcome(data, ctx, bit_pack, r),
    ensures
        (forall|d: ArrayAndStats, c: CompressorContext<O>, packed: VortexResult<C>|
            c@.allowed_cascading == 0 && c@.is_sample == ctx@.is_sample && c@.cascade_history
                == ctx@.cascade_history && c@.frozen_scheme == ctx@.frozen_scheme
                && c@.winner_observer == ctx@.winner_observer && c@.merged_stats_options
                == ctx@.merged_stats_options && d.options == ctx@.merged_stats_options
                && #[trigger] bit_pack.ensures((d, c), packed) ==> packed is Ok) ==> r is Ok,
        (forall|d: ArrayAndStats, c: CompressorContext<O>, packed: VortexResult<C>| #[trigger]
            bit_pack.ensures((d, c), packed) ==> packed == Err::<C, VortexError>(e)) ==> r == Err::<
            FoRArray<C>,
            VortexError,
        >(e),
{
    primitive::extremes_span_the_array(&data.array, 0, 0);
}

} // verus!
