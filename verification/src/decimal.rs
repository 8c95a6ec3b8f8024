//! Casts of decimal arrays.
use vstd::prelude::*;

use crate::dtype::{DType, DecimalDType, DecimalType, Nullability};
use crate::error::{VortexError, VortexResult};
use crate::int256;
use crate::int256::I256;
use crate::validity;
use crate::validity::Validity;

verus! {

/// The integer types in which mantissas are stored.
pub trait NativeDecimalType: Copy {
    /// The value as a number.
    spec fn as_int(self) -> int;

    /// Whether the type holds a number.
    spec fn holds(v: int) -> bool;

    /// The value as a 256-bit integer.
    fn to_i256(self) -> (r: I256)
        ensures
            r@ == self.as_int(),
    ;

    /// A 256-bit integer in this type, if it fits.
    fn from_i256(v: I256) -> (r: Option<Self>)
        ensures
            r is Some <==> Self::holds(v@),
            r matches Some(x) ==> x.as_int() == v@,
    ;
}

impl NativeDecimalType for i8 {
    open spec fn as_int(self) -> int {
        self as int
    }

    open spec fn holds(v: int) -> bool {
        i8::MIN <= v <= i8::MAX
    }

    fn to_i256(self) -> (r: I256) {
        I256::from_i128(self as i128)
    }

    fn from_i256(v: I256) -> (r: Option<Self>) {
        match v.to_i128() {
            Some(x) => if -0x80 <= x && x <= 0x7f {
                Some(x as i8)
            } else {
                None
            },
            None => None,
        }
    }
}

impl NativeDecimalType for i16 {
    open spec fn as_int(self) -> int {
        self as int
    }

    open spec fn holds(v: int) -> bool {
        i16::MIN <= v <= i16::MAX
    }

    fn to_i256(self) -> (r: I256) {
        I256::from_i128(self as i128)
    }

    fn from_i256(v: I256) -> (r: Option<Self>) {
        match v.to_i128() {
            Some(x) => if -0x8000 <= x && x <= 0x7fff {
                Some(x as i16)
            } else {
                None
            },
            None => None,
        }
    }
}

impl NativeDecimalType for i32 {
    open spec fn as_int(self) -> int {
        self as int
    }

    open spec fn holds(v: int) -> bool {
        i32::MIN <= v <= i32::MAX
    }

    fn to_i256(self) -> (r: I256) {
        I256::from_i128(self as i128)
    }

    fn from_i256(v: I256) -> (r: Option<Self>) {
        match v.to_i128() {
            Some(x) => if -0x8000_0000 <= x && x <= 0x7fff_ffff {
                Some(x as i32)
            } else {
                None
            },
            None => None,
        }
    }
}

impl NativeDecimalType for i64 {
    open spec fn as_int(self) -> int {
        self as int
    }

    open spec fn holds(v: int) -> bool {
        i64::MIN <= v <= i64::MAX
    }

    fn to_i256(self) -> (r: I256) {
        I256::from_i128(self as i128)
    }

    fn from_i256(v: I256) -> (r: Option<Self>) {
        match v.to_i128() {
            Some(x) => if -0x8000_0000_0000_0000 <= x && x <= 0x7fff_ffff_ffff_ffff {
                Some(x as i64)
            } else {
                None
            },
            None => None,
        }
    }
}

impl NativeDecimalType for i128 {
    open spec fn as_int(self) -> int {
        self as int
    }

    open spec fn holds(v: int) -> bool {
        i128::MIN <= v <= i128::MAX
    }

    fn to_i256(self) -> (r: I256) {
        I256::from_i128(self)
    }

    fn from_i256(v: I256) -> (r: Option<Self>) {
        v.to_i128()
    }
}

impl NativeDecimalType for I256 {
    open spec fn as_int(self) -> int {
        self@
    }

    open spec fn holds(v: int) -> bool {
        int256::fits_i256(v)
    }

    fn to_i256(self) -> (r: I256) {
        self
    }

    fn from_i256(v: I256) -> (r: Option<Self>) {
        proof {
            v.in_range();
        }
        Some(v)
    }
}

/// The mantissas as numbers.
pub open spec fn ints<F: NativeDecimalType>(values: Seq<F>) -> Seq<int> {
    Seq::new(values.len(), |i: int| values[i].as_int())
}

/// Mantissas of one physical type.
#[derive(Debug, PartialEq, Eq)]
pub enum DecimalBuffer {
    I8(Vec<i8>),
    I16(Vec<i16>),
    I32(Vec<i32>),
    I64(Vec<i64>),
    I128(Vec<i128>),
    I256(Vec<I256>),
}

impl View for DecimalBuffer {
    type V = Seq<int>;

    open spec fn view(&self) -> Seq<int> {
        match self {
            DecimalBuffer::I8(v) => ints(v@),
            DecimalBuffer::I16(v) => ints(v@),
            DecimalBuffer::I32(v) => ints(v@),
            DecimalBuffer::I64(v) => ints(v@),
            DecimalBuffer::I128(v) => ints(v@),
            DecimalBuffer::I256(v) => ints(v@),
        }
    }
}

impl DecimalBuffer {
    /// The physical type of the mantissas.
    pub open spec fn spec_values_type(&self) -> DecimalType {
        match self {
            DecimalBuffer::I8(_) => DecimalType::I8,
            DecimalBuffer::I16(_) => DecimalType::I16,
            DecimalBuffer::I32(_) => DecimalType::I32,
            DecimalBuffer::I64(_) => DecimalType::I64,
            DecimalBuffer::I128(_) => DecimalType::I128,
            DecimalBuffer::I256(_) => DecimalType::I256,
        }
    }

    /// The physical type of the mantissas.
    pub fn values_type(&self) -> (t: DecimalType)
        ensures
            t == self.spec_values_type(),
    {
        match self {
            DecimalBuffer::I8(_) => DecimalType::I8,
            DecimalBuffer::I16(_) => DecimalType::I16,
            DecimalBuffer::I32(_) => DecimalType::I32,
            DecimalBuffer::I64(_) => DecimalType::I64,
            DecimalBuffer::I128(_) => DecimalType::I128,
            DecimalBuffer::I256(_) => DecimalType::I256,
        }
    }

    /// The number of mantissas.
    pub fn len(&self) -> (n: usize)
        ensures
            n == self@.len(),
    {
        match self {
            DecimalBuffer::I8(v) => v.len(),
            DecimalBuffer::I16(v) => v.len(),
            DecimalBuffer::I32(v) => v.len(),
            DecimalBuffer::I64(v) => v.len(),
            DecimalBuffer::I128(v) => v.len(),
            DecimalBuffer::I256(v) => v.len(),
        }
    }
}

/// Decimals of one precision and scale with their validity.
#[derive(Debug, PartialEq, Eq)]
pub struct DecimalArray {
    pub buffer: DecimalBuffer,
    pub decimal_dtype: DecimalDType,
    pub validity: Validity,
}

impl DecimalArray {
    /// The validity covers exactly the mantissas.
    pub open spec fn wf(&self) -> bool {
        self.validity.wf(self.buffer@.len())
    }

    /// The logical type.
    pub open spec fn spec_dtype(&self) -> DType {
        DType::Decimal(
            self.decimal_dtype,
            if self.validity.nullable() {
                Nullability::Nullable
            } else {
                Nullability::NonNullable
            },
        )
    }

    /// The logical type.
    pub fn dtype(&self) -> (d: DType)
        ensures
            d == self.spec_dtype(),
    {
        let nullability = if self.validity.is_nullable() {
            Nullability::Nullable
        } else {
            Nullability::NonNullable
        };
        DType::Decimal(self.decimal_dtype, nullability)
    }

    /// The same decimals, precision, scale, physical type and validity.
    pub open spec fn same(&self, other: &DecimalArray) -> bool {
        &&& self.buffer@ == other.buffer@
        &&& self.buffer.spec_values_type() == other.buffer.spec_values_type()
        &&& self.decimal_dtype == other.decimal_dtype
        &&& self.validity.same(&other.validity)
    }
}

/// The mantissas in another physical type that holds each of them.
fn upcast_decimal_buffer<F: NativeDecimalType, T: NativeDecimalType>(from: &Vec<F>) -> (to: Vec<T>)
    requires
        forall|i: int| 0 <= i < from@.len() ==> T::holds((#[trigger] from@[i]).as_int()),
    ensures
        ints(to@) == ints(from@),
{
    let mut to: Vec<T> = Vec::with_capacity(from.len());
    let mut i: usize = 0;
    while i < from.len()
        invariant
            forall|i: int| 0 <= i < from@.len() ==> T::holds((#[trigger] from@[i]).as_int()),
            i <= from@.len(),
            to@.len() == i,
            forall|j: int| 0 <= j < i ==> (#[trigger] to@[j]).as_int() == from@[j].as_int(),
        decreases from@.len() - i,
    {
        if let Some(x) = T::from_i256(from[i].to_i256()) {
            to.push(x);
        }
        i = i + 1;
    }
    assert(ints(to@) =~= ints(from@));
    to
}

/// Whether every mantissa is held by a physical type.
spec fn all_held(v: Seq<int>, t: DecimalType) -> bool {
    forall|i: int|
        0 <= i < v.len() ==> match t {
            DecimalType::I8 => i8::holds(#[trigger] v[i]),
            DecimalType::I16 => i16::holds(v[i]),
            DecimalType::I32 => i32::holds(v[i]),
            DecimalType::I64 => i64::holds(v[i]),
            DecimalType::I128 => i128::holds(v[i]),
            DecimalType::I256 => I256::holds(v[i]),
        }
}

fn upcast_to<F: NativeDecimalType>(from: &Vec<F>, to: DecimalType) -> (buffer: DecimalBuffer)
    requires
        all_held(ints(from@), to),
    ensures
        buffer@ == ints(from@),
        buffer.spec_values_type() == to,
{
    proof {
        assert forall|i: int| 0 <= i < from@.len() implies #[trigger] ints(from@)[i]
            == from@[i].as_int() by {}
        assert(forall|i: int|
            0 <= i < from@.len() ==> (#[trigger] from@[i]).as_int() == ints(from@)[i]);
    }
    match to {
        DecimalType::I8 => DecimalBuffer::I8(upcast_decimal_buffer(from)),
        DecimalType::I16 => DecimalBuffer::I16(upcast_decimal_buffer(from)),
        DecimalType::I32 => DecimalBuffer::I32(upcast_decimal_buffer(from)),
        DecimalType::I64 => DecimalBuffer::I64(upcast_decimal_buffer(from)),
        DecimalType::I128 => DecimalBuffer::I128(upcast_decimal_buffer(from)),
        DecimalType::I256 => DecimalBuffer::I256(upcast_decimal_buffer(from)),
    }
}

/// The mantissas in a physical type at least as wide as their own.
pub fn widen(buffer: &DecimalBuffer, to: DecimalType) -> (out: DecimalBuffer)
    requires
        buffer.spec_values_type().bits() <= to.bits(),
    ensures
        out@ == buffer@,
        out.spec_values_type() == to,
{
    match buffer {
        DecimalBuffer::I8(v) => upcast_to(v, to),
        DecimalBuffer::I16(v) => upcast_to(v, to),
        DecimalBuffer::I32(v) => upcast_to(v, to),
        DecimalBuffer::I64(v) => upcast_to(v, to),
        DecimalBuffer::I128(v) => upcast_to(v, to),
        DecimalBuffer::I256(v) => {
            proof {
                assert forall|i: int| 0 <= i < v@.len() implies I256::holds(
                    #[trigger] ints(v@)[i],
                ) by {
                    v@[i].in_range();
                }
            }
            upcast_to(v, to)
        },
    }
}

/// What moving decimals to another physical type gives.
pub open spec fn upcast_outcome(
    array: &DecimalArray,
    to_values_type: DecimalType,
    r: VortexResult<DecimalArray>,
) -> bool {
    match r {
        Ok(out) => {
            &&& to_values_type.bits() >= array.buffer.spec_values_type().bits()
            &&& out.wf()
            &&& out.buffer@ == array.buffer@
            &&& out.buffer.spec_values_type() == to_values_type
            &&& out.decimal_dtype == array.decimal_dtype
            &&& out.validity.same(&array.validity)
        },
        Err(e) => {
            &&& to_values_type.bits() < array.buffer.spec_values_type().bits()
            &&& e == (VortexError::DecimalValuesDowncast {
                from_type: array.buffer.spec_values_type(),
                to_type: to_values_type,
            })
        },
    }
}

/// The decimals in a wider physical type, at the same precision and scale. A narrower type is an
/// error.
pub fn upcast_decimal_values(array: &DecimalArray, to_values_type: DecimalType) -> (r: VortexResult<
    DecimalArray,
>)
    requires
        array.wf(),
    ensures
        upcast_outcome(array, to_values_type, r),
{
    let from_values_type = array.buffer.values_type();
    if to_values_type.bit_width() < from_values_type.bit_width() {
        return Err(
            VortexError::DecimalValuesDowncast {
                from_type: from_values_type,
                to_type: to_values_type,
            },
        );
    }
    let validity = array.validity.duplicate();
    let buffer = widen(&array.buffer, to_values_type);
    Ok(DecimalArray { buffer, decimal_dtype: array.decimal_dtype, validity })
}

/// Whether the mantissa in slot `i` cannot be rescaled.
pub open spec fn rescale_fails_at(v: Seq<int>, from_scale: i8, to_scale: i8, i: int) -> bool {
    int256::rescaled(v[i], from_scale as int, to_scale as int) is None
}

fn rescale_values<F: NativeDecimalType>(
    values: &Vec<F>,
    from_scale: i8,
    to_scale: i8,
) -> (r: VortexResult<Vec<I256>>)
    ensures
        match r {
            Ok(out) => {
                &&& out@.len() == values@.len()
                &&& forall|i: int|
                    0 <= i < values@.len() ==> int256::rescaled(
                        values@[i].as_int(),
                        from_scale as int,
                        to_scale as int,
                    ) == Some((#[trigger] out@[i])@)
            },
            Err(e) => {
                &&& e == (VortexError::DecimalRescaleOverflow { to_scale })
                &&& exists|i: int|
                    0 <= i < values@.len() && #[trigger] rescale_fails_at(
                        ints(values@),
                        from_scale,
                        to_scale,
                        i,
                    )
            },
        },
{
    let mut out: Vec<I256> = Vec::new();
    let mut i: usize = 0;
    while i < values.len()
        invariant
            i <= values@.len(),
            out@.len() == i,
            forall|j: int|
                0 <= j < i ==> int256::rescaled(values@[j].as_int(), from_scale as int, to_scale as int)
                    == Some((#[trigger] out@[j])@),
        decreases values@.len() - i,
    {
        match values[i].to_i256().rescale(from_scale, to_scale) {
            Some(v) => {
                out.push(v);
            },
            None => {
                assert(rescale_fails_at(ints(values@), from_scale, to_scale, i as int));
                return Err(VortexError::DecimalRescaleOverflow { to_scale });
            },
        }
        i = i + 1;
    }
    Ok(out)
}

/// Every mantissa of the array at another scale, as 256-bit integers. One mantissa that cannot be
/// rescaled fails the whole array, in a null slot too.
pub fn rescale_decimal_buffer(array: &DecimalArray, to_scale: i8) -> (r: VortexResult<
    DecimalBuffer,
>)
    ensures
        match r {
            Ok(out) => rescale_succeeds(&array.buffer, array.decimal_dtype.scale, to_scale, &out),
            Err(e) => {
                &&& e == (VortexError::DecimalRescaleOverflow { to_scale })
                &&& rescale_fails(&array.buffer, array.decimal_dtype.scale, to_scale)
            },
        },
{
    let from_scale = array.decimal_dtype.scale;
    let r = match &array.buffer {
        DecimalBuffer::I8(v) => rescale_values(v, from_scale, to_scale),
        DecimalBuffer::I16(v) => rescale_values(v, from_scale, to_scale),
        DecimalBuffer::I32(v) => rescale_values(v, from_scale, to_scale),
        DecimalBuffer::I64(v) => rescale_values(v, from_scale, to_scale),
        DecimalBuffer::I128(v) => rescale_values(v, from_scale, to_scale),
        DecimalBuffer::I256(v) => rescale_values(v, from_scale, to_scale),
    };
    match r {
        Ok(out) => {
            let buffer = DecimalBuffer::I256(out);
            proof {
                assert forall|i: int| 0 <= i < array.buffer@.len() implies int256::rescaled(
                    array.buffer@[i],
                    from_scale as int,
                    to_scale as int,
                ) == Some(#[trigger] buffer@[i]) by {
                    assert(buffer@[i] == out@[i]@);
                }
            }
            Ok(buffer)
        },
        Err(e) => Err(e),
    }
}

/// Some mantissa cannot be rescaled.
pub open spec fn rescale_fails(buffer: &DecimalBuffer, from_scale: i8, to_scale: i8) -> bool {
    exists|i: int|
        0 <= i < buffer@.len() && #[trigger] rescale_fails_at(buffer@, from_scale, to_scale, i)
}

/// `out` holds every mantissa rescaled, as 256-bit integers.
pub open spec fn rescale_succeeds(
    buffer: &DecimalBuffer,
    from_scale: i8,
    to_scale: i8,
    out: &DecimalBuffer,
) -> bool {
    &&& out.spec_values_type() == DecimalType::I256
    &&& out@.len() == buffer@.len()
    &&& forall|i: int|
        #![trigger out@[i]]
        #![trigger rescale_fails_at(buffer@, from_scale, to_scale, i)]
        0 <= i < buffer@.len() ==> int256::rescaled(buffer@[i], from_scale as int, to_scale as int) == Some(
            out@[i],
        )
}

/// The decimal encoding.
#[derive(Clone, Copy, Debug, PartialEq, Eq)]
pub struct Decimal;

impl Decimal {
    /// A cast that only changes the nullability of the same decimal type, where that needs no look
    /// at the validity's bits. Every other cast is left to `cast`.
    pub fn cast_reduce(array: &DecimalArray, dtype: &DType) -> (r: VortexResult<
        Option<DecimalArray>,
    >)
        requires
            array.wf(),
        ensures
            cast_reduce_result(array, *dtype, r),
    {
        match *dtype {
            DType::Decimal(to_decimal_dtype, to_nullability) => {
                if to_decimal_dtype != array.decimal_dtype {
                    return Ok(None);
                }
                match array.validity.trivially_cast_nullability(
                    to_nullability,
                    array.buffer.len(),
                ) {
                    Ok(Some(validity)) => {
                        let buffer = widen(&array.buffer, array.buffer.values_type());
                        Ok(
                            Some(
                                DecimalArray { buffer, decimal_dtype: to_decimal_dtype, validity },
                            ),
                        )
                    },
                    Ok(None) => Ok(None),
                    Err(e) => Err(e),
                }
            },
            _ => Ok(None),
        }
    }

    /// A cast to another decimal type, or `None` for a type that is no decimal. A cast to the
    /// array's own type returns the array.
    ///
    /// The nullability comes first: an array with a null cannot become non-nullable. A change of
    /// scale rescales every mantissa and stores 256-bit integers, whatever the precisions. At the
    /// same scale the precision may not shrink, and the mantissas move to the narrowest physical
    /// type of the new precision if that is wider than their own.
    pub fn cast(array: &DecimalArray, dtype: &DType) -> (r: VortexResult<Option<DecimalArray>>)
        requires
            array.wf(),
        ensures
            match *dtype {
                DType::Decimal(to, nullability) => decimal_cast_result(array, to, nullability, r),
                _ => r == Ok::<Option<DecimalArray>, VortexError>(None),
            },
    {
        match *dtype {
            DType::Decimal(to_decimal_dtype, to_nullability) => {
                if array.dtype() == *dtype {
                    let buffer = widen(&array.buffer, array.buffer.values_type());
                    let validity = array.validity.duplicate();
                    return Ok(
                        Some(DecimalArray { buffer, decimal_dtype: to_decimal_dtype, validity }),
                    );
                }
                let new_validity = match array.validity.cast_nullability(
                    to_nullability,
                    array.buffer.len(),
                ) {
                    Ok(v) => v,
                    Err(e) => return Err(e),
                };
                if array.decimal_dtype.scale != to_decimal_dtype.scale {
                    return match rescale_decimal_buffer(array, to_decimal_dtype.scale) {
                        Ok(buffer) => Ok(
                            Some(
                                DecimalArray {
                                    buffer,
                                    decimal_dtype: to_decimal_dtype,
                                    validity: new_validity,
                                },
                            ),
                        ),
                        Err(e) => Err(e),
                    };
                }
                if to_decimal_dtype.precision < array.decimal_dtype.precision {
                    return Err(
                        VortexError::DecimalPrecisionDowncast {
                            from: array.decimal_dtype.precision,
                            to: to_decimal_dtype.precision,
                        },
                    );
                }
                let target = DecimalType::smallest_decimal_value_type(&to_decimal_dtype);
                let from_values_type = array.buffer.values_type();
                let buffer = if target.bit_width() > from_values_type.bit_width() {
                    widen(&array.buffer, target)
                } else {
                    widen(&array.buffer, from_values_type)
                };
                Ok(
                    Some(
                        DecimalArray {
                            buffer,
                            decimal_dtype: to_decimal_dtype,
                            validity: new_validity,
                        },
                    ),
                )
            },
            _ => Ok(None),
        }
    }
}

impl Decimal {
    /// Casts an array by the reduction where it answers, and else by the kernel. A type that is no
    /// decimal has no kernel.
    pub fn execute_cast(array: &DecimalArray, dtype: &DType) -> (r: VortexResult<DecimalArray>)
        requires
            array.wf(),
        ensures
            executed_cast(array, *dtype, r),
    {
        match Decimal::cast_reduce(array, dtype) {
            Err(e) => return Err(e),
            Ok(Some(out)) => {
                assert(cast_reduce_result(array, *dtype, Ok(Some(out))));
                return Ok(out);
            },
            Ok(None) => {},
        }
        match Decimal::cast(array, dtype) {
            Err(e) => Err(e),
            Ok(Some(out)) => Ok(out),
            Ok(None) => Err(VortexError::NoCastKernel),
        }
    }
}

/// Whether the reduction answers a cast to the decimal type `to`: one that keeps precision and
/// scale, and that needs no look at the validity's bits.
pub open spec fn reduces(array: &DecimalArray, to: DecimalDType, nullability: Nullability) -> bool {
    to == array.decimal_dtype && !(nullability is NonNullable && array.buffer@.len() > 0
        && array.validity is Array)
}

/// What casting by reduction or kernel gives: for a decimal type what the reduction gives where it
/// answers, and else what the kernel gives; for any other the lack of a kernel.
pub open spec fn executed_cast(
    array: &DecimalArray,
    dtype: DType,
    r: VortexResult<DecimalArray>,
) -> bool {
    match dtype {
        DType::Decimal(to, nullability) => {
            let answer = match r {
                Ok(out) => Ok(Some(out)),
                Err(e) => Err(e),
            };
            if reduces(array, to, nullability) {
                cast_reduce_result(array, dtype, answer)
            } else {
                decimal_cast_result(array, to, nullability, answer)
            }
        },
        _ => r == Err::<DecimalArray, VortexError>(VortexError::NoCastKernel),
    }
}

/// The wider of two physical types.
pub open spec fn wider(a: DecimalType, b: DecimalType) -> DecimalType {
    if a.bits() > b.bits() {
        a
    } else {
        b
    }
}

/// What `Decimal::cast_reduce` gives.
pub open spec fn cast_reduce_result(
    array: &DecimalArray,
    dtype: DType,
    r: VortexResult<Option<DecimalArray>>,
) -> bool {
    match dtype {
        DType::Decimal(to, nullability) if to == array.decimal_dtype => match r {
            Ok(Some(out)) => {
                &&& nullability is NonNullable ==> array.buffer@.len() == 0 || !(
                array.validity is AllInvalid || array.validity is Array)
                &&& out.wf()
                &&& out.buffer@ == array.buffer@
                &&& out.buffer.spec_values_type() == array.buffer.spec_values_type()
                &&& out.spec_dtype() == dtype
                &&& validity::nullability_applied(&array.validity, nullability, &out.validity)
            },
            Ok(None) => nullability is NonNullable && array.buffer@.len() > 0
                && array.validity is Array,
            Err(e) => e == VortexError::InvalidValuesToNonNullable && nullability is NonNullable
                && array.buffer@.len() > 0 && array.validity is AllInvalid,
        },
        _ => r == Ok::<Option<DecimalArray>, VortexError>(None),
    }
}

/// Where the reduction answers, the kernel gives the same answer: the same error, or the same
/// mantissas under the same type. (The kernel may store them in a wider physical type.)
pub proof fn reduce_agrees_with_kernel(
    array: &DecimalArray,
    to: DecimalDType,
    nullability: Nullability,
    reduced: VortexResult<Option<DecimalArray>>,
    cast: VortexResult<Option<DecimalArray>>,
)
    requires
        array.wf(),
        cast_reduce_result(array, DType::Decimal(to, nullability), reduced),
        decimal_cast_result(array, to, nullability, cast),
        reduced != Ok::<Option<DecimalArray>, VortexError>(None),
    ensures
        match reduced {
            Ok(Some(out)) => cast matches Ok(Some(c)) && c.buffer@ == out.buffer@ && c.spec_dtype()
                == out.spec_dtype() && c.validity.same(&out.validity),
            Ok(None) => false,
            Err(e) => cast == Err::<Option<DecimalArray>, VortexError>(e),
        },
{
    if let Err(e) = reduced {
        assert(!array.validity.valid_at(0));
    }
}

/// Raising the scale of an array and lowering it back gives every mantissa unchanged.
pub proof fn widening_then_narrowing_restores_buffer(
    buffer: &DecimalBuffer,
    from_scale: i8,
    to_scale: i8,
    widened: &DecimalBuffer,
    back: &DecimalBuffer,
)
    requires
        from_scale <= to_scale,
        rescale_succeeds(buffer, from_scale, to_scale, widened),
        rescale_succeeds(widened, to_scale, from_scale, back),
    ensures
        back@ == buffer@,
{
    assert forall|i: int| 0 <= i < buffer@.len() implies #[trigger] back@[i] == buffer@[i] by {
        let w = widened@[i];
        int256::widening_then_narrowing_is_identity(buffer@[i], from_scale as int, to_scale as int);
    }
    assert(back@ =~= buffer@);
}

/// What casting `array` to the decimal type `to` with `nullability` gives.
pub open spec fn decimal_cast_result(
    array: &DecimalArray,
    to: DecimalDType,
    nullability: Nullability,
    r: VortexResult<Option<DecimalArray>>,
) -> bool {
    let from = array.decimal_dtype;
    let len = array.buffer@.len();
    if array.spec_dtype() == DType::Decimal(to, nullability) {
        r matches Ok(Some(out)) && out.same(array) && out.wf()
    } else if nullability is NonNullable && validity::has_null(&array.validity, len) {
        r matches Err(e) && e == VortexError::InvalidValuesToNonNullable
    } else if from.scale != to.scale {
        if rescale_fails(&array.buffer, from.scale, to.scale) {
            r matches Err(e) && e == (VortexError::DecimalRescaleOverflow { to_scale: to.scale })
        } else {
            r matches Ok(Some(out)) && out.wf() && rescale_succeeds(
                &array.buffer,
                from.scale,
                to.scale,
                &out.buffer,
            ) && out.spec_dtype() == DType::Decimal(to, nullability) && validity::nullability_applied(
                &array.validity,
                nullability,
                &out.validity,
            )
        }
    } else if to.precision < from.precision {
        r matches Err(e) && e == (VortexError::DecimalPrecisionDowncast {
            from: from.precision,
            to: to.precision,
        })
    } else {
        r matches Ok(Some(out)) && out.wf() && out.buffer@ == array.buffer@
            && out.buffer.spec_values_type() == wider(
            DecimalType::smallest_for(to.precision),
            array.buffer.spec_values_type(),
        ) && out.spec_dtype() == DType::Decimal(to, nullability) && validity::nullability_applied(
            &array.validity,
            nullability,
            &out.validity,
        )
    }
}

/// Whether `out` has the rows of `array`: as many, and the same ones null.
pub open spec fn keeps_rows(array: &DecimalArray, out: &DecimalArray) -> bool {
    &&& out.buffer@.len() == array.buffer@.len()
    &&& forall|i: int|
        0 <= i < array.buffer@.len() ==> #[trigger] out.validity.valid_at(i)
            == array.validity.valid_at(i)
}

/// Whether `out` is `array` as decimals of type `to`: the same rows, every mantissa moved by as
/// many places as the scale changes, and nullable as asked.
pub open spec fn holds_the_decimals(
    array: &DecimalArray,
    to: DecimalDType,
    nullability: Nullability,
    out: &DecimalArray,
) -> bool {
    &&& keeps_rows(array, out)
    &&& out.wf()
    &&& out.decimal_dtype == to
    &&& out.validity is NonNullable <==> nullability is NonNullable
    &&& forall|i: int|
        0 <= i < array.buffer@.len() ==> int256::moved_by_places(
            array.buffer@[i],
            to.scale - array.decimal_dtype.scale,
            #[trigger] out.buffer@[i],
        )
}

/// Whether some mantissa, in a null row too, has no place at the new scale.
pub open spec fn out_of_scale(array: &DecimalArray, to_scale: i8) -> bool {
    let delta = to_scale - array.decimal_dtype.scale;
    exists|i: int|
        0 <= i < array.buffer@.len() && !int256::has_place(#[trigger] array.buffer@[i], delta)
}

/// The error that a cast to decimals owes, if it owes one: to an array with a null that is to be
/// non-nullable, else to a mantissa that has no place at the new scale, else to fewer digits at the
/// same scale.
pub open spec fn cast_error(
    array: &DecimalArray,
    to: DecimalDType,
    nullability: Nullability,
) -> Option<VortexError> {
    let from = array.decimal_dtype;
    if nullability is NonNullable && exists|i: int|
        0 <= i < array.buffer@.len() && !#[trigger] array.validity.valid_at(i) {
        Some(VortexError::InvalidValuesToNonNullable)
    } else if from.scale != to.scale && out_of_scale(array, to.scale) {
        Some(VortexError::DecimalRescaleOverflow { to_scale: to.scale })
    } else if from.scale == to.scale && to.precision < from.precision {
        Some(VortexError::DecimalPrecisionDowncast { from: from.precision, to: to.precision })
    } else {
        None
    }
}

/// A validity under another nullability says the same of every entry, where none is lost.
proof fn applied_keeps_entries(array: &DecimalArray, nullability: Nullability, out: &DecimalArray)
    requires
        array.wf(),
        out.buffer@.len() == array.buffer@.len(),
        validity::nullability_applied(&array.validity, nullability, &out.validity),
        nullability is NonNullable ==> !validity::has_null(&array.validity, array.buffer@.len()),
    ensures
        keeps_rows(array, out),
        out.validity is NonNullable <==> nullability is NonNullable,
{
    assert forall|i: int| 0 <= i < array.buffer@.len() implies #[trigger] out.validity.valid_at(i)
        == array.validity.valid_at(i) by {
        if nullability is NonNullable {
            assert(array.validity.valid_at(i));
        }
    }
}

/// Mantissas that stay as they are have moved by no place.
proof fn unmoved(array: &DecimalArray, to: DecimalDType, out: &DecimalArray)
    requires
        to.scale == array.decimal_dtype.scale,
        out.buffer@ == array.buffer@,
    ensures
        forall|i: int|
            0 <= i < array.buffer@.len() ==> int256::moved_by_places(
                array.buffer@[i],
                to.scale - array.decimal_dtype.scale,
                #[trigger] out.buffer@[i],
            ),
{
    vstd::arithmetic::power::lemma_pow0(10);
}

/// Every stored mantissa is a 256-bit integer.
proof fn stored_mantissas_fit(buffer: &DecimalBuffer, i: int)
    requires
        0 <= i < buffer@.len(),
    ensures
        int256::fits_i256(buffer@[i]),
{
    if let DecimalBuffer::I256(v) = buffer {
        v@[i].in_range();
    }
}

/// Rescaling fails where a mantissa has no place at the new scale, and nowhere else.
proof fn rescaling_fails_out_of_scale(array: &DecimalArray, to_scale: i8)
    ensures
        rescale_fails(&array.buffer, array.decimal_dtype.scale, to_scale) <==> out_of_scale(
            array,
            to_scale,
        ),
{
    let from_scale = array.decimal_dtype.scale;
    let delta = to_scale - from_scale;
    assert forall|i: int| 0 <= i < array.buffer@.len() implies rescale_fails_at(
        array.buffer@,
        from_scale,
        to_scale,
        i,
    ) == !int256::has_place(#[trigger] array.buffer@[i], delta) by {
        stored_mantissas_fit(&array.buffer, i);
        int256::rescaling_moves_by_places(array.buffer@[i], from_scale as int, to_scale as int);
    }
    if rescale_fails(&array.buffer, from_scale, to_scale) {
        let i = choose|i: int|
            0 <= i < array.buffer@.len() && #[trigger] rescale_fails_at(
                array.buffer@,
                from_scale,
                to_scale,
                i,
            );
        assert(!int256::has_place(array.buffer@[i], delta));
    }
    if out_of_scale(array, to_scale) {
        let i = choose|i: int|
            0 <= i < array.buffer@.len() && !int256::has_place(#[trigger] array.buffer@[i], delta);
        assert(rescale_fails_at(array.buffer@, from_scale, to_scale, i));
    }
}

/// A cast by the kernel succeeds on exactly the arrays that owe no error, and then holds the same
/// rows, the same ones null, whether precision, scale or nullability changes.
pub proof fn cast_keeps_the_decimals(
    array: &DecimalArray,
    to: DecimalDType,
    nullability: Nullability,
    r: VortexResult<Option<DecimalArray>>,
)
    requires
        array.wf(),
        decimal_cast_result(array, to, nullability, r),
    ensures
        match r {
            Ok(Some(out)) => {
                &&& cast_error(array, to, nullability) is None
                &&& holds_the_decimals(array, to, nullability, &out)
            },
            Ok(None) => false,
            Err(e) => cast_error(array, to, nullability) == Some(e),
        },
{
    rescaling_fails_out_of_scale(array, to.scale);
    if let Ok(Some(out)) = r {
        let from = array.decimal_dtype;
        if array.spec_dtype() == DType::Decimal(to, nullability) {
            unmoved(array, to, &out);
        } else if from.scale != to.scale {
            applied_keeps_entries(array, nullability, &out);
            assert forall|i: int| 0 <= i < array.buffer@.len() implies int256::moved_by_places(
                array.buffer@[i],
                to.scale - from.scale,
                #[trigger] out.buffer@[i],
            ) by {
                stored_mantissas_fit(&array.buffer, i);
                int256::rescaling_moves_by_places(
                    array.buffer@[i],
                    from.scale as int,
                    to.scale as int,
                );
            }
        } else {
            applied_keeps_entries(array, nullability, &out);
            unmoved(array, to, &out);
        }
    }
}

/// A cast by the reduction keeps every mantissa and every null, and only ever fails on an array
/// with a null that is to be non-nullable.
pub proof fn reduction_keeps_the_decimals(
    array: &DecimalArray,
    to: DecimalDType,
    nullability: Nullability,
    r: VortexResult<Option<DecimalArray>>,
)
    requires
        array.wf(),
        cast_reduce_result(array, DType::Decimal(to, nullability), r),
    ensures
        match r {
            Ok(Some(out)) => {
                &&& cast_error(array, to, nullability) is None
                &&& holds_the_decimals(array, to, nullability, &out)
                &&& out.buffer.spec_values_type() == array.buffer.spec_values_type()
            },
            Ok(None) => to != array.decimal_dtype || nullability is NonNullable
                && array.buffer@.len() > 0 && array.validity is Array,
            Err(e) => cast_error(array, to, nullability) == Some(e),
        },
        to != array.decimal_dtype ==> r == Ok::<Option<DecimalArray>, VortexError>(None),
{
    match r {
        Ok(Some(out)) => {
            applied_keeps_entries(array, nullability, &out);
            unmoved(array, to, &out);
        },
        Err(e) => {
            assert(!array.validity.valid_at(0));
        },
        _ => {},
    }
}

/// However a cast to decimals is answered, it succeeds on exactly the arrays that owe no error, and
/// then entry `i` of the result is valid exactly when entry `i` of the array is, and holds the same
/// decimal at the new scale.
pub proof fn executed_cast_keeps_the_decimals(
    array: &DecimalArray,
    to: DecimalDType,
    nullability: Nullability,
    r: VortexResult<DecimalArray>,
)
    requires
        array.wf(),
        executed_cast(array, DType::Decimal(to, nullability), r),
    ensures
        match r {
            Ok(out) => {
                &&& cast_error(array, to, nullability) is None
                &&& holds_the_decimals(array, to, nullability, &out)
            },
            Err(e) => cast_error(array, to, nullability) == Some(e),
        },
{
    let answer = match r {
        Ok(out) => Ok(Some(out)),
        Err(e) => Err(e),
    };
    if reduces(array, to, nullability) {
        reduction_keeps_the_decimals(array, to, nullability, answer);
    } else {
        cast_keeps_the_decimals(array, to, nullability, answer);
    }
}

/// The largest mantissa of a physical type.
pub open spec fn largest_mantissa(t: DecimalType) -> int {
    match t {
        DecimalType::I8 => i8::MAX as int,
        DecimalType::I16 => i16::MAX as int,
        DecimalType::I32 => i32::MAX as int,
        DecimalType::I64 => i64::MAX as int,
        DecimalType::I128 => i128::MAX as int,
        DecimalType::I256 => vstd::arithmetic::power2::pow2(255) - 1,
    }
}

/// The physical type of a precision holds every mantissa of so many digits, up to the 76 of the
/// widest type, and no narrower type does.
pub proof fn smallest_type_is_narrowest(precision: u8, narrower: DecimalType)
    requires
        narrower.bits() < DecimalType::smallest_for(precision).bits(),
    ensures
        precision <= 76 ==> vstd::arithmetic::power::pow(10, precision as nat) - 1
            <= largest_mantissa(DecimalType::smallest_for(precision)),
        vstd::arithmetic::power::pow(10, precision as nat) - 1 > largest_mantissa(narrower),
{
    let p = precision as nat;
    int256::pow10_is_power(p);
    int256::bound_is_power();
    digits_by_type();
    if p <= 2 {
        int256::pow10_grows(p, 2);
    } else if p <= 4 {
        int256::pow10_grows(3, p);
        int256::pow10_grows(p, 4);
    } else if p <= 9 {
        int256::pow10_grows(5, p);
        int256::pow10_grows(p, 9);
    } else if p <= 18 {
        int256::pow10_grows(10, p);
        int256::pow10_grows(p, 18);
    } else if p <= 38 {
        int256::pow10_grows(19, p);
        int256::pow10_grows(p, 38);
    } else {
        int256::pow10_grows(39, p);
        if p <= 76 {
            int256::pow10_grows(p, 76);
        }
    }
}

/// The powers of ten on both sides of each physical type's limit.
proof fn digits_by_type()
    ensures
        int256::pow10(2) <= i8::MAX + 1 < int256::pow10(3),
        int256::pow10(4) <= i16::MAX + 1 < int256::pow10(5),
        int256::pow10(9) <= i32::MAX + 1 < int256::pow10(10),
        int256::pow10(18) <= i64::MAX + 1 < int256::pow10(19),
        int256::pow10(38) <= i128::MAX + 1 < int256::pow10(39),
        int256::pow10(76) <= int256::b255(),
{
    reveal_with_fuel(int256::pow10, 20);
    let t = int256::pow10(19);
    assert(t == 10000000000000000000);
    int256::pow10_adds(19, 19);
    int256::pow10_adds(38, 1);
    int256::pow10_adds(38, 38);
    assert(t * t == 100000000000000000000000000000000000000) by (nonlinear_arith)
        requires
            t == 10000000000000000000,
    ;
    let u = int256::pow10(38);
    assert(u * u == 10000000000000000000000000000000000000000000000000000000000000000000000000000int)
        by (nonlinear_arith)
        requires
            u == 100000000000000000000000000000000000000,
    ;
}

/// A cast to the array's own type keeps the physical type. At another scale a cast stores 256-bit
/// integers. At the same scale it keeps the physical type where that holds every mantissa of the
/// new precision, and else widens it to one that does, which no narrower type would.
pub proof fn cast_stores_wide_enough(
    array: &DecimalArray,
    to: DecimalDType,
    nullability: Nullability,
    r: VortexResult<Option<DecimalArray>>,
    narrower: DecimalType,
)
    requires
        array.wf(),
        to.precision <= 76,
        decimal_cast_result(array, to, nullability, r),
    ensures
        r matches Ok(Some(out)) ==> ({
            let digits = vstd::arithmetic::power::pow(10, to.precision as nat) - 1;
            let own = array.buffer.spec_values_type();
            let stored = out.buffer.spec_values_type();
            if array.spec_dtype() == DType::Decimal(to, nullability) {
                stored == own
            } else if to.scale != array.decimal_dtype.scale {
                out.buffer is I256
            } else {
                &&& digits <= largest_mantissa(stored)
                &&& digits <= largest_mantissa(own) ==> stored == own
                &&& stored != own && narrower.bits() < stored.bits() ==> digits > largest_mantissa(
                    narrower,
                )
            }
        }),
{
    let small = DecimalType::smallest_for(to.precision);
    let own = array.buffer.spec_values_type();
    let p = to.precision as nat;
    int256::pow10_is_power(p);
    int256::bound_is_power();
    digits_by_type();
    if p <= 2 {
        int256::pow10_grows(p, 2);
    } else {
        smallest_type_is_narrowest(to.precision, DecimalType::I8);
        if own.bits() < small.bits() {
            smallest_type_is_narrowest(to.precision, own);
        }
        if narrower.bits() < small.bits() {
            smallest_type_is_narrowest(to.precision, narrower);
        }
    }
}

/// Decimals move to every physical type that holds all mantissas of their own, and to no other.
/// They stay the same decimals of the same type, null where they were.
pub proof fn upcast_keeps_the_decimals(
    array: &DecimalArray,
    to_values_type: DecimalType,
    r: VortexResult<DecimalArray>,
)
    requires
        array.wf(),
        upcast_outcome(array, to_values_type, r),
    ensures
        r is Ok <==> largest_mantissa(to_values_type) >= largest_mantissa(
            array.buffer.spec_values_type(),
        ),
        r matches Ok(out) ==> {
            &&& keeps_rows(array, &out)
            &&& out.buffer.spec_values_type() == to_values_type
            &&& out.decimal_dtype == array.decimal_dtype
            &&& out.validity is NonNullable <==> array.validity is NonNullable
            &&& forall|i: int|
                0 <= i < array.buffer@.len() ==> #[trigger] out.buffer@[i] == array.buffer@[i]
        },
        r matches Err(e) ==> e == (VortexError::DecimalValuesDowncast {
            from_type: array.buffer.spec_values_type(),
            to_type: to_values_type,
        }),
{
    int256::bound_is_power();
}

} // verus!
