//! Logical and physical types.
use vstd::prelude::*;

verus! {

/// Whether an array may hold nulls.
#[derive(Clone, Copy, Debug, PartialEq, Eq, Structural)]
pub enum Nullability {
    NonNullable,
    Nullable,
}

/// The physical type of a number.
#[derive(Clone, Copy, Debug, PartialEq, Eq, Structural)]
pub enum PType {
    U8,
    U16,
    U32,
    U64,
    I8,
    I16,
    I32,
    I64,
    F16,
    F32,
    F64,
}

/// The precision and scale of a decimal.
#[derive(Clone, Copy, Debug, PartialEq, Eq, Structural)]
pub struct DecimalDType {
    pub precision: u8,
    pub scale: i8,
}

/// The physical type of a decimal's mantissa.
#[derive(Clone, Copy, Debug, PartialEq, Eq, Structural)]
pub enum DecimalType {
    I8,
    I16,
    I32,
    I64,
    I128,
    I256,
}

/// A logical type.
#[derive(Clone, Copy, Debug, PartialEq, Eq, Structural)]
pub enum DType {
    Null,
    Bool(Nullability),
    Primitive(PType, Nullability),
    Decimal(DecimalDType, Nullability),
    Utf8(Nullability),
    Binary(Nullability),
    List(Nullability),
    FixedSizeList(Nullability),
    Struct(Nullability),
    Extension(Nullability),
}

impl PType {
    /// The width in bits.
    pub open spec fn bits(self) -> int {
        match self {
            PType::U8 | PType::I8 => 8,
            PType::U16 | PType::I16 | PType::F16 => 16,
            PType::U32 | PType::I32 | PType::F32 => 32,
            PType::U64 | PType::I64 | PType::F64 => 64,
        }
    }

    /// The width in bits.
    pub fn bit_width(self) -> (n: u32)
        ensures
            n == self.bits(),
    {
        match self {
            PType::U8 | PType::I8 => 8,
            PType::U16 | PType::I16 | PType::F16 => 16,
            PType::U32 | PType::I32 | PType::F32 => 32,
            PType::U64 | PType::I64 | PType::F64 => 64,
        }
    }

    /// Whether the type is a signed integer.
    pub open spec fn signed_int(self) -> bool {
        self == PType::I8 || self == PType::I16 || self == PType::I32 || self == PType::I64
    }

    /// Whether the type is a signed integer.
    pub fn is_signed_int(self) -> (b: bool)
        ensures
            b == self.signed_int(),
    {
        matches!(self, PType::I8 | PType::I16 | PType::I32 | PType::I64)
    }

    /// Whether the type is an integer.
    pub open spec fn int_type(self) -> bool {
        !(self == PType::F16 || self == PType::F32 || self == PType::F64)
    }

    /// Whether the type is an integer.
    pub fn is_int(self) -> (b: bool)
        ensures
            b == self.int_type(),
    {
        !matches!(self, PType::F16 | PType::F32 | PType::F64)
    }

    /// The smallest value of an integer type; 0 for a floating-point type's bit patterns.
    pub open spec fn min_int(self) -> int {
        match self {
            PType::I8 => i8::MIN as int,
            PType::I16 => i16::MIN as int,
            PType::I32 => i32::MIN as int,
            PType::I64 => i64::MIN as int,
            _ => 0,
        }
    }

    /// The largest value of an integer type, or the largest bit pattern.
    pub open spec fn max_int(self) -> int {
        match self {
            PType::I8 => i8::MAX as int,
            PType::I16 => i16::MAX as int,
            PType::I32 => i32::MAX as int,
            PType::I64 => i64::MAX as int,
            PType::U8 => u8::MAX as int,
            PType::U16 | PType::F16 => u16::MAX as int,
            PType::U32 | PType::F32 => u32::MAX as int,
            PType::U64 | PType::F64 => u64::MAX as int,
        }
    }

    /// Whether the type holds a value.
    pub open spec fn holds(self, v: int) -> bool {
        self.min_int() <= v <= self.max_int()
    }

    /// The smallest and the largest value.
    pub fn limits(self) -> (r: (i128, i128))
        ensures
            r.0 == self.min_int(),
            r.1 == self.max_int(),
    {
        match self {
            PType::I8 => (-0x80, 0x7f),
            PType::I16 => (-0x8000, 0x7fff),
            PType::I32 => (-0x8000_0000, 0x7fff_ffff),
            PType::I64 => (-0x8000_0000_0000_0000, 0x7fff_ffff_ffff_ffff),
            PType::U8 => (0, 0xff),
            PType::U16 | PType::F16 => (0, 0xffff),
            PType::U32 | PType::F32 => (0, 0xffff_ffff),
            PType::U64 | PType::F64 => (0, 0xffff_ffff_ffff_ffff),
        }
    }
}

impl DType {
    /// Whether the type is an integer.
    pub open spec fn int_type(self) -> bool {
        self matches DType::Primitive(p, _) && p.int_type()
    }

    /// Whether the type is an integer.
    pub fn is_int(&self) -> (b: bool)
        ensures
            b == self.int_type(),
    {
        match self {
            DType::Primitive(p, _) => p.is_int(),
            _ => false,
        }
    }

    /// Whether the type is a string.
    pub fn is_utf8(&self) -> (b: bool)
        ensures
            b == (*self is Utf8),
    {
        matches!(self, DType::Utf8(_))
    }
}

impl DecimalType {
    /// The width in bits.
    pub open spec fn bits(self) -> int {
        match self {
            DecimalType::I8 => 8,
            DecimalType::I16 => 16,
            DecimalType::I32 => 32,
            DecimalType::I64 => 64,
            DecimalType::I128 => 128,
            DecimalType::I256 => 256,
        }
    }

    /// The width in bits.
    pub fn bit_width(self) -> (n: u32)
        ensures
            n == self.bits(),
    {
        match self {
            DecimalType::I8 => 8,
            DecimalType::I16 => 16,
            DecimalType::I32 => 32,
            DecimalType::I64 => 64,
            DecimalType::I128 => 128,
            DecimalType::I256 => 256,
        }
    }

    /// The type's name.
    pub open spec fn spec_name(self) -> Seq<char> {
        match self {
            DecimalType::I8 => "i8"@,
            DecimalType::I16 => "i16"@,
            DecimalType::I32 => "i32"@,
            DecimalType::I64 => "i64"@,
            DecimalType::I128 => "i128"@,
            DecimalType::I256 => "i256"@,
        }
    }

    /// The type's name.
    pub fn name(self) -> (s: &'static str)
        ensures
            s@ == self.spec_name(),
    {
        match self {
            DecimalType::I8 => "i8",
            DecimalType::I16 => "i16",
            DecimalType::I32 => "i32",
            DecimalType::I64 => "i64",
            DecimalType::I128 => "i128",
            DecimalType::I256 => "i256",
        }
    }

    /// The variant's name.
    pub open spec fn spec_variant_name(self) -> Seq<char> {
        match self {
            DecimalType::I8 => "I8"@,
            DecimalType::I16 => "I16"@,
            DecimalType::I32 => "I32"@,
            DecimalType::I64 => "I64"@,
            DecimalType::I128 => "I128"@,
            DecimalType::I256 => "I256"@,
        }
    }

    /// The variant's name.
    pub fn variant_name(self) -> (s: &'static str)
        ensures
            s@ == self.spec_variant_name(),
    {
        match self {
            DecimalType::I8 => "I8",
            DecimalType::I16 => "I16",
            DecimalType::I32 => "I32",
            DecimalType::I64 => "I64",
            DecimalType::I128 => "I128",
            DecimalType::I256 => "I256",
        }
    }

    /// The narrowest type that holds every mantissa of `precision` digits.
    pub open spec fn smallest_for(precision: u8) -> DecimalType {
        if precision <= 2 {
            DecimalType::I8
        } else if precision <= 4 {
            DecimalType::I16
        } else if precision <= 9 {
            DecimalType::I32
        } else if precision <= 18 {
            DecimalType::I64
        } else if precision <= 38 {
            DecimalType::I128
        } else {
            DecimalType::I256
        }
    }

    /// The narrowest type that holds every mantissa of the decimal's precision.
    pub fn smallest_decimal_value_type(dtype: &DecimalDType) -> (t: DecimalType)
        ensures
            t == DecimalType::smallest_for(dtype.precision),
    {
        if dtype.precision <= 2 {
            DecimalType::I8
        } else if dtype.precision <= 4 {
            DecimalType::I16
        } else if dtype.precision <= 9 {
            DecimalType::I32
        } else if dtype.precision <= 18 {
            DecimalType::I64
        } else if dtype.precision <= 38 {
            DecimalType::I128
        } else {
            DecimalType::I256
        }
    }
}

impl PType {
    /// An integer type has two to the power of its width many values, which start below zero
    /// exactly for the signed types and then reach as far up as down.
    pub proof fn width_counts_values(self)
        requires
            self.int_type(),
        ensures
            self.max_int() - self.min_int() + 1 == vstd::arithmetic::power2::pow2(
                self.bits() as nat,
            ),
            self.signed_int() <==> self.min_int() < 0,
            self.signed_int() ==> self.max_int() == -self.min_int() - 1,
            !self.signed_int() ==> self.min_int() == 0,
    {
        vstd::arithmetic::power2::lemma2_to64();
        vstd::arithmetic::power2::lemma2_to64_rest();
    }
}

} // verus!
