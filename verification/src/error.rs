//! Errors of the library.
use vstd::prelude::*;

use crate::dtype::DecimalType;
use crate::text;
use crate::text::{push_decimal, push_signed};

verus! {

/// What an operation of this library fails with.
#[derive(Clone, Copy, Debug, PartialEq, Eq, Structural)]
pub enum VortexError {
    /// An index outside `first..stop`.
    OutOfBounds { index: usize, first: usize, stop: usize },
    /// An array with nulls cannot become non-nullable.
    InvalidValuesToNonNullable,
    /// A rescaled decimal is no 256-bit integer.
    DecimalRescaleOverflow { to_scale: i8 },
    /// A decimal cannot lose precision.
    DecimalPrecisionDowncast { from: u8, to: u8 },
    /// Decimal values cannot move to a narrower physical type.
    DecimalValuesDowncast { from_type: DecimalType, to_type: DecimalType },
    /// No kernel casts an array to a type.
    NoCastKernel,
    /// A length or count does not fit its target type.
    TryFromInt,
    /// A value does not fit the type that it is cast to.
    ValueCast,
    /// Decimal storage is wider than the Arrow decimal.
    DecimalExportNarrowing { from_type: DecimalType, to_type: DecimalType },
    /// Arrow has no decimal of this width.
    DecimalExportTarget { to_type: DecimalType },
    /// A binary view refers to a buffer, or a range of one, that does not exist.
    InvalidViewBuffer,
    /// Binary offsets exceed 32 bits.
    BinaryOffsetsOverflow,
    /// A status that the binary export does not know.
    UnexpectedBinaryStatus { status: u32 },
    /// A fixed list size exceeds 32 bits.
    FixedListSizeOverflow { list_size: u32 },
    /// The offsets of fixed-size lists exceed 32 bits.
    FixedListOffsetsOverflow,
    /// An extension type that is not temporal.
    NotTemporal,
    /// An array that Arrow cannot hold.
    UnsupportedExport,
    /// The device could not turn list views into lists.
    DeviceListView,
    /// An array without a valid value has no smallest one.
    NoMinimum,
    /// Only signed integers have a ZigZag encoding.
    ZigZagUnsigned,
    /// A string, or all compressed strings together, exceed 32 bits.
    FsstLengthOverflow,
    /// A symbol table with a symbol of more than eight bytes.
    FsstSymbolTooLong,
    /// The object store failed.
    ObjectStore,
    /// An object store stream returned more bytes than the range holds.
    StreamTooLong { got: u128, expected: usize, start: u64, end: u64 },
    /// An object store stream returned fewer bytes than the range holds.
    StreamTooShort { returned: usize, expected: usize, start: u64, end: u64 },
}

pub type VortexResult<T> = Result<T, VortexError>;

impl VortexError {
    /// The error in words.
    pub open spec fn spec_message(self) -> Seq<char> {
        match self {
            VortexError::OutOfBounds { index, first, stop } => "index "@ + text::decimal_text(index as nat) + " out of bounds from "@ + text::decimal_text(first as nat) + " to "@ + text::decimal_text(stop as nat),
            VortexError::InvalidValuesToNonNullable => "Cannot cast array with invalid values to non-nullable type"@,
            VortexError::DecimalRescaleOverflow { to_scale } => "decimal value overflows i256 when rescaling to scale "@ + text::signed_text(to_scale as int),
            VortexError::DecimalPrecisionDowncast { from, to } => "Downcasting decimal from precision "@ + text::decimal_text(from as nat) + " to "@ + text::decimal_text(to as nat) + " not yet implemented"@,
            VortexError::DecimalValuesDowncast { from_type, to_type } => "Cannot downcast decimal values from "@ + from_type.spec_variant_name() + " to "@ + to_type.spec_variant_name() + ". Only upcasting is supported."@,
            VortexError::NoCastKernel => "No CastKernel to cast canonical array"@,
            VortexError::TryFromInt => "out of range integral type conversion attempted"@,
            VortexError::ValueCast => "a value does not fit the type that it is cast to"@,
            VortexError::DecimalExportNarrowing { from_type, to_type } => "cannot export decimal values from "@ + from_type.spec_name() + " storage to Arrow "@ + to_type.spec_name() + ": narrowing would require a device-to-host overflow check"@,
            VortexError::DecimalExportTarget { to_type } => "cannot export DecimalArray as Arrow decimal value type "@ + to_type.spec_name(),
            VortexError::InvalidViewBuffer => "cannot export BinaryView as Arrow Binary: a view references an invalid data buffer"@,
            VortexError::BinaryOffsetsOverflow => "cannot export BinaryView as Arrow Binary: offsets exceed i32 range required by Arrow Binary"@,
            VortexError::UnexpectedBinaryStatus { status } => "unexpected Arrow Binary export status "@ + text::decimal_text(status as nat),
            VortexError::FixedListSizeOverflow { list_size } => "cannot export FixedSizeList with list size "@ + text::decimal_text(list_size as nat) + ": Arrow List offsets require i32"@,
            VortexError::FixedListOffsetsOverflow => "FixedSizeList Arrow List offsets exceed i32 range"@,
            VortexError::NotTemporal => "only support temporal extension types currently"@,
            VortexError::UnsupportedExport => "unsupported Arrow Device export for variant array"@,
            VortexError::DeviceListView => "the device cannot export the list view"@,
            VortexError::NoMinimum => "Min stat not found"@,
            VortexError::ZigZagUnsigned => "ZigZag can only encode signed integers"@,
            VortexError::FsstLengthOverflow => "string length must fit into i32"@,
            VortexError::FsstSymbolTooLong => "symbol length must be at most 8"@,
            VortexError::ObjectStore => "the object store failed"@,
            VortexError::StreamTooLong { got, expected, start, end } => "Object store stream returned too many bytes: "@ + text::decimal_text(got as nat) + " > expected "@ + text::decimal_text(expected as nat) + " (range: "@ + text::decimal_text(start as nat) + ".."@ + text::decimal_text(end as nat) + ")"@,
            VortexError::StreamTooShort { returned, expected, start, end } => "Object store stream returned "@ + text::decimal_text(returned as nat) + " bytes but expected "@ + text::decimal_text(expected as nat) + " bytes (range: "@ + text::decimal_text(start as nat) + ".."@ + text::decimal_text(end as nat) + ")"@,
        }
    }

    /// The error in words.
    pub fn message(self) -> (s: String)
        ensures
            s@ == self.spec_message(),
    {
        let mut s: String = String::new();
        match self {
            VortexError::OutOfBounds { index, first, stop } => {
                s.append("index ");
                push_decimal(&mut s, index as u128);
                s.append(" out of bounds from ");
                push_decimal(&mut s, first as u128);
                s.append(" to ");
                push_decimal(&mut s, stop as u128);
            },
            VortexError::InvalidValuesToNonNullable => {
                s.append("Cannot cast array with invalid values to non-nullable type");
            },
            VortexError::DecimalRescaleOverflow { to_scale } => {
                s.append("decimal value overflows i256 when rescaling to scale ");
                push_signed(&mut s, to_scale as i32);
            },
            VortexError::DecimalPrecisionDowncast { from, to } => {
                s.append("Downcasting decimal from precision ");
                push_decimal(&mut s, from as u128);
                s.append(" to ");
                push_decimal(&mut s, to as u128);
                s.append(" not yet implemented");
            },
            VortexError::DecimalValuesDowncast { from_type, to_type } => {
                s.append("Cannot downcast decimal values from ");
                s.append(from_type.variant_name());
                s.append(" to ");
                s.append(to_type.variant_name());
                s.append(". Only upcasting is supported.");
            },
            VortexError::NoCastKernel => {
                s.append("No CastKernel to cast canonical array");
            },
            VortexError::TryFromInt => {
                s.append("out of range integral type conversion attempted");
            },
            VortexError::ValueCast => {
                s.append("a value does not fit the type that it is cast to");
            },
            VortexError::DecimalExportNarrowing { from_type, to_type } => {
                s.append("cannot export decimal values from ");
                s.append(from_type.name());
                s.append(" storage to Arrow ");
                s.append(to_type.name());
                s.append(": narrowing would require a device-to-host overflow check");
            },
            VortexError::DecimalExportTarget { to_type } => {
                s.append("cannot export DecimalArray as Arrow decimal value type ");
                s.append(to_type.name());
            },
            VortexError::InvalidViewBuffer => {
                s.append("cannot export BinaryView as Arrow Binary: a view references an invalid data buffer");
            },
            VortexError::BinaryOffsetsOverflow => {
                s.append("cannot export BinaryView as Arrow Binary: offsets exceed i32 range required by Arrow Binary");
            },
            VortexError::UnexpectedBinaryStatus { status } => {
                s.append("unexpected Arrow Binary export status ");
                push_decimal(&mut s, status as u128);
            },
            VortexError::FixedListSizeOverflow { list_size } => {
                s.append("cannot export FixedSizeList with list size ");
                push_decimal(&mut s, list_size as u128);
                s.append(": Arrow List offsets require i32");
            },
            VortexError::FixedListOffsetsOverflow => {
                s.append("FixedSizeList Arrow List offsets exceed i32 range");
            },
            VortexError::NotTemporal => {
                s.append("only support temporal extension types currently");
            },
            VortexError::UnsupportedExport => {
                s.append("unsupported Arrow Device export for variant array");
            },
            VortexError::DeviceListView => {
                s.append("the device cannot export the list view");
            },
            VortexError::NoMinimum => {
                s.append("Min stat not found");
            },
            VortexError::ZigZagUnsigned => {
                s.append("ZigZag can only encode signed integers");
            },
            VortexError::FsstLengthOverflow => {
                s.append("string length must fit into i32");
            },
            VortexError::FsstSymbolTooLong => {
                s.append("symbol length must be at most 8");
            },
            VortexError::ObjectStore => {
                s.append("the object store failed");
            },
            VortexError::StreamTooLong { got, expected, start, end } => {
                s.append("Object store stream returned too many bytes: ");
                push_decimal(&mut s, got as u128);
                s.append(" > expected ");
                push_decimal(&mut s, expected as u128);
                s.append(" (range: ");
                push_decimal(&mut s, start as u128);
                s.append("..");
                push_decimal(&mut s, end as u128);
                s.append(")");
            },
            VortexError::StreamTooShort { returned, expected, start, end } => {
                s.append("Object store stream returned ");
                push_decimal(&mut s, returned as u128);
                s.append(" bytes but expected ");
                push_decimal(&mut s, expected as u128);
                s.append(" bytes (range: ");
                push_decimal(&mut s, start as u128);
                s.append("..");
                push_decimal(&mut s, end as u128);
                s.append(")");
            },
        }
        assert(s@ =~= self.spec_message());
        s
    }
}

} // verus!
