//! FSST string compression with a symbol table that the caller has trained.
//!
//! Training a table for every array costs more than compressing with it. A table trained on
//! similar strings serves as well: what it does not cover is escaped byte by byte.
use std::sync::Arc;
use vstd::prelude::*;

use crate::arrow::array;
use crate::arrow::array::VarBinViewArray;
use crate::arrow::binary;
use crate::arrow::laws;
use crate::compressor::ctx::{CompressorContext, SchemeId};
use crate::compressor::scheme::{CompressionEstimate, DeferredEstimate};
use crate::dtype::{DType, PType};
use crate::error::{VortexError, VortexResult};
use crate::primitive;
use crate::primitive::{PrimitiveArray, PrimitiveBuffer};
use crate::validity::Validity;

verus! {

/// A trained symbol table.
#[verifier::external_type_specification]
#[verifier::external_body]
pub struct ExCompressor(fsst::Compressor);

/// The symbols of a table in the order of their codes: the bytes of each as a little-endian number,
/// and how many they are.
pub uninterp spec fn symbol_entries(c: fsst::Compressor) -> Seq<(u64, u8)>;

/// The code that announces a byte outside the table.
pub const ESCAPE_CODE: u8 = 255;

/// The bytes of a symbol.
pub open spec fn symbol_bytes(entry: (u64, u8)) -> Seq<u8> {
    Seq::new(entry.1 as nat, |i: int| symbol_byte(entry.0, i) as u8)
}

/// What codes stand for: each code for its symbol, and an escape for the byte after it.
pub open spec fn decoded(table: Seq<(u64, u8)>, codes: Seq<u8>) -> Option<Seq<u8>>
    decreases codes.len(),
{
    if codes.len() == 0 {
        Some(Seq::empty())
    } else if codes[0] == ESCAPE_CODE {
        if codes.len() < 2 {
            None
        } else {
            match decoded(table, codes.skip(2)) {
                Some(rest) => Some(seq![codes[1]] + rest),
                None => None,
            }
        }
    } else if codes[0] < table.len() {
        match decoded(table, codes.skip(1)) {
            Some(rest) => Some(symbol_bytes(table[codes[0] as int]) + rest),
            None => None,
        }
    } else {
        None
    }
}

/// Byte `i` of a symbol.
pub open spec fn symbol_byte(symbol: u64, i: int) -> u64 {
    (symbol >> ((8 * i) as u64)) & 0xff
}

/// Whether a symbol is as long as its bytes say: one to eight bytes, none of them beyond the
/// length, and the last not zero unless it is the only one.
pub open spec fn natural_symbol(entry: (u64, u8)) -> bool {
    &&& 1 <= entry.1 <= 8
    &&& forall|i: int| entry.1 <= i < 8 ==> #[trigger] symbol_byte(entry.0, i) == 0
    &&& entry.1 > 1 ==> symbol_byte(entry.0, entry.1 - 1) != 0
}

/// Whether each symbol is as long as its bytes say. Every trained table is so.
pub open spec fn natural_table(table: Seq<(u64, u8)>) -> bool {
    forall|k: int| 0 <= k < table.len() ==> natural_symbol(#[trigger] table[k])
}

/// Whether no symbol of a table is longer than a symbol can be.
pub open spec fn symbols_fit(table: Seq<(u64, u8)>) -> bool {
    forall|k: int| 0 <= k < table.len() ==> (#[trigger] table[k]).1 <= 8
}

/// The codes that `fsst::Compressor::compress` chooses for some bytes.
pub uninterp spec fn fsst_codes(c: fsst::Compressor, plaintext: Seq<u8>) -> Seq<u8>;

/// Calls `fsst::Compressor::compress`: codes that stand for the bytes under the table, at most two
/// for each byte, and always the same for the same compressor and bytes. Which of the codes that
/// stand for the bytes is chosen is left unsaid, and so is what a table with symbols of another
/// length than their bytes makes of them. A symbol of more than eight bytes would take it beyond
/// the end of its input. The bound on the length keeps the output within what can be allocated.
#[verifier::external_body]
fn compress_bytes(c: &fsst::Compressor, plaintext: &[u8]) -> (codes: Vec<u8>)
    requires
        symbols_fit(symbol_entries(*c)),
        plaintext@.len() <= isize::MAX / 2,
    ensures
        codes@ == fsst_codes(*c, plaintext@),
        natural_table(symbol_entries(*c)) ==> decoded(symbol_entries(*c), codes@) == Some(
            plaintext@,
        ),
        codes@.len() <= 2 * plaintext@.len(),
{
    c.compress(plaintext)
}

/// Calls `fsst::Compressor::symbol_table`: the bytes of each symbol as a little-endian number.
#[verifier::external_body]
fn table_symbols(c: &fsst::Compressor) -> (symbols: Vec<u64>)
    ensures
        symbols@ == Seq::new(symbol_entries(*c).len(), |i: int| symbol_entries(*c)[i].0),
{
    c.symbol_table().iter().map(|symbol| symbol.to_u64()).collect()
}

/// Calls `fsst::Compressor::symbol_lengths`: the length of each symbol.
#[verifier::external_body]
fn table_lengths(c: &fsst::Compressor) -> (lengths: Vec<u8>)
    ensures
        lengths@ == Seq::new(symbol_entries(*c).len(), |i: int| symbol_entries(*c)[i].1),
{
    c.symbol_lengths().to_vec()
}

/// Whether a symbol is as long as its bytes say.
fn is_natural_symbol(symbol: u64, length: u8) -> (b: bool)
    ensures
        b == natural_symbol((symbol, length)),
{
    if length < 1 || length > 8 {
        return false;
    }
    let mut i: u8 = length;
    while i < 8
        invariant
            length <= i <= 8,
            forall|j: int| length <= j < i ==> #[trigger] symbol_byte(symbol, j) == 0,
        decreases 8 - i,
    {
        if (symbol >> (8 * i as u64)) & 0xff != 0 {
            assert(symbol_byte((symbol, length).0, i as int) != 0);
            return false;
        }
        i = i + 1;
    }
    length == 1 || (symbol >> (8 * (length - 1) as u64)) & 0xff != 0
}

/// Whether each symbol of a table is as long as its bytes say, so that the table loses nothing.
/// Every trained table is so.
pub fn has_natural_table(c: &fsst::Compressor) -> (b: bool)
    ensures
        b == natural_table(symbol_entries(*c)),
{
    let symbols: Vec<u64> = table_symbols(c);
    let lengths: Vec<u8> = table_lengths(c);
    let ghost table = symbol_entries(*c);
    let mut k: usize = 0;
    while k < symbols.len()
        invariant
            table == symbol_entries(*c),
            symbols@ == Seq::new(table.len(), |i: int| table[i].0),
            lengths@ == Seq::new(table.len(), |i: int| table[i].1),
            k <= table.len(),
            forall|j: int| 0 <= j < k ==> natural_symbol(#[trigger] table[j]),
        decreases table.len() - k,
    {
        assert(table[k as int] == (symbols@[k as int], lengths@[k as int]));
        if !is_natural_symbol(symbols[k], lengths[k]) {
            assert(!natural_symbol(table[k as int]));
            return false;
        }
        k = k + 1;
    }
    true
}

/// Strings by their codes. The codes of string `i` are the bytes from offset `i` to offset `i + 1`.
#[derive(Debug, PartialEq, Eq)]
pub struct FSSTArray<C> {
    pub symbols: Vec<u64>,
    pub symbol_lengths: Vec<u8>,
    pub codes: Vec<u8>,
    pub codes_offsets: C,
    pub uncompressed_lengths: C,
    pub validity: Validity,
}

/// Strings that can be compressed: the validity covers them, and every valid view refers to bytes
/// that exist.
pub open spec fn strings_wf(strings: &VarBinViewArray) -> bool {
    let valid = strings.validity.entries(strings.views@.len());
    &&& strings.validity.wf(strings.views@.len())
    &&& forall|i: int|
        0 <= i < strings.views@.len() ==> !#[trigger] binary::row_broken(
            strings.views@,
            valid,
            array::data_buffers(strings.buffers@),
            i,
        )
}

/// String `i`, empty for a null.
pub open spec fn string_at(strings: &VarBinViewArray, i: int) -> Seq<u8> {
    binary::row_value(
        strings.views@,
        strings.validity.entries(strings.views@.len()),
        array::data_buffers(strings.buffers@),
        i,
    )
}

/// Whether `codes` from `start` to `end` stand for string `i`. A null has no codes.
pub open spec fn row_encoded(
    table: Seq<(u64, u8)>,
    strings: &VarBinViewArray,
    codes: Seq<u8>,
    start: int,
    end: int,
    i: int,
) -> bool {
    &&& 0 <= start <= end <= codes.len()
    &&& if strings.validity.valid_at(i) {
        natural_table(table) ==> decoded(table, codes.subrange(start, end)) == Some(
            string_at(strings, i),
        )
    } else {
        start == end
    }
}

/// Whether codes, offsets and lengths are those of the first `n` strings.
pub open spec fn rows_encoded(
    table: Seq<(u64, u8)>,
    strings: &VarBinViewArray,
    codes: Seq<u8>,
    offsets: Seq<int>,
    lengths: Seq<int>,
    n: int,
) -> bool {
    &&& offsets.len() == n + 1
    &&& lengths.len() == n
    &&& offsets[0] == 0
    &&& offsets[n] == codes.len()
    &&& forall|i: int|
        0 <= i < n ==> #[trigger] row_encoded(table, strings, codes, offsets[i], offsets[i + 1], i)
    &&& forall|i: int| 0 <= i < n ==> #[trigger] lengths[i] == string_at(strings, i).len()
}

/// The codes of string `i`. A null has none.
pub open spec fn row_codes(c: fsst::Compressor, strings: &VarBinViewArray, i: int) -> Seq<u8> {
    if strings.validity.valid_at(i) {
        fsst_codes(c, string_at(strings, i))
    } else {
        Seq::empty()
    }
}

/// The codes of the first `n` strings, one after the other.
pub open spec fn all_codes(c: fsst::Compressor, strings: &VarBinViewArray, n: nat) -> Seq<u8>
    decreases n,
{
    if n == 0 {
        Seq::empty()
    } else {
        all_codes(c, strings, (n - 1) as nat) + row_codes(c, strings, n - 1)
    }
}

/// Where the codes of each of the first `n` strings start, and where the last end.
pub open spec fn all_offsets(c: fsst::Compressor, strings: &VarBinViewArray, n: nat) -> Seq<int> {
    Seq::new(n + 1, |i: int| all_codes(c, strings, i as nat).len() as int)
}

/// The lengths of the first `n` strings.
pub open spec fn all_lengths(strings: &VarBinViewArray, n: nat) -> Seq<int> {
    Seq::new(n, |i: int| string_at(strings, i).len() as int)
}

/// More strings have no fewer codes.
proof fn all_codes_grow(c: fsst::Compressor, strings: &VarBinViewArray, a: nat, b: nat)
    requires
        a <= b,
    ensures
        all_codes(c, strings, a).len() <= all_codes(c, strings, b).len(),
    decreases b,
{
    if a < b {
        all_codes_grow(c, strings, a, (b - 1) as nat);
    }
}

/// Whether string `i` is too long to be compressed.
pub open spec fn string_too_long(strings: &VarBinViewArray, i: int) -> bool {
    string_at(strings, i).len() > i32::MAX || string_at(strings, i).len() > isize::MAX / 2
}

/// Whether a string, or all codes together, exceed 32 bits.
pub open spec fn overflows(c: fsst::Compressor, strings: &VarBinViewArray) -> bool {
    ||| all_codes(c, strings, strings.views@.len()).len() > i32::MAX
    ||| exists|i: int| 0 <= i < strings.views@.len() && #[trigger] string_too_long(strings, i)
}

/// Numbers as integers.
pub open spec fn as_ints(v: Seq<i128>) -> Seq<int> {
    Seq::new(v.len(), |i: int| v[i] as int)
}

/// Whether an array holds the strings under a table, its offsets and lengths in 32 bits.
pub open spec fn is_fsst(
    strings: &VarBinViewArray,
    c: fsst::Compressor,
    out: FSSTArray<PrimitiveArray>,
) -> bool {
    let table = symbol_entries(c);
    let n = strings.views@.len();
    &&& out.symbols@ == Seq::new(table.len(), |i: int| table[i].0)
    &&& out.symbol_lengths@ == Seq::new(table.len(), |i: int| table[i].1)
    &&& rows_encoded(
        table,
        strings,
        out.codes@,
        out.codes_offsets.buffer.ints(),
        out.uncompressed_lengths.buffer.ints(),
        n as int,
    )
    &&& out.codes@ == all_codes(c, strings, n)
    &&& out.codes_offsets.buffer.ints() == all_offsets(c, strings, n)
    &&& out.uncompressed_lengths.buffer.ints() == all_lengths(strings, n)
    &&& out.codes_offsets.wf()
    &&& out.codes_offsets.buffer.spec_ptype() == PType::I32
    &&& out.codes_offsets.validity is NonNullable
    &&& out.uncompressed_lengths.wf()
    &&& out.uncompressed_lengths.buffer.spec_ptype() == PType::I32
    &&& out.uncompressed_lengths.validity is NonNullable
    &&& out.validity.same(&strings.validity)
}

/// Earlier rows keep their codes when more are appended.
proof fn rows_kept(
    table: Seq<(u64, u8)>,
    strings: &VarBinViewArray,
    codes: Seq<u8>,
    more: Seq<u8>,
    start: int,
    end: int,
    i: int,
)
    requires
        row_encoded(table, strings, codes, start, end, i),
    ensures
        row_encoded(table, strings, codes + more, start, end, i),
{
    assert((codes + more).subrange(start, end) =~= codes.subrange(start, end));
}

/// Whether no length is longer than a symbol can be.
fn lengths_fit(lengths: &Vec<u8>) -> (b: bool)
    ensures
        b == (forall|k: int| 0 <= k < lengths@.len() ==> (#[trigger] lengths@[k]) <= 8),
{
    let mut k: usize = 0;
    while k < lengths.len()
        invariant
            k <= lengths@.len(),
            forall|j: int| 0 <= j < k ==> (#[trigger] lengths@[j]) <= 8,
        decreases lengths@.len() - k,
    {
        if lengths[k] > 8 {
            return false;
        }
        k = k + 1;
    }
    true
}

/// What compressing strings with a table gives.
pub open spec fn fsst_outcome(
    c: fsst::Compressor,
    strings: &VarBinViewArray,
    r: VortexResult<FSSTArray<PrimitiveArray>>,
) -> bool {
    match r {
        Ok(out) => {
            &&& symbols_fit(symbol_entries(c))
            &&& !overflows(c, strings)
            &&& is_fsst(strings, c, out)
        },
        Err(e) => if symbols_fit(symbol_entries(c)) {
            &&& e == VortexError::FsstLengthOverflow
            &&& overflows(c, strings)
            &&& may_overflow(strings)
        } else {
            e == VortexError::FsstSymbolTooLong
        },
    }
}

/// Compresses strings with a table. Fails where a symbol of the table is too long, and where a
/// string or all codes together exceed 32 bits, which strings of half as many bytes never do.
pub fn fsst_compress(strings: &VarBinViewArray, compressor: &fsst::Compressor) -> (r: VortexResult<
    FSSTArray<PrimitiveArray>,
>)
    requires
        strings_wf(strings),
    ensures
        fsst_outcome(*compressor, strings, r),
{
    let ghost table = symbol_entries(*compressor);
    let symbol_lengths: Vec<u8> = table_lengths(compressor);
    if !lengths_fit(&symbol_lengths) {
        proof {
            let k = choose|k: int| 0 <= k < symbol_lengths@.len() && symbol_lengths@[k] > 8;
            assert(table[k].1 > 8);
        }
        return Err(VortexError::FsstSymbolTooLong);
    }
    assert forall|k: int| 0 <= k < table.len() implies (#[trigger] table[k]).1 <= 8 by {
        assert(symbol_lengths@[k] <= 8);
    }
    let n: usize = strings.views.len();
    let ghost valid = strings.validity.entries(n as nat);
    let ghost data = array::data_buffers(strings.buffers@);
    let mut codes: Vec<u8> = Vec::new();
    let mut offsets: Vec<i128> = Vec::new();
    let mut lengths: Vec<i128> = Vec::new();
    offsets.push(0);
    let mut i: usize = 0;
    while i < n
        invariant
            strings_wf(strings),
            table == symbol_entries(*compressor),
            symbols_fit(table),
            n == strings.views@.len(),
            valid == strings.validity.entries(n as nat),
            data == array::data_buffers(strings.buffers@),
            i <= n,
            rows_encoded(table, strings, codes@, as_ints(offsets@), as_ints(lengths@), i as int),
            codes@ == all_codes(*compressor, strings, i as nat),
            as_ints(offsets@) == all_offsets(*compressor, strings, i as nat),
            as_ints(lengths@) == all_lengths(strings, i as nat),
            forall|j: int| 0 <= j < i ==> !#[trigger] string_too_long(strings, j),
            codes@.len() <= i32::MAX,
            codes@.len() <= 2 * total_len(strings, i as nat),
            forall|j: int| 0 <= j < offsets@.len() ==> PType::I32.holds(#[trigger] offsets@[j] as int),
            forall|j: int| 0 <= j < lengths@.len() ==> PType::I32.holds(#[trigger] lengths@[j] as int),
        decreases n - i,
    {
        let ghost old_codes = codes@;
        let ghost old_offsets = as_ints(offsets@);
        let ghost old_lengths = as_ints(lengths@);
        let mut length: usize = 0;
        let ghost mut added: Seq<u8> = Seq::empty();
        if strings.validity.is_valid(i) {
            assert(!binary::row_broken(strings.views@, valid, data, i as int));
            length = strings.views[i].size as usize;
            assert(string_at(strings, i as int).len() == length);
            if length as u64 > 0x7fff_ffff || length > (isize::MAX as usize) / 2 {
                assert(string_too_long(strings, i as int));
                return Err(VortexError::FsstLengthOverflow);
            }
            let value: Vec<u8> = strings.views[i].bytes(&strings.buffers);
            assert(value@ == string_at(strings, i as int));
            let mut compressed: Vec<u8> = compress_bytes(compressor, value.as_slice());
            proof {
                added = compressed@;
            }
            if compressed.len() as u64 > 0x7fff_ffff - codes.len() as u64 {
                proof {
                    total_len_grows(strings, (i + 1) as nat, n as nat);
                    all_codes_grow(*compressor, strings, (i + 1) as nat, n as nat);
                }
                return Err(VortexError::FsstLengthOverflow);
            }
            codes.append(&mut compressed);
        }
        offsets.push(codes.len() as i128);
        lengths.push(length as i128);
        proof {
            assert(codes@ =~= old_codes + added);
            assert(added =~= row_codes(*compressor, strings, i as int));
            let offs = as_ints(offsets@);
            let lens = as_ints(lengths@);
            assert(offs =~= old_offsets.push(codes@.len() as int));
            assert(lens =~= old_lengths.push(length as int));
            assert forall|j: int| 0 <= j < i + 1 implies #[trigger] row_encoded(
                table,
                strings,
                codes@,
                offs[j],
                offs[j + 1],
                j,
            ) by {
                if j < i {
                    assert(row_encoded(
                        table,
                        strings,
                        old_codes,
                        old_offsets[j],
                        old_offsets[j + 1],
                        j,
                    ));
                    rows_kept(
                        table,
                        strings,
                        old_codes,
                        added,
                        old_offsets[j],
                        old_offsets[j + 1],
                        j,
                    );
                } else {
                    assert(codes@.subrange(old_codes.len() as int, codes@.len() as int)
                        =~= added);
                }
            }
            assert(string_at(strings, i as int).len() == length);
            assert(offs =~= all_offsets(*compressor, strings, (i + 1) as nat));
            assert(lens =~= all_lengths(strings, (i + 1) as nat));
        }
        i = i + 1;
    }
    let codes_offsets = PrimitiveArray {
        buffer: PrimitiveBuffer::from_ints(PType::I32, &offsets),
        validity: Validity::NonNullable,
    };
    let uncompressed_lengths = PrimitiveArray {
        buffer: PrimitiveBuffer::from_ints(PType::I32, &lengths),
        validity: Validity::NonNullable,
    };
    proof {
        assert(codes_offsets.buffer.ints() =~= as_ints(offsets@));
        assert(uncompressed_lengths.buffer.ints() =~= as_ints(lengths@));
    }
    Ok(
        FSSTArray {
            symbols: table_symbols(compressor),
            symbol_lengths,
            codes,
            codes_offsets,
            uncompressed_lengths,
            validity: strings.validity.duplicate(),
        },
    )
}

/// The bytes of the first `n` strings together.
pub open spec fn total_len(strings: &VarBinViewArray, n: nat) -> nat
    decreases n,
{
    if n == 0 {
        0
    } else {
        total_len(strings, (n - 1) as nat) + string_at(strings, n - 1).len()
    }
}

/// More strings have no fewer bytes.
proof fn total_len_grows(strings: &VarBinViewArray, a: nat, b: nat)
    requires
        a <= b,
    ensures
        total_len(strings, a) <= total_len(strings, b),
    decreases b,
{
    if a < b {
        total_len_grows(strings, a, (b - 1) as nat);
    }
}

/// Whether strings are so long that they, or their codes, may exceed 32 bits.
pub open spec fn may_overflow(strings: &VarBinViewArray) -> bool {
    ||| 2 * total_len(strings, strings.views@.len()) > i32::MAX
    ||| exists|i: int| 0 <= i < strings.views@.len() && #[trigger] string_too_long(strings, i)
}

/// Decoding the codes of each row gives the string back, under every table whose symbols are as
/// long as their bytes say: a table trained on other strings loses nothing.
pub proof fn fsst_roundtrip(
    strings: &VarBinViewArray,
    c: fsst::Compressor,
    out: FSSTArray<PrimitiveArray>,
    i: int,
)
    requires
        is_fsst(strings, c, out),
        natural_table(symbol_entries(c)),
        0 <= i < strings.views@.len(),
        strings.validity.valid_at(i),
    ensures
        decoded(
            symbol_entries(c),
            out.codes@.subrange(
                out.codes_offsets.buffer.ints()[i],
                out.codes_offsets.buffer.ints()[i + 1],
            ),
        ) == Some(string_at(strings, i)),
        out.validity.valid_at(i),
        out.uncompressed_lengths.buffer.ints()[i] == string_at(strings, i).len(),
{
    let offsets = out.codes_offsets.buffer.ints();
    assert(row_encoded(symbol_entries(c), strings, out.codes@, offsets[i], offsets[i + 1], i));
}

/// The name of both FSST schemes.
pub open spec fn fsst_name() -> Seq<char> {
    "vortex.string.fsst"@
}

/// FSST with a table trained for each array.
#[derive(Clone, Copy, Debug, PartialEq, Eq)]
pub struct FSSTScheme;

impl FSSTScheme {
    /// The scheme's name.
    pub fn scheme_name(&self) -> (s: &'static str)
        ensures
            s@ == fsst_name(),
    {
        "vortex.string.fsst"
    }

    /// The scheme's id.
    pub fn id(&self) -> (id: SchemeId)
        ensures
            id@ == fsst_name(),
    {
        SchemeId { name: self.scheme_name() }
    }

    /// Whether the scheme applies to arrays of a type: to strings.
    pub fn matches(&self, dtype: &DType) -> (b: bool)
        ensures
            b == (*dtype is Utf8),
    {
        dtype.is_utf8()
    }

    /// The children are the lengths of the strings and the offsets of their codes.
    pub fn num_children(&self) -> (n: usize)
        ensures
            n == 2,
    {
        2
    }
}

/// FSST with a table that the caller has trained. It shares its id with `FSSTScheme`, which it
/// replaces.
pub struct FSSTSchemeWithPretrained {
    pretrained: Arc<fsst::Compressor>,
}

impl FSSTSchemeWithPretrained {
    /// The table.
    pub closed spec fn table(&self) -> Arc<fsst::Compressor> {
        self.pretrained
    }

    /// A scheme that compresses every array with `pretrained`.
    pub fn new(pretrained: Arc<fsst::Compressor>) -> (s: FSSTSchemeWithPretrained)
        ensures
            s.table() == pretrained,
    {
        FSSTSchemeWithPretrained { pretrained }
    }

    /// The table.
    pub fn compressor(&self) -> (c: &Arc<fsst::Compressor>)
        ensures
            *c == self.table(),
    {
        &self.pretrained
    }

    /// The scheme's name.
    pub fn scheme_name(&self) -> (s: &'static str)
        ensures
            s@ == fsst_name(),
    {
        FSSTScheme.scheme_name()
    }

    /// The scheme's id, which is that of `FSSTScheme`.
    pub fn id(&self) -> (id: SchemeId)
        ensures
            id@ == fsst_name(),
    {
        FSSTScheme.id()
    }

    /// Whether the scheme applies to arrays of a type: to strings.
    pub fn matches(&self, dtype: &DType) -> (b: bool)
        ensures
            b == (*dtype is Utf8),
    {
        FSSTScheme.matches(dtype)
    }

    /// The children are the lengths of the strings and the offsets of their codes.
    pub fn num_children(&self) -> (n: usize)
        ensures
            n == 2,
    {
        FSSTScheme.num_children()
    }

    /// What the scheme gains is found out by compressing a sample.
    pub fn expected_compression_ratio(&self) -> (e: CompressionEstimate)
        ensures
            e == CompressionEstimate::Deferred(DeferredEstimate::Sample),
    {
        CompressionEstimate::Deferred(DeferredEstimate::Sample)
    }

    /// Compresses strings with the table. The lengths of the strings and the offsets of their codes
    /// are narrowed and handed to `compress_child`, in this order, as children 0 and 1 of this
    /// scheme.
    pub fn compress<
        O,
        C,
        F: Fn(PrimitiveArray, CompressorContext<O>, SchemeId, usize) -> VortexResult<C>,
    >(
        &self,
        strings: &VarBinViewArray,
        compress_ctx: &CompressorContext<O>,
        compress_child: F,
    ) -> (r: VortexResult<FSSTArray<C>>)
        requires
            strings_wf(strings),
            forall|a: PrimitiveArray, c: CompressorContext<O>, id: SchemeId, n: usize| #[trigger]
                compress_child.requires((a, c, id, n)),
        ensures
            compress_outcome(*self.table(), strings, compress_ctx, compress_child, r),
    {
        let full = match fsst_compress(strings, &*self.pretrained) {
            Ok(f) => f,
            Err(e) => return Err(e),
        };
        let lengths = narrow_all(&full.uncompressed_lengths);
        let id = self.id();
        let c0 = compress_ctx.duplicate();
        let out0 = compress_child(lengths, c0, id, 0);
        assert(compress_child.ensures((lengths, c0, id, 0usize), out0));
        let compressed_lengths = match out0 {
            Ok(c) => c,
            Err(e) => {
                assert(assembled(
                    full,
                    compress_ctx,
                    compress_child,
                    out0,
                    Err::<FSSTArray<C>, VortexError>(e),
                ));
                return Err(e);
            },
        };
        let offsets = narrow_all(&full.codes_offsets);
        let c1 = compress_ctx.duplicate();
        let id1 = self.id();
        let out1 = compress_child(offsets, c1, id1, 1);
        assert(compress_child.ensures((offsets, c1, id1, 1usize), out1));
        let compressed_offsets = match out1 {
            Ok(c) => c,
            Err(e) => {
                assert(assembled(
                    full,
                    compress_ctx,
                    compress_child,
                    out0,
                    Err::<FSSTArray<C>, VortexError>(e),
                ));
                return Err(e);
            },
        };
        let ghost whole = full;
        let r = FSSTArray {
            symbols: full.symbols,
            symbol_lengths: full.symbol_lengths,
            codes: full.codes,
            codes_offsets: compressed_offsets,
            uncompressed_lengths: compressed_lengths,
            validity: full.validity,
        };
        assert(assembled(
            whole,
            compress_ctx,
            compress_child,
            out0,
            Ok::<FSSTArray<C>, VortexError>(r),
        ));
        Ok(r)
    }
}

/// Whether `out` holds the integers of `a`, none of them null, in the narrowest physical type.
pub open spec fn is_narrowed(a: &PrimitiveArray, out: &PrimitiveArray) -> bool {
    &&& out.wf()
    &&& out.validity is NonNullable
    &&& out.buffer.spec_ptype() == primitive::narrowed_ptype(
        a.buffer.spec_ptype(),
        a.spec_min(),
        a.spec_max(),
    )
    &&& out.buffer.ints() == a.buffer.ints()
}

/// Integers, none of them null, in the narrowest physical type.
fn narrow_all(a: &PrimitiveArray) -> (out: PrimitiveArray)
    requires
        a.wf(),
        a.buffer.integer(),
        a.validity is NonNullable,
    ensures
        is_narrowed(a, &out),
{
    let out = a.narrow();
    assert(out.buffer.ints() =~= a.buffer.ints()) by {
        assert forall|i: int| 0 <= i < a.buffer.spec_len() implies out.buffer.ints()[i]
            == a.buffer.ints()[i] by {
            assert(a.validity.valid_at(i));
            assert(out.buffer.int_at(i) == a.buffer.int_at(i));
        }
    }
    out
}

/// What compressing strings gives: an error where the table has too long a symbol, or where the
/// codes exceed 32 bits; else what follows the compression of the narrowed lengths, as child 0.
pub open spec fn compress_outcome<
    O,
    C,
    F: Fn(PrimitiveArray, CompressorContext<O>, SchemeId, usize) -> VortexResult<C>,
>(
    table: fsst::Compressor,
    strings: &VarBinViewArray,
    ctx: &CompressorContext<O>,
    compress_child: F,
    r: VortexResult<FSSTArray<C>>,
) -> bool {
    if !symbols_fit(symbol_entries(table)) {
        r == Err::<FSSTArray<C>, VortexError>(VortexError::FsstSymbolTooLong)
    } else if overflows(table, strings) {
        &&& r == Err::<FSSTArray<C>, VortexError>(VortexError::FsstLengthOverflow)
        &&& may_overflow(strings)
    } else {
        exists|
            full: FSSTArray<PrimitiveArray>,
            lengths: PrimitiveArray,
            c0: CompressorContext<O>,
            id: SchemeId,
            out0: VortexResult<C>,
        |
            {
                &&& is_fsst(strings, table, full)
                &&& is_narrowed(&full.uncompressed_lengths, &lengths)
                &&& c0@ == ctx@
                &&& id@ == fsst_name()
                &&& #[trigger] compress_child.ensures((lengths, c0, id, 0usize), out0)
                &&& #[trigger] assembled(full, ctx, compress_child, out0, r)
            }
    }
}

/// What follows the compression of the lengths: its error, or the compression of the offsets; its
/// error, or the array with both compressed and the rest as it was.
pub open spec fn assembled<
    O,
    C,
    F: Fn(PrimitiveArray, CompressorContext<O>, SchemeId, usize) -> VortexResult<C>,
>(
    full: FSSTArray<PrimitiveArray>,
    ctx: &CompressorContext<O>,
    compress_child: F,
    out0: VortexResult<C>,
    r: VortexResult<FSSTArray<C>>,
) -> bool {
    match out0 {
        Err(e) => r == Err::<FSSTArray<C>, VortexError>(e),
        Ok(compressed_lengths) => exists|
            offsets: PrimitiveArray,
            c1: CompressorContext<O>,
            id: SchemeId,
            out1: VortexResult<C>,
        |
            {
                &&& is_narrowed(&full.codes_offsets, &offsets)
                &&& c1@ == ctx@
                &&& id@ == fsst_name()
                &&& #[trigger] compress_child.ensures((offsets, c1, id, 1usize), out1)
                &&& match out1 {
                    Err(e) => r == Err::<FSSTArray<C>, VortexError>(e),
                    Ok(compressed_offsets) => r == Ok::<FSSTArray<C>, VortexError>(
                        FSSTArray {
                            symbols: full.symbols,
                            symbol_lengths: full.symbol_lengths,
                            codes: full.codes,
                            codes_offsets: compressed_offsets,
                            uncompressed_lengths: compressed_lengths,
                            validity: full.validity,
                        },
                    ),
                }
            },
    }
}

/// The table that an array carries.
pub open spec fn carried_table<C>(a: FSSTArray<C>) -> Seq<(u64, u8)> {
    Seq::new(a.symbols@.len(), |k: int| (a.symbols@[k], a.symbol_lengths@[k]))
}

/// Whether compressing children always succeeds and `decode` gives their integers back.
pub open spec fn lossless_children<
    O,
    C,
    F: Fn(PrimitiveArray, CompressorContext<O>, SchemeId, usize) -> VortexResult<C>,
>(compress_child: F, decode: spec_fn(C) -> Seq<int>) -> bool {
    forall|a: PrimitiveArray, c: CompressorContext<O>, id: SchemeId, n: usize, out: VortexResult<C>|
        a.wf() && #[trigger] compress_child.ensures((a, c, id, n), out) ==> (out matches Ok(x)
            && decode(x) == a.buffer.ints())
}

/// Whether string `i` is found again in an array with these offsets and lengths: it is as valid and
/// as long as it was, and where it is valid its codes decode to it under the table of the array.
pub open spec fn row_restored<C>(
    strings: &VarBinViewArray,
    a: FSSTArray<C>,
    offsets: Seq<int>,
    lengths: Seq<int>,
    i: int,
) -> bool {
    &&& a.validity.valid_at(i) == strings.validity.valid_at(i)
    &&& lengths[i] == string_at(strings, i).len()
    &&& strings.validity.valid_at(i) ==> decoded(
        carried_table(a),
        a.codes@.subrange(offsets[i], offsets[i + 1]),
    ) == Some(string_at(strings, i))
}

/// Compressing strings loses nothing, however little they resemble what the table was trained on:
/// with children that are compressed without loss it succeeds, and the array carries the given
/// table, under which the codes of each valid string decode to it. Nulls stay null.
pub proof fn compressed_strings_decode<
    O,
    C,
    F: Fn(PrimitiveArray, CompressorContext<O>, SchemeId, usize) -> VortexResult<C>,
>(
    table: fsst::Compressor,
    strings: &VarBinViewArray,
    ctx: &CompressorContext<O>,
    compress_child: F,
    decode: spec_fn(C) -> Seq<int>,
    r: VortexResult<FSSTArray<C>>,
)
    requires
        strings_wf(strings),
        natural_table(symbol_entries(table)),
        !overflows(table, strings),
        lossless_children(compress_child, decode),
        compress_outcome(table, strings, ctx, compress_child, r),
    ensures
        r is Ok,
        ({
            let out = r->Ok_0;
            let offsets = decode(out.codes_offsets);
            let lengths = decode(out.uncompressed_lengths);
            &&& carried_table(out) == symbol_entries(table)
            &&& offsets.len() == strings.views@.len() + 1
            &&& lengths.len() == strings.views@.len()
            &&& out.validity.same(&strings.validity)
            &&& forall|i: int|
                0 <= i < strings.views@.len() ==> #[trigger] row_restored(
                    strings,
                    out,
                    offsets,
                    lengths,
                    i,
                )
        }),
{
    assert(symbols_fit(symbol_entries(table)));
    let (full, lengths, c0, id, out0) = choose|
        full: FSSTArray<PrimitiveArray>,
        lengths: PrimitiveArray,
        c0: CompressorContext<O>,
        id: SchemeId,
        out0: VortexResult<C>,
    |
        {
            &&& is_fsst(strings, table, full)
            &&& is_narrowed(&full.uncompressed_lengths, &lengths)
            &&& c0@ == ctx@
            &&& id@ == fsst_name()
            &&& #[trigger] compress_child.ensures((lengths, c0, id, 0usize), out0)
            &&& #[trigger] assembled(full, ctx, compress_child, out0, r)
        };
    let (offsets, c1, id1, out1) = choose|
        offsets: PrimitiveArray,
        c1: CompressorContext<O>,
        id1: SchemeId,
        out1: VortexResult<C>,
    |
        {
            &&& is_narrowed(&full.codes_offsets, &offsets)
            &&& c1@ == ctx@
            &&& id1@ == fsst_name()
            &&& #[trigger] compress_child.ensures((offsets, c1, id1, 1usize), out1)
            &&& match out1 {
                Err(e) => r == Err::<FSSTArray<C>, VortexError>(e),
                Ok(compressed_offsets) => r == Ok::<FSSTArray<C>, VortexError>(
                    FSSTArray {
                        symbols: full.symbols,
                        symbol_lengths: full.symbol_lengths,
                        codes: full.codes,
                        codes_offsets: compressed_offsets,
                        uncompressed_lengths: out0->Ok_0,
                        validity: full.validity,
                    },
                ),
            }
        };
    let out = r->Ok_0;
    let n = strings.views@.len();
    assert(carried_table(out) =~= symbol_entries(table));
    assert(decode(out.codes_offsets) == all_offsets(table, strings, n));
    assert(decode(out.uncompressed_lengths) == all_lengths(strings, n));
    assert forall|i: int| 0 <= i < n implies #[trigger] row_restored(
        strings,
        out,
        decode(out.codes_offsets),
        decode(out.uncompressed_lengths),
        i,
    ) by {
        if strings.validity.valid_at(i) {
            fsst_roundtrip(strings, table, full, i);
        }
    }
}

/// The strings take up the bytes of their valid views.
proof fn total_len_is_valid_bytes(strings: &VarBinViewArray, n: nat)
    requires
        strings_wf(strings),
        n <= strings.views@.len(),
    ensures
        total_len(strings, n) == laws::valid_bytes(*strings, n),
        forall|i: int| 0 <= i < n ==> (#[trigger] string_at(strings, i)).len() <= total_len(strings, n),
    decreases n,
{
    if n > 0 {
        total_len_is_valid_bytes(strings, (n - 1) as nat);
        string_is_its_view(strings, n - 1);
    }
}

/// A valid string is what its view refers to, as long as the view says; a null is empty.
pub proof fn string_is_its_view(strings: &VarBinViewArray, i: int)
    requires
        strings_wf(strings),
        0 <= i < strings.views@.len(),
    ensures
        strings.validity.valid_at(i) ==> string_at(strings, i) == strings.views@[i].value(
            array::data_buffers(strings.buffers@),
        ) && string_at(strings, i).len() == strings.views@[i].size,
        !strings.validity.valid_at(i) ==> string_at(strings, i).len() == 0,
{
    let valid = strings.validity.entries(strings.views@.len());
    assert(!binary::row_broken(
        strings.views@,
        valid,
        array::data_buffers(strings.buffers@),
        i,
    ));
}

/// Strings of together no more than half of 32 bits of bytes never overflow.
proof fn short_strings_do_not_overflow(strings: &VarBinViewArray)
    requires
        strings_wf(strings),
        2 * laws::valid_bytes(*strings, strings.views@.len()) <= i32::MAX,
    ensures
        !may_overflow(strings),
{
    total_len_is_valid_bytes(strings, strings.views@.len());
}

/// Compression succeeds on all strings within the 32-bit limits: where no symbol of the table is
/// longer than eight bytes and twice the bytes of the strings fit 32 bits. A longer symbol, and a
/// string whose length does not fit 32 bits, are refused.
pub proof fn strings_within_limits_compress(
    c: fsst::Compressor,
    strings: &VarBinViewArray,
    r: VortexResult<FSSTArray<PrimitiveArray>>,
)
    requires
        strings_wf(strings),
        fsst_outcome(c, strings, r),
    ensures
        (forall|k: int|
            0 <= k < symbol_entries(c).len() ==> (#[trigger] symbol_entries(c)[k]).1 <= 8) && 2
            * laws::valid_bytes(*strings, strings.views@.len()) <= i32::MAX ==> r is Ok,
        (exists|k: int| 0 <= k < symbol_entries(c).len() && (#[trigger] symbol_entries(c)[k]).1 > 8)
            <==> (r matches Err(e) && e == VortexError::FsstSymbolTooLong),
        (exists|i: int|
            0 <= i < strings.views@.len() && strings.validity.valid_at(i)
                && (#[trigger] strings.views@[i]).size > i32::MAX) ==> r is Err,
        r matches Ok(out) ==> out.codes@.len() <= i32::MAX,
{
    if 2 * laws::valid_bytes(*strings, strings.views@.len()) <= i32::MAX {
        short_strings_do_not_overflow(strings);
    }
    if exists|i: int|
        0 <= i < strings.views@.len() && strings.validity.valid_at(i)
            && (#[trigger] strings.views@[i]).size > i32::MAX {
        let i = choose|i: int|
            0 <= i < strings.views@.len() && strings.validity.valid_at(i)
                && (#[trigger] strings.views@[i]).size > i32::MAX;
        string_is_its_view(strings, i);
        assert(string_too_long(strings, i));
    }
}

/// Only a string longer than 32 bits, or than half of what can be allocated, is too long.
pub proof fn only_long_strings_are_too_long(strings: &VarBinViewArray, i: int)
    requires
        strings_wf(strings),
        0 <= i < strings.views@.len(),
    ensures
        string_too_long(strings, i) <==> strings.validity.valid_at(i) && (strings.views@[i].size
            > i32::MAX || strings.views@[i].size > isize::MAX / 2),
{
    string_is_its_view(strings, i);
}

/// A reader finds every row again: the codes of row `i` lie between its two offsets, they decode to
/// the valid value, whose length is kept, and a null has no codes and no length. The offsets cover
/// all codes.
pub proof fn compressed_rows_are_found(
    strings: &VarBinViewArray,
    c: fsst::Compressor,
    out: FSSTArray<PrimitiveArray>,
    i: int,
)
    requires
        strings_wf(strings),
        is_fsst(strings, c, out),
        natural_table(symbol_entries(c)),
        0 <= i < strings.views@.len(),
    ensures
        ({
            let o = out.codes_offsets.buffer;
            let l = out.uncompressed_lengths.buffer;
            let n = strings.views@.len() as int;
            &&& o.spec_len() == n + 1 && l.spec_len() == n
            &&& o.int_at(0) == 0 && o.int_at(n) == out.codes@.len()
            &&& 0 <= o.int_at(i) <= o.int_at(i + 1) <= out.codes@.len()
            &&& out.validity.valid_at(i) == strings.validity.valid_at(i)
            &&& if strings.validity.valid_at(i) {
                &&& l.int_at(i) == strings.views@[i].size
                &&& decoded(
                    carried_table(out),
                    out.codes@.subrange(o.int_at(i), o.int_at(i + 1)),
                ) == Some(strings.views@[i].value(array::data_buffers(strings.buffers@)))
            } else {
                l.int_at(i) == 0 && o.int_at(i) == o.int_at(i + 1)
            }
        }),
{
    let offsets = out.codes_offsets.buffer.ints();
    let lengths = out.uncompressed_lengths.buffer.ints();
    let n = strings.views@.len() as int;
    string_is_its_view(strings, i);
    assert(row_encoded(symbol_entries(c), strings, out.codes@, offsets[i], offsets[i + 1], i));
    assert(carried_table(out) =~= symbol_entries(c));
    assert(offsets.len() == n + 1);
    assert(lengths.len() == n);
    assert(offsets[0] == 0 && offsets[n] == out.codes@.len());
    assert(lengths[i] == string_at(strings, i).len());
}

/// Whether no integer type of fewer bits holds every integer of an array.
pub open spec fn in_narrowest_type(a: &PrimitiveArray) -> bool {
    forall|other: PType|
        other.int_type() && (forall|i: int|
            0 <= i < a.buffer.spec_len() ==> #[trigger] other.holds(a.buffer.int_at(i)))
            ==> a.buffer.spec_ptype().bits() <= #[trigger] other.bits()
}

/// Narrowed integers are in the narrowest type.
proof fn narrowed_is_narrowest(a: &PrimitiveArray, out: &PrimitiveArray)
    requires
        a.buffer.integer(),
        a.validity is NonNullable,
        is_narrowed(a, out),
    ensures
        in_narrowest_type(out),
{
    let n = a.buffer.spec_len();
    assert(out.buffer.ints().len() == a.buffer.ints().len());
    primitive::extremes_are_values(a, n);
    primitive::extremes_bound_values(a, n);
    assert forall|other: PType|
        other.int_type() && (forall|i: int|
            0 <= i < out.buffer.spec_len() ==> #[trigger] other.holds(out.buffer.int_at(i))) implies out.buffer.spec_ptype().bits()
        <= #[trigger] other.bits() by {
        if a.spec_min() is Some {
            let min = a.spec_min()->Some_0;
            let max = a.spec_max()->Some_0;
            let i = choose|i: int|
                0 <= i < n && a.validity.valid_at(i) && #[trigger] a.buffer.int_at(i) == min;
            let j = choose|j: int|
                0 <= j < n && a.validity.valid_at(j) && #[trigger] a.buffer.int_at(j) == max;
            assert(out.buffer.ints()[i] == a.buffer.ints()[i]);
            assert(out.buffer.ints()[j] == a.buffer.ints()[j]);
            assert(other.holds(out.buffer.int_at(i)));
            assert(other.holds(out.buffer.int_at(j)));
            primitive::narrowed_type_is_narrowest(a.buffer.spec_ptype(), min, max, other);
        }
    }
}

/// Where the strings are within the limits and both children compress, so does the array. The
/// children are the lengths, as child 0, and the offsets, as child 1, of this scheme, each under
/// the caller's own context and in the narrowest type; so children that need only succeed there
/// are enough.
pub proof fn strings_compress_with_their_children<
    O,
    C,
    F: Fn(PrimitiveArray, CompressorContext<O>, SchemeId, usize) -> VortexResult<C>,
>(
    c: fsst::Compressor,
    strings: &VarBinViewArray,
    ctx: &CompressorContext<O>,
    compress_child: F,
    r: VortexResult<FSSTArray<C>>,
)
    requires
        strings_wf(strings),
        forall|k: int|
            0 <= k < symbol_entries(c).len() ==> (#[trigger] symbol_entries(c)[k]).1 <= 8,
        2 * laws::valid_bytes(*strings, strings.views@.len()) <= i32::MAX,
        forall|a: PrimitiveArray, x: CompressorContext<O>, id: SchemeId, n: usize, out: VortexResult<C>|
            (n == 0 && a.buffer.spec_len() == strings.views@.len() || n == 1 && a.buffer.spec_len()
                == strings.views@.len() + 1) && a.validity is NonNullable && in_narrowest_type(&a) && x@
                == ctx@ && id.name@
                == "vortex.string.fsst"@ && #[trigger] compress_child.ensures((a, x, id, n), out)
                ==> out is Ok,
        compress_outcome(c, strings, ctx, compress_child, r),
    ensures
        r is Ok,
        r->Ok_0.codes@.len() <= i32::MAX,
        forall|i: int|
            0 <= i < strings.views@.len() ==> #[trigger] r->Ok_0.validity.valid_at(i)
                == strings.validity.valid_at(i),
{
    short_strings_do_not_overflow(strings);
    let (full, lengths, c0, id, out0) = choose|
        full: FSSTArray<PrimitiveArray>,
        lengths: PrimitiveArray,
        c0: CompressorContext<O>,
        id: SchemeId,
        out0: VortexResult<C>,
    |
        {
            &&& is_fsst(strings, c, full)
            &&& is_narrowed(&full.uncompressed_lengths, &lengths)
            &&& c0@ == ctx@
            &&& id@ == fsst_name()
            &&& #[trigger] compress_child.ensures((lengths, c0, id, 0usize), out0)
            &&& #[trigger] assembled(full, ctx, compress_child, out0, r)
        };
    assert(lengths.buffer.ints().len() == strings.views@.len());
    narrowed_is_narrowest(&full.uncompressed_lengths, &lengths);
    let (offsets, c1, id1, out1) = choose|
        offsets: PrimitiveArray,
        c1: CompressorContext<O>,
        id1: SchemeId,
        out1: VortexResult<C>,
    |
        {
            &&& is_narrowed(&full.codes_offsets, &offsets)
            &&& c1@ == ctx@
            &&& id1@ == fsst_name()
            &&& #[trigger] compress_child.ensures((offsets, c1, id1, 1usize), out1)
            &&& match out1 {
                Err(e) => r == Err::<FSSTArray<C>, VortexError>(e),
                Ok(compressed_offsets) => r == Ok::<FSSTArray<C>, VortexError>(
                    FSSTArray {
                        symbols: full.symbols,
                        symbol_lengths: full.symbol_lengths,
                        codes: full.codes,
                        codes_offsets: compressed_offsets,
                        uncompressed_lengths: out0->Ok_0,
                        validity: full.validity,
                    },
                ),
            }
        };
    assert(offsets.buffer.ints().len() == strings.views@.len() + 1);
    narrowed_is_narrowest(&full.codes_offsets, &offsets);
}

/// The bytes of a symbol fix its length: at most one length is natural for them.
pub proof fn natural_length_is_unique(symbol: u64, a: u8, b: u8)
    requires
        natural_symbol((symbol, a)),
        natural_symbol((symbol, b)),
    ensures
        a == b,
{
    if a < b {
        assert(symbol_byte((symbol, a).0, b - 1) == 0);
    } else if b < a {
        assert(symbol_byte((symbol, b).0, a - 1) == 0);
    }
}

/// Every number has a length that is natural for it as a symbol, up to eight bytes.
pub proof fn natural_length_exists(symbol: u64)
    ensures
        exists|length: u8| natural_symbol((symbol, length)),
{
    natural_length_below(symbol, 8);
}

/// A number whose bytes from `n` on are zero has a natural length of at most `n`.
proof fn natural_length_below(symbol: u64, n: u8)
    requires
        1 <= n <= 8,
        forall|i: int| n <= i < 8 ==> #[trigger] symbol_byte(symbol, i) == 0,
    ensures
        exists|length: u8| natural_symbol((symbol, length)),
    decreases n,
{
    if n == 1 || symbol_byte(symbol, n - 1) != 0 {
        assert(natural_symbol((symbol, n)));
    } else {
        natural_length_below(symbol, (n - 1) as u8);
    }
}

} // verus!
