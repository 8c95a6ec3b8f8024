//! Bit buffers in least-significant-bit order, starting at any bit of their first byte.
use vstd::prelude::*;

verus! {

/// The bit at position `i` of a byte sequence, counted from the least significant bit of byte 0.
pub open spec fn bit_at(bytes: Seq<u8>, i: int) -> bool {
    (bytes[i / 8] >> ((i % 8) as u8)) & 1u8 == 1u8
}

/// The number of bytes that `bits` bits occupy.
pub open spec fn bytes_for_bits(bits: int) -> int {
    (bits + 7) / 8
}

/// The number of bytes that `bits` bits occupy.
pub fn byte_count(bits: usize) -> (n: usize)
    ensures
        n == bytes_for_bits(bits as int),
{
    let full: usize = bits / 8;
    if bits % 8 == 0 {
        full
    } else {
        full + 1
    }
}

/// A run of `len` bits that starts `offset` bits into `bytes`.
#[derive(Debug, PartialEq, Eq)]
pub struct BitBuffer {
    pub bytes: Vec<u8>,
    pub offset: usize,
    pub len: usize,
}

impl View for BitBuffer {
    type V = Seq<bool>;

    open spec fn view(&self) -> Seq<bool> {
        Seq::new(self.len as nat, |i: int| bit_at(self.bytes@, self.offset + i))
    }
}

impl BitBuffer {
    /// Every bit of the buffer lies within its bytes.
    pub open spec fn wf(&self) -> bool {
        self.offset + self.len <= self.bytes@.len() * 8 && self.offset + self.len <= usize::MAX
    }

    /// The bit at position `i`.
    pub fn value(&self, i: usize) -> (b: bool)
        requires
            self.wf(),
            i < self.len,
        ensures
            b == self@[i as int],
    {
        read_bit(self.bytes.as_slice(), self.offset + i)
    }

    /// The number of set bits.
    pub fn true_count(&self) -> (n: usize)
        requires
            self.wf(),
        ensures
            n == count_true(self@),
    {
        let mut i: usize = 0;
        let mut n: usize = 0;
        while i < self.len
            invariant
                self.wf(),
                i <= self.len,
                n <= i,
                n == count_true(self@.take(i as int)),
            decreases self.len - i,
        {
            assert(self@.take(i + 1).drop_last() =~= self@.take(i as int));
            if self.value(i) {
                n = n + 1;
            }
            i = i + 1;
        }
        assert(self@.take(self.len as int) =~= self@);
        n
    }

    /// A buffer holding `bits`, at bit offset 0.
    pub fn from_bools(bits: &[bool]) -> (b: BitBuffer)
        ensures
            b.wf(),
            b.offset == 0,
            b@ == bits@,
            b.bytes@.len() == bytes_for_bits(bits@.len() as int),
    {
        let bytes: Vec<u8> = pack_bits(bits);
        let b = BitBuffer { bytes, offset: 0, len: bits.len() };
        assert(b@ =~= bits@);
        b
    }
}

/// The number of `true` entries.
pub open spec fn count_true(bits: Seq<bool>) -> nat
    decreases bits.len(),
{
    if bits.len() == 0 {
        0
    } else {
        count_true(bits.drop_last()) + if bits.last() {
            1nat
        } else {
            0nat
        }
    }
}

/// A sequence with no `true` counted holds none.
pub proof fn none_counted_is_all_false(bits: Seq<bool>)
    requires
        count_true(bits) == 0,
    ensures
        forall|i: int| 0 <= i < bits.len() ==> !#[trigger] bits[i],
    decreases bits.len(),
{
    if bits.len() > 0 {
        none_counted_is_all_false(bits.drop_last());
        assert forall|i: int| 0 <= i < bits.len() implies !#[trigger] bits[i] by {
            if i < bits.len() - 1 {
                assert(bits[i] == bits.drop_last()[i]);
            }
        }
    }
}

/// At most every entry is counted, and only a sequence of `true` alone counts every entry.
pub proof fn all_counted_is_all_true(bits: Seq<bool>)
    ensures
        count_true(bits) <= bits.len(),
        count_true(bits) == bits.len() ==> forall|i: int| 0 <= i < bits.len() ==> #[trigger] bits[i],
    decreases bits.len(),
{
    if bits.len() > 0 {
        all_counted_is_all_true(bits.drop_last());
        if count_true(bits) == bits.len() {
            assert forall|i: int| 0 <= i < bits.len() implies #[trigger] bits[i] by {
                if i < bits.len() - 1 {
                    assert(bits[i] == bits.drop_last()[i]);
                }
            }
        }
    }
}

/// A constant sequence counts every entry or none.
pub proof fn constant_count(len: nat, value: bool)
    ensures
        count_true(Seq::new(len, |i: int| value)) == (if value {
            len
        } else {
            0
        }),
    decreases len,
{
    if len > 0 {
        constant_count((len - 1) as nat, value);
        assert(Seq::new(len, |i: int| value).drop_last() =~= Seq::new(
            (len - 1) as nat,
            |i: int| value,
        ));
    }
}

/// The bit at position `i` of `bytes`.
pub fn read_bit(bytes: &[u8], i: usize) -> (b: bool)
    requires
        i < bytes@.len() * 8,
    ensures
        b == bit_at(bytes@, i as int),
{
    let shift: u8 = (i % 8) as u8;
    (bytes[i / 8] >> shift) & 1u8 == 1u8
}

/// Setting bit `k` of a byte changes that bit only.
proof fn set_bit_effect(byte: u8, k: u8)
    requires
        k < 8,
    ensures
        forall|j: u8| #![trigger (byte | (1u8 << k)) >> j]
            j < 8 ==> ((((byte | (1u8 << k)) >> j) & 1u8 == 1u8) == (j == k || (byte >> j) & 1u8
                == 1u8)),
{
    assert(forall|j: u8| #![trigger (byte | (1u8 << k)) >> j]
        j < 8 ==> ((((byte | (1u8 << k)) >> j) & 1u8 == 1u8) == (j == k || (byte >> j) & 1u8
            == 1u8))) by (bit_vector)
        requires
            k < 8,
    ;
}

/// Sets the bit at position `i`; every other bit keeps its value.
pub fn set_bit(bytes: &mut Vec<u8>, i: usize)
    requires
        i < old(bytes)@.len() * 8,
    ensures
        final(bytes)@.len() == old(bytes)@.len(),
        forall|j: int|
            0 <= j < old(bytes)@.len() * 8 ==> #[trigger] bit_at(final(bytes)@, j) == (j == i
                || bit_at(old(bytes)@, j)),
{
    let shift: u8 = (i % 8) as u8;
    let byte: u8 = bytes[i / 8];
    let updated: u8 = byte | (1u8 << shift);
    bytes.set(i / 8, updated);
    proof {
        set_bit_effect(byte, shift);
        assert forall|j: int| 0 <= j < old(bytes)@.len() * 8 implies #[trigger] bit_at(bytes@, j)
            == (j == i || bit_at(old(bytes)@, j)) by {
            if j / 8 == i / 8 {
                let jj: u8 = (j % 8) as u8;
                assert(((updated >> jj) & 1u8 == 1u8) == (jj == shift || (byte >> jj) & 1u8
                    == 1u8));
            }
        }
    }
}

/// The value of bit `k` of a byte, if it is set.
pub open spec fn bit_value(bits: Seq<bool>, at: int, k: u8) -> u8 {
    if at + k < bits.len() && bits[at + k] {
        1u8 << k
    } else {
        0u8
    }
}

/// The byte that holds the eight bits from position `at` on, clear beyond the last.
pub open spec fn packed_byte(bits: Seq<bool>, at: int) -> u8 {
    bit_value(bits, at, 0) | bit_value(bits, at, 1) | bit_value(bits, at, 2) | bit_value(
        bits,
        at,
        3,
    ) | bit_value(bits, at, 4) | bit_value(bits, at, 5) | bit_value(bits, at, 6) | bit_value(
        bits,
        at,
        7,
    )
}

/// Bits packed from bit 0, with every trailing bit of the last byte clear.
pub open spec fn packed(bits: Seq<bool>) -> Seq<u8> {
    Seq::new(bytes_for_bits(bits.len() as int) as nat, |k: int| packed_byte(bits, 8 * k))
}

/// A byte is determined by its eight bits.
proof fn byte_from_bits(
    byte: u8,
    b0: bool,
    b1: bool,
    b2: bool,
    b3: bool,
    b4: bool,
    b5: bool,
    b6: bool,
    b7: bool,
)
    by (bit_vector)
    requires
        ((byte >> 0u8) & 1u8 == 1u8) == b0,
        ((byte >> 1u8) & 1u8 == 1u8) == b1,
        ((byte >> 2u8) & 1u8 == 1u8) == b2,
        ((byte >> 3u8) & 1u8 == 1u8) == b3,
        ((byte >> 4u8) & 1u8 == 1u8) == b4,
        ((byte >> 5u8) & 1u8 == 1u8) == b5,
        ((byte >> 6u8) & 1u8 == 1u8) == b6,
        ((byte >> 7u8) & 1u8 == 1u8) == b7,
    ensures
        byte == (if b0 { 1u8 << 0u8 } else { 0u8 }) | (if b1 { 1u8 << 1u8 } else { 0u8 }) | (if b2 {
            1u8 << 2u8
        } else { 0u8 }) | (if b3 { 1u8 << 3u8 } else { 0u8 }) | (if b4 { 1u8 << 4u8 } else { 0u8 })
            | (if b5 { 1u8 << 5u8 } else { 0u8 }) | (if b6 { 1u8 << 6u8 } else { 0u8 }) | (if b7 {
            1u8 << 7u8
        } else { 0u8 }),
{
}

/// Bytes whose bits are `bits`, clear beyond the last, are `bits` packed.
proof fn bits_determine_bytes(bytes: Seq<u8>, bits: Seq<bool>)
    requires
        bytes.len() == bytes_for_bits(bits.len() as int),
        forall|j: int|
            0 <= j < bytes.len() * 8 ==> #[trigger] bit_at(bytes, j) == (j < bits.len() && bits[j]),
    ensures
        bytes == packed(bits),
{
    assert forall|k: int| 0 <= k < bytes.len() implies #[trigger] bytes[k] == packed_byte(
        bits,
        8 * k,
    ) by {
        let at = 8 * k;
        let on = |j: int| at + j < bits.len() && bits[at + j];
        assert forall|j: int| 0 <= j < 8 implies #[trigger] on(j) == ((bytes[k] >> (j as u8)) & 1u8
            == 1u8) by {
            assert(bit_at(bytes, at + j) == on(j));
            assert((at + j) / 8 == k && (at + j) % 8 == j);
        }
        byte_from_bits(bytes[k], on(0), on(1), on(2), on(3), on(4), on(5), on(6), on(7));
    }
    assert(bytes =~= packed(bits));
}

/// The eight bits of a byte put together from bits are those bits.
proof fn bits_of_byte(
    b0: bool,
    b1: bool,
    b2: bool,
    b3: bool,
    b4: bool,
    b5: bool,
    b6: bool,
    b7: bool,
    byte: u8,
)
    by (bit_vector)
    requires
        byte == (if b0 { 1u8 << 0u8 } else { 0u8 }) | (if b1 { 1u8 << 1u8 } else { 0u8 }) | (if b2 {
            1u8 << 2u8
        } else { 0u8 }) | (if b3 { 1u8 << 3u8 } else { 0u8 }) | (if b4 { 1u8 << 4u8 } else { 0u8 })
            | (if b5 { 1u8 << 5u8 } else { 0u8 }) | (if b6 { 1u8 << 6u8 } else { 0u8 }) | (if b7 {
            1u8 << 7u8
        } else { 0u8 }),
    ensures
        ((byte >> 0u8) & 1u8 == 1u8) == b0,
        ((byte >> 1u8) & 1u8 == 1u8) == b1,
        ((byte >> 2u8) & 1u8 == 1u8) == b2,
        ((byte >> 3u8) & 1u8 == 1u8) == b3,
        ((byte >> 4u8) & 1u8 == 1u8) == b4,
        ((byte >> 5u8) & 1u8 == 1u8) == b5,
        ((byte >> 6u8) & 1u8 == 1u8) == b6,
        ((byte >> 7u8) & 1u8 == 1u8) == b7,
{
}

/// Packed bits read back as they were.
pub proof fn packed_reads_back(bits: Seq<bool>, j: int)
    requires
        0 <= j < bits.len(),
    ensures
        j / 8 < packed(bits).len(),
        bit_at(packed(bits), j) == bits[j],
{
    let at = 8 * (j / 8);
    let on = |k: int| at + k < bits.len() && bits[at + k];
    let byte = packed_byte(bits, at);
    bits_of_byte(on(0), on(1), on(2), on(3), on(4), on(5), on(6), on(7), byte);
    let k = j % 8;
    assert(at + k == j);
    assert(packed(bits)[j / 8] == byte);
    assert(((byte >> (k as u8)) & 1u8 == 1u8) == on(k)) by {
        assert(k == 0 || k == 1 || k == 2 || k == 3 || k == 4 || k == 5 || k == 6 || k == 7);
    }
}

/// Bits packed from bit 0, with every trailing bit of the last byte clear.
pub fn pack_bits(bits: &[bool]) -> (bytes: Vec<u8>)
    ensures
        bytes@.len() == bytes_for_bits(bits@.len() as int),
        forall|j: int|
            0 <= j < bytes@.len() * 8 ==> #[trigger] bit_at(bytes@, j) == (j < bits@.len()
                && bits@[j]),
        bytes@ == packed(bits@),
{
    let mut bytes: Vec<u8> = zeroed_bytes(byte_count(bits.len()));
    let mut i: usize = 0;
    while i < bits.len()
        invariant
            i <= bits@.len(),
            bytes@.len() == bytes_for_bits(bits@.len() as int),
            forall|j: int|
                0 <= j < bytes@.len() * 8 ==> #[trigger] bit_at(bytes@, j) == (j < i && bits@[j]),
        decreases bits@.len() - i,
    {
        if bits[i] {
            set_bit(&mut bytes, i);
        }
        i = i + 1;
    }
    proof {
        bits_determine_bytes(bytes@, bits@);
    }
    bytes
}

/// Every bit of zero bytes is clear.
pub proof fn zero_bytes_are_clear(n: nat, j: int)
    requires
        0 <= j < n * 8,
    ensures
        !bit_at(Seq::new(n, |i: int| 0u8), j),
{
    let k: u8 = (j % 8) as u8;
    assert((0u8 >> k) & 1u8 == 0u8) by (bit_vector);
}

/// `n` zero bytes: every bit is clear.
pub fn zeroed_bytes(n: usize) -> (bytes: Vec<u8>)
    ensures
        bytes@ == Seq::new(n as nat, |i: int| 0u8),
        forall|j: int| 0 <= j < n * 8 ==> !#[trigger] bit_at(bytes@, j),
{
    let bytes: Vec<u8> = vec![0u8; n];
    proof {
        assert(bytes@ =~= Seq::new(n as nat, |i: int| 0u8));
        assert forall|j: int| 0 <= j < n * 8 implies !#[trigger] bit_at(bytes@, j) by {
            zero_bytes_are_clear(n as nat, j);
        }
    }
    bytes
}

/// The bit at position `i` is binary digit `i % 8`, from the lowest, of byte `i / 8`.
pub proof fn bit_is_binary_digit(bytes: Seq<u8>, i: int)
    requires
        0 <= i,
    ensures
        bit_at(bytes, i) <==> (bytes[i / 8] as nat / vstd::arithmetic::power2::pow2(
            (i % 8) as nat,
        )) % 2 == 1,
{
    vstd::arithmetic::power2::lemma2_to64();
    let b: u8 = bytes[i / 8];
    assert((b >> 0u8) & 1u8 == (b / 1u8) % 2u8) by (bit_vector);
    assert((b >> 1u8) & 1u8 == (b / 2u8) % 2u8) by (bit_vector);
    assert((b >> 2u8) & 1u8 == (b / 4u8) % 2u8) by (bit_vector);
    assert((b >> 3u8) & 1u8 == (b / 8u8) % 2u8) by (bit_vector);
    assert((b >> 4u8) & 1u8 == (b / 16u8) % 2u8) by (bit_vector);
    assert((b >> 5u8) & 1u8 == (b / 32u8) % 2u8) by (bit_vector);
    assert((b >> 6u8) & 1u8 == (b / 64u8) % 2u8) by (bit_vector);
    assert((b >> 7u8) & 1u8 == (b / 128u8) % 2u8) by (bit_vector);
    let k = i % 8;
    assert(k == 0 || k == 1 || k == 2 || k == 3 || k == 4 || k == 5 || k == 6 || k == 7);
}

/// Some bits take up as many bytes as hold them, and not one more.
pub proof fn bytes_hold_the_bits(bits: nat)
    ensures
        8 * bytes_for_bits(bits as int) >= bits,
        8 * (bytes_for_bits(bits as int) - 1) < bits,
{
}

/// A set bit counts once and a clear bit does not, wherever it stands.
pub proof fn each_bit_counts_once(a: Seq<bool>, b: Seq<bool>)
    ensures
        count_true(a + b) == count_true(a) + count_true(b),
        count_true(seq![true]) == 1,
        count_true(seq![false]) == 0,
    decreases b.len(),
{
    reveal_with_fuel(count_true, 2);
    assert(seq![true].drop_last() =~= Seq::<bool>::empty());
    assert(seq![false].drop_last() =~= Seq::<bool>::empty());
    if b.len() == 0 {
        assert(a + b =~= a);
    } else {
        each_bit_counts_once(a, b.drop_last());
        assert((a + b).drop_last() =~= a + b.drop_last());
    }
}

} // verus!
