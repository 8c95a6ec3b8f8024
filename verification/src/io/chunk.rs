//! Byte chunks as object stores take and return them.
use vstd::prelude::*;

verus! {

/// A shared, immutable chunk of bytes.
#[verifier::external_type_specification]
#[verifier::external_body]
pub struct ExBytes(bytes::Bytes);

/// A growing chunk of bytes.
#[verifier::external_type_specification]
#[verifier::external_body]
pub struct ExBytesMut(bytes::BytesMut);

/// The bytes of a shared chunk.
pub uninterp spec fn chunk_contents(chunk: bytes::Bytes) -> Seq<u8>;

/// The bytes of a growing chunk.
pub uninterp spec fn buffer_contents(buffer: bytes::BytesMut) -> Seq<u8>;

/// Calls `bytes::Bytes::deref`: the bytes of the chunk.
#[verifier::external_body]
pub(crate) fn chunk_slice(chunk: &bytes::Bytes) -> (s: &[u8])
    ensures
        s@ == chunk_contents(*chunk),
{
    chunk
}

/// Calls `bytes::BytesMut::with_capacity`: an empty buffer. A capacity beyond `isize::MAX` cannot
/// be allocated.
#[verifier::external_body]
pub(crate) fn buffer_with_capacity(capacity: usize) -> (buffer: bytes::BytesMut)
    requires
        capacity <= isize::MAX,
    ensures
        buffer_contents(buffer) == Seq::<u8>::empty(),
{
    bytes::BytesMut::with_capacity(capacity)
}

/// Calls `bytes::BytesMut::extend_from_slice`: appends the bytes. The bound on the new length keeps
/// the capacity, which doubles as the buffer grows, within what can be allocated.
#[verifier::external_body]
pub(crate) fn buffer_extend(buffer: &mut bytes::BytesMut, data: &[u8])
    requires
        buffer_contents(*old(buffer)).len() + data@.len() <= isize::MAX / 2,
    ensures
        buffer_contents(*final(buffer)) == buffer_contents(*old(buffer)) + data@,
{
    buffer.extend_from_slice(data);
}

/// Calls `bytes::BytesMut::len`: the number of bytes.
#[verifier::external_body]
pub(crate) fn buffer_len(buffer: &bytes::BytesMut) -> (n: usize)
    ensures
        n == buffer_contents(*buffer).len(),
{
    buffer.len()
}

/// Calls `bytes::BytesMut::split_to`: the first `at` bytes leave the buffer, the rest stays.
#[verifier::external_body]
pub(crate) fn buffer_split_to(buffer: &mut bytes::BytesMut, at: usize) -> (head: bytes::BytesMut)
    requires
        at <= buffer_contents(*old(buffer)).len(),
    ensures
        buffer_contents(head) == buffer_contents(*old(buffer)).take(at as int),
        buffer_contents(*final(buffer)) == buffer_contents(*old(buffer)).skip(at as int),
{
    buffer.split_to(at)
}

/// Calls `bytes::BytesMut::freeze`: the same bytes in a shared chunk.
#[verifier::external_body]
pub(crate) fn buffer_freeze(buffer: bytes::BytesMut) -> (chunk: bytes::Bytes)
    ensures
        chunk_contents(chunk) == buffer_contents(buffer),
{
    buffer.freeze()
}

/// Calls `std::mem::take` on a `bytes::BytesMut`: its bytes leave it, and it is empty afterwards.
#[verifier::external_body]
pub(crate) fn buffer_take(buffer: &mut bytes::BytesMut) -> (taken: bytes::BytesMut)
    ensures
        buffer_contents(taken) == buffer_contents(*old(buffer)),
        buffer_contents(*final(buffer)) == Seq::<u8>::empty(),
{
    std::mem::take(buffer)
}

/// The bytes of several chunks, one after the other.
pub open spec fn concat_chunks(chunks: Seq<Seq<u8>>) -> Seq<u8>
    decreases chunks.len(),
{
    if chunks.len() == 0 {
        Seq::empty()
    } else {
        concat_chunks(chunks.drop_last()) + chunks.last()
    }
}

/// Chunks appended to chunks append their bytes.
pub proof fn concat_chunks_adds(a: Seq<Seq<u8>>, b: Seq<Seq<u8>>)
    ensures
        concat_chunks(a + b) == concat_chunks(a) + concat_chunks(b),
    decreases b.len(),
{
    if b.len() == 0 {
        assert(a + b =~= a);
        assert(concat_chunks(a) + concat_chunks(b) =~= concat_chunks(a));
    } else {
        concat_chunks_adds(a, b.drop_last());
        assert((a + b).drop_last() =~= a + b.drop_last());
        assert(concat_chunks(a + b) =~= concat_chunks(a) + concat_chunks(b));
    }
}

/// The bytes of one chunk are its bytes, and no chunk has no bytes. With the sum of two sequences
/// of chunks this says where every byte goes.
pub proof fn one_chunk_is_itself(chunk: Seq<u8>)
    ensures
        concat_chunks(seq![chunk]) == chunk,
        concat_chunks(Seq::<Seq<u8>>::empty()) == Seq::<u8>::empty(),
{
    let none = Seq::<Seq<u8>>::empty();
    assert(concat_chunks(none) =~= Seq::<u8>::empty());
    assert(seq![chunk].drop_last() =~= none);
    assert(concat_chunks(seq![chunk]) == concat_chunks(none) + chunk);
    assert(Seq::<u8>::empty() + chunk =~= chunk);
}

} // verus!
