//! Reads of byte ranges from an object.
use vstd::prelude::*;

use crate::error::{VortexError, VortexResult};
use crate::io::chunk::{chunk_contents, chunk_slice, concat_chunks};

verus! {

/// How many requests a source sends at the same time, unless told otherwise.
pub const DEFAULT_CONCURRENCY: usize = 192;

/// When reads of nearby ranges become one request.
#[derive(Clone, Copy, Debug, PartialEq, Eq, Structural)]
pub struct CoalesceConfig {
    /// The largest gap between ranges that are read together.
    pub distance: u64,
    /// The largest range that is read in one request.
    pub max_size: u64,
}

/// An allocator that never adopts the bytes of others.
#[derive(Clone, Copy, Debug, PartialEq, Eq, Structural)]
pub struct DefaultHostAllocator;

impl DefaultHostAllocator {
    /// Whether the allocator adopts the bytes of others.
    pub fn adopts(&self) -> (b: bool)
        ensures
            !b,
    {
        false
    }
}

/// The text of the object path that a raw path is read as: `object_store::path::Path::from`
/// applied to the raw path, then displayed.
pub uninterp spec fn path_text(raw: Seq<char>) -> Seq<char>;

/// Calls `object_store::path::Path::from` and its `to_string`. The text depends on the raw path
/// alone; how empty segments are dropped and characters encoded is left unsaid.
#[verifier::external_body]
fn object_path_text(raw: &str) -> (text: String)
    ensures
        text@ == path_text(raw@),
{
    object_store::path::Path::from(raw).to_string()
}

/// A source of the bytes of one object.
#[derive(Debug, PartialEq, Eq)]
pub struct ObjectStoreReadAt<A> {
    pub uri: String,
    pub allocator: A,
    pub concurrency: usize,
    pub coalesce_config: Option<CoalesceConfig>,
}

impl ObjectStoreReadAt<DefaultHostAllocator> {
    /// A source with the default allocator. `object_storage` is how reads from object stores
    /// coalesce.
    pub fn new(path: &str, object_storage: CoalesceConfig) -> (r: Self)
        ensures
            r.uri@ == path_text(path@),
            r.allocator == DefaultHostAllocator,
            r.concurrency == 192,
            r.coalesce_config == Some(object_storage),
    {
        Self::new_with_allocator(path, object_storage, DefaultHostAllocator)
    }
}

impl<A> ObjectStoreReadAt<A> {
    /// A source with an allocator of the caller's.
    pub fn new_with_allocator(path: &str, object_storage: CoalesceConfig, allocator: A) -> (r: Self)
        ensures
            r.uri@ == path_text(path@),
            r.allocator == allocator,
            r.concurrency == 192,
            r.coalesce_config == Some(object_storage),
    {
        ObjectStoreReadAt {
            uri: object_path_text(path),
            allocator,
            concurrency: DEFAULT_CONCURRENCY,
            coalesce_config: Some(object_storage),
        }
    }

    /// The same source with another concurrency.
    pub fn with_concurrency(self, concurrency: usize) -> (r: Self)
        ensures
            r == (Self { concurrency, ..self }),
    {
        ObjectStoreReadAt {
            uri: self.uri,
            allocator: self.allocator,
            concurrency,
            coalesce_config: self.coalesce_config,
        }
    }

    /// The same source with another coalescing of reads.
    pub fn with_coalesce_config(self, config: CoalesceConfig) -> (r: Self)
        ensures
            r == (Self { coalesce_config: Some(config), ..self }),
    {
        ObjectStoreReadAt {
            uri: self.uri,
            allocator: self.allocator,
            concurrency: self.concurrency,
            coalesce_config: Some(config),
        }
    }

    /// The object's path as text.
    pub fn uri(&self) -> (r: Option<&String>)
        ensures
            r == Some(&self.uri),
    {
        Some(&self.uri)
    }

    /// How reads coalesce.
    pub fn coalesce_config(&self) -> (r: Option<CoalesceConfig>)
        ensures
            r == self.coalesce_config,
    {
        self.coalesce_config
    }

    /// How many requests may run at the same time.
    pub fn concurrency(&self) -> (r: usize)
        ensures
            r == self.concurrency,
    {
        self.concurrency
    }

    /// The range of `length` bytes from `offset` on.
    pub fn read_range(&self, offset: u64, length: usize) -> (r: ReadRange)
        requires
            offset + length <= u64::MAX,
        ensures
            r.start == offset,
            r.end == offset + length,
    {
        ReadRange { start: offset, end: offset + length as u64 }
    }

    /// What a read of `length` bytes from `offset` on returns, given what the store answered. A
    /// file is read to the exact length. A stream must hold exactly the range; a stream whose
    /// first chunk is the whole range is handed over as that very chunk where the allocator adopts
    /// it, and every other is copied into one buffer.
    pub fn read_at(&self, offset: u64, length: usize, payload: ReadPayload) -> (r: VortexResult<
        ReadBuffer,
    >)
        requires
            offset + length <= u64::MAX,
            payload matches ReadPayload::File(bytes) ==> bytes@.len() == length,
        ensures
            read_outcome(offset, length, payload, r),
    {
        let range = self.read_range(offset, length);
        match payload {
            ReadPayload::File(bytes) => Ok(ReadBuffer::Copied(bytes)),
            ReadPayload::Stream { items, adopts } => read_stream(range, length, items, adopts),
        }
    }
}

/// What a read of `length` bytes from `offset` on returns, given what the store answered.
pub open spec fn read_outcome(
    offset: u64,
    length: usize,
    payload: ReadPayload,
    r: VortexResult<ReadBuffer>,
) -> bool {
    match payload {
        ReadPayload::File(bytes) => r matches Ok(b) && b is Copied && b@ == bytes@,
        ReadPayload::Stream { items, adopts } => stream_outcome(
            ReadRange { start: offset, end: (offset + length) as u64 },
            length,
            items@,
            adopts,
            r,
        ),
    }
}

/// What a stream over `range` becomes.
pub open spec fn stream_outcome(
    range: ReadRange,
    length: usize,
    items: Seq<VortexResult<bytes::Bytes>>,
    adopts: bool,
    r: VortexResult<ReadBuffer>,
) -> bool {
    match r {
        Ok(buffer) => {
            &&& stream_error(range, length, item_models(items)) is None
            &&& buffer@ == stream_bytes(item_models(items))
            &&& buffer@.len() == length
            &&& buffer is Adopted <==> adopts && first_is_whole(length, item_models(items))
            &&& buffer matches ReadBuffer::Adopted(b) ==> items[0] == Ok::<
                bytes::Bytes,
                VortexError,
            >(b)
        },
        Err(e) => stream_error(range, length, item_models(items)) == Some(e),
    }
}

/// What a stream over `range` becomes.
fn read_stream(
    range: ReadRange,
    length: usize,
    items: Vec<VortexResult<bytes::Bytes>>,
    adopts: bool,
) -> (r: VortexResult<ReadBuffer>)
    ensures
        stream_outcome(range, length, items@, adopts, r),
{
    let ghost all = items@;
    let ghost models = item_models(all);
    let mut read = StreamRead::new(range, length);
    assert(models.take(0) =~= Seq::empty());
    for item in it: items
        invariant
            all == items@,
            it.seq() == all,
            models == item_models(all),
            read.wf(),
            range == read.spec_range(),
            length == read.spec_length(),
            read.seen() == models.take(it.index() as int),
            read.whole_chunk() matches Some(b) ==> it.index() > 0 && all[0] == Ok::<
                bytes::Bytes,
                VortexError,
            >(b),
    {
        let ghost n = it.index() as int;
        proof {
            assert(item == all[n]);
            assert(models.take(n + 1).drop_last() =~= models.take(n));
            assert(models.take(n + 1).last() == models[n]);
            assert(models.take(n).push(models[n]) =~= models.take(n + 1));
            read.no_failure_yet();
        }
        match item {
            Ok(chunk) => {
                match read.chunk(chunk) {
                    Ok(_) => {},
                    Err(e) => {
                        proof {
                            first_failure_stands(range, length, models, n + 1);
                        }
                        return Err(e);
                    },
                }
            },
            Err(e) => {
                proof {
                    first_failure_stands(range, length, models, n + 1);
                }
                return Err(e);
            },
        }
    }
    assert(models.take(all.len() as int) =~= models);
    match read.finish() {
        Ok(bytes) => Ok(bytes.deliver(adopts)),
        Err(e) => Err(e),
    }
}

/// The bytes `start..end` of an object.
#[derive(Clone, Copy, Debug, PartialEq, Eq, Structural)]
pub struct ReadRange {
    pub start: u64,
    pub end: u64,
}

/// What a store answers to a read: the bytes read from a local file, or the items of a stream and
/// whether the allocator adopts a chunk that holds the whole range.
pub enum ReadPayload {
    File(Vec<u8>),
    Stream { items: Vec<VortexResult<bytes::Bytes>>, adopts: bool },
}

/// The bytes of a stream that held exactly its range.
pub enum StreamBytes {
    /// The first chunk was the whole range.
    Whole(bytes::Bytes),
    /// The chunks, copied one after the other.
    Assembled(Vec<u8>),
}

/// The bytes that a read returns.
pub enum ReadBuffer {
    /// The store's own bytes.
    Adopted(bytes::Bytes),
    /// A copy.
    Copied(Vec<u8>),
}

impl View for StreamBytes {
    type V = Seq<u8>;

    open spec fn view(&self) -> Seq<u8> {
        match self {
            StreamBytes::Whole(b) => chunk_contents(*b),
            StreamBytes::Assembled(v) => v@,
        }
    }
}

impl View for ReadBuffer {
    type V = Seq<u8>;

    open spec fn view(&self) -> Seq<u8> {
        match self {
            ReadBuffer::Adopted(b) => chunk_contents(*b),
            ReadBuffer::Copied(v) => v@,
        }
    }
}

/// The bytes in a vector of their own.
fn copy_chunk(chunk: &bytes::Bytes) -> (v: Vec<u8>)
    ensures
        v@ == chunk_contents(*chunk),
{
    let mut v: Vec<u8> = Vec::new();
    v.extend_from_slice(chunk_slice(chunk));
    assert(v@ =~= chunk_contents(*chunk));
    v
}

impl StreamBytes {
    /// The bytes as a read returns them. Only a chunk that is the whole range is adopted, and only
    /// where the allocator consents.
    pub fn deliver(self, adopts: bool) -> (buffer: ReadBuffer)
        ensures
            buffer@ == self@,
            buffer is Adopted <==> adopts && self is Whole,
            self matches StreamBytes::Whole(b) ==> adopts ==> buffer == ReadBuffer::Adopted(b),
    {
        match self {
            StreamBytes::Whole(b) => {
                if adopts {
                    ReadBuffer::Adopted(b)
                } else {
                    ReadBuffer::Copied(copy_chunk(&b))
                }
            },
            StreamBytes::Assembled(v) => ReadBuffer::Copied(v),
        }
    }
}

/// An item of a stream: a chunk, or a failure.
pub type ItemModel = Result<Seq<u8>, VortexError>;

/// The items of a stream.
pub open spec fn item_models(items: Seq<VortexResult<bytes::Bytes>>) -> Seq<ItemModel> {
    Seq::new(
        items.len(),
        |i: int|
            match items[i] {
                Ok(b) => Ok(chunk_contents(b)),
                Err(e) => Err(e),
            },
    )
}

/// The bytes of a stream without failures.
pub open spec fn stream_bytes(items: Seq<ItemModel>) -> Seq<u8> {
    concat_chunks(Seq::new(items.len(), |i: int| items[i]->Ok_0))
}

/// What the items that have come so far fail with, if they do: the first failure of the stream,
/// or the first chunk with which the bytes exceed the range.
pub open spec fn items_error(range: ReadRange, length: usize, items: Seq<ItemModel>) -> Option<
    VortexError,
>
    decreases items.len(),
{
    if items.len() == 0 {
        None
    } else {
        match items_error(range, length, items.drop_last()) {
            Some(e) => Some(e),
            None => match items.last() {
                Err(e) => Some(e),
                Ok(_) => if stream_bytes(items).len() > length {
                    Some(
                        VortexError::StreamTooLong {
                            got: stream_bytes(items).len() as u128,
                            expected: length,
                            start: range.start,
                            end: range.end,
                        },
                    )
                } else {
                    None
                },
            },
        }
    }
}

/// What a whole stream fails with, if it does.
pub open spec fn stream_error(range: ReadRange, length: usize, items: Seq<ItemModel>) -> Option<
    VortexError,
> {
    match items_error(range, length, items) {
        Some(e) => Some(e),
        None => if stream_bytes(items).len() < length {
            Some(
                VortexError::StreamTooShort {
                    returned: stream_bytes(items).len() as usize,
                    expected: length,
                    start: range.start,
                    end: range.end,
                },
            )
        } else {
            None
        },
    }
}

/// Whether the first chunk of a stream is as long as the range.
pub open spec fn first_is_whole(length: usize, items: Seq<ItemModel>) -> bool {
    items.len() > 0 && (items[0] matches Ok(b) && b.len() == length)
}

/// A failure of the first items is the failure of the stream.
proof fn first_failure_stands(range: ReadRange, length: usize, items: Seq<ItemModel>, n: int)
    requires
        0 <= n <= items.len(),
        items_error(range, length, items.take(n)) is Some,
    ensures
        items_error(range, length, items) == items_error(range, length, items.take(n)),
    decreases items.len(),
{
    if n < items.len() {
        assert(items.drop_last().take(n) =~= items.take(n));
        first_failure_stands(range, length, items.drop_last(), n);
    } else {
        assert(items.take(n) =~= items);
    }
}

/// One more chunk adds its bytes.
proof fn one_more_chunk(items: Seq<ItemModel>, chunk: Seq<u8>)
    ensures
        stream_bytes(items.push(Ok(chunk))) == stream_bytes(items) + chunk,
{
    let more = items.push(Ok::<Seq<u8>, VortexError>(chunk));
    let chunks = Seq::new(more.len(), |i: int| more[i]->Ok_0);
    assert(chunks.drop_last() =~= Seq::new(items.len(), |i: int| items[i]->Ok_0));
}

/// Bytes never leave a stream.
proof fn stream_grows(items: Seq<ItemModel>)
    requires
        items.len() > 0,
    ensures
        items[0]->Ok_0.len() <= stream_bytes(items).len(),
    decreases items.len(),
{
    let chunks = Seq::new(items.len(), |i: int| items[i]->Ok_0);
    let shorter = items.drop_last();
    assert(chunks.drop_last() =~= Seq::new(shorter.len(), |i: int| shorter[i]->Ok_0));
    if items.len() > 1 {
        stream_grows(shorter);
    }
}

/// A stream being read.
pub struct StreamRead {
    range: ReadRange,
    length: usize,
    /// The first chunk, where it is as long as the range.
    whole: Option<bytes::Bytes>,
    /// Whether a chunk has come.
    started: bool,
    /// The bytes so far, where the first chunk was not the whole range.
    buffer: Vec<u8>,
    /// The items that have come so far.
    seen: Ghost<Seq<ItemModel>>,
}

impl StreamRead {
    /// The range that is read.
    pub closed spec fn spec_range(&self) -> ReadRange {
        self.range
    }

    /// The length of the range.
    pub closed spec fn spec_length(&self) -> usize {
        self.length
    }

    /// The items that have come so far.
    pub closed spec fn seen(&self) -> Seq<ItemModel> {
        self.seen@
    }

    /// The first chunk, where it is as long as the range.
    pub closed spec fn whole_chunk(&self) -> Option<bytes::Bytes> {
        self.whole
    }

    /// None of the items was a failure, and what is kept are their bytes.
    pub closed spec fn wf(&self) -> bool {
        let items = self.seen@;
        &&& items_error(self.range, self.length, items) is None
        &&& self.started == (items.len() > 0)
        &&& self.whole is Some == first_is_whole(self.length, items)
        &&& match self.whole {
            Some(b) => chunk_contents(b) == stream_bytes(items),
            None => self.buffer@ == stream_bytes(items),
        }
        &&& stream_bytes(items).len() <= self.length
    }

    /// A stream that is still being read has not failed.
    proof fn no_failure_yet(&self)
        requires
            self.wf(),
        ensures
            items_error(self.spec_range(), self.spec_length(), self.seen()) is None,
    {
    }

    /// A stream of which nothing has come yet.
    pub fn new(range: ReadRange, length: usize) -> (r: StreamRead)
        ensures
            r.wf(),
            r.spec_range() == range,
            r.spec_length() == length,
            r.seen() == Seq::<ItemModel>::empty(),
            r.whole_chunk() is None,
    {
        let r = StreamRead {
            range,
            length,
            whole: None,
            started: false,
            buffer: Vec::new(),
            seen: Ghost(Seq::empty()),
        };
        assert(r.buffer@ =~= stream_bytes(Seq::empty()));
        r
    }

    /// Takes the next chunk. A chunk with which the bytes exceed the range is refused.
    pub fn chunk(&mut self, chunk: bytes::Bytes) -> (r: VortexResult<()>)
        requires
            old(self).wf(),
        ensures
            final(self).wf(),
            final(self).spec_range() == old(self).spec_range(),
            final(self).spec_length() == old(self).spec_length(),
            ({
                let more = old(self).seen().push(Ok(chunk_contents(chunk)));
                let error = items_error(old(self).spec_range(), old(self).spec_length(), more);
                match r {
                    Ok(_) => {
                        &&& error is None
                        &&& final(self).seen() == more
                        &&& final(self).whole_chunk() == (if old(self).seen().len() == 0
                            && chunk_contents(chunk).len() == old(self).spec_length() {
                            Some(chunk)
                        } else {
                            old(self).whole_chunk()
                        })
                    },
                    Err(e) => error == Some(e) && *final(self) == *old(self),
                }
            }),
    {
        let ghost items = self.seen@;
        let ghost more = items.push(Ok::<Seq<u8>, VortexError>(chunk_contents(chunk)));
        proof {
            one_more_chunk(items, chunk_contents(chunk));
            assert(more.drop_last() =~= items);
            if self.whole is Some {
                stream_grows(items);
            }
        }
        let bytes: &[u8] = chunk_slice(&chunk);
        let written: usize = match &self.whole {
            Some(_) => self.length,
            None => self.buffer.len(),
        };
        let end: u128 = written as u128 + bytes.len() as u128;
        if end > self.length as u128 {
            return Err(
                VortexError::StreamTooLong {
                    got: end,
                    expected: self.length,
                    start: self.range.start,
                    end: self.range.end,
                },
            );
        }
        if self.whole.is_some() {
            assert(stream_bytes(more) =~= stream_bytes(items));
        } else if !self.started && bytes.len() == self.length {
            assert(stream_bytes(more) =~= chunk_contents(chunk)) by {
                assert(items =~= Seq::empty());
            }
            self.whole = Some(chunk);
        } else {
            self.buffer.extend_from_slice(bytes);
            assert(self.buffer@ =~= stream_bytes(more));
        }
        self.started = true;
        self.seen = Ghost(more);
        Ok(())
    }

    /// Ends the stream. One with fewer bytes than the range is refused.
    pub fn finish(self) -> (r: VortexResult<StreamBytes>)
        requires
            self.wf(),
        ensures
            match r {
                Ok(bytes) => {
                    &&& stream_error(self.spec_range(), self.spec_length(), self.seen()) is None
                    &&& bytes@ == stream_bytes(self.seen())
                    &&& bytes@.len() == self.spec_length()
                    &&& bytes is Whole <==> first_is_whole(self.spec_length(), self.seen())
                    &&& bytes matches StreamBytes::Whole(b) ==> self.whole_chunk() == Some(b)
                },
                Err(e) => stream_error(self.spec_range(), self.spec_length(), self.seen()) == Some(
                    e,
                ),
            },
    {
        match self.whole {
            Some(b) => {
                proof {
                    stream_grows(self.seen@);
                }
                Ok(StreamBytes::Whole(b))
            },
            None => {
                if self.buffer.len() != self.length {
                    return Err(
                        VortexError::StreamTooShort {
                            returned: self.buffer.len(),
                            expected: self.length,
                            start: self.range.start,
                            end: self.range.end,
                        },
                    );
                }
                Ok(StreamBytes::Assembled(self.buffer))
            },
        }
    }
}

/// A stream succeeds exactly when none of its items is a failure and its bytes are as many as the
/// range holds, however they are cut into chunks.
pub proof fn stream_succeeds_on_exact_length(
    range: ReadRange,
    length: usize,
    items: Seq<ItemModel>,
)
    requires
        forall|i: int| 0 <= i < items.len() ==> #[trigger] items[i] is Ok,
    ensures
        stream_error(range, length, items) is None <==> stream_bytes(items).len() == length,
{
    within_length(range, length, items);
}

/// Chunks fail exactly when together they exceed the range.
proof fn within_length(range: ReadRange, length: usize, items: Seq<ItemModel>)
    requires
        forall|i: int| 0 <= i < items.len() ==> #[trigger] items[i] is Ok,
    ensures
        items_error(range, length, items) is None <==> stream_bytes(items).len() <= length,
    decreases items.len(),
{
    if items.len() > 0 {
        let shorter = items.drop_last();
        assert forall|i: int| 0 <= i < shorter.len() implies #[trigger] shorter[i] is Ok by {
            assert(shorter[i] == items[i]);
        }
        within_length(range, length, shorter);
        assert(items[items.len() - 1] is Ok);
        assert(shorter.push(Ok::<Seq<u8>, VortexError>(items.last()->Ok_0)) =~= items);
        one_more_chunk(shorter, items.last()->Ok_0);
    }
}

/// The chunks of the first `n` items.
pub open spec fn first_chunks(items: Seq<VortexResult<bytes::Bytes>>, n: nat) -> Seq<Seq<u8>> {
    Seq::new(n, |i: int| chunk_contents(items[i]->Ok_0))
}

/// The first `n` items hold no failure.
pub open spec fn no_failure(items: Seq<VortexResult<bytes::Bytes>>, n: int) -> bool {
    forall|i: int| 0 <= i < n ==> #[trigger] items[i] is Ok
}

/// The models of items without failures are their chunks.
proof fn chunks_of_models(items: Seq<VortexResult<bytes::Bytes>>, n: int)
    requires
        0 <= n <= items.len(),
        no_failure(items, n),
    ensures
        stream_bytes(item_models(items).take(n)) == concat_chunks(first_chunks(items, n as nat)),
        forall|i: int| 0 <= i < n ==> #[trigger] item_models(items).take(n)[i] is Ok,
{
    let models = item_models(items).take(n);
    assert forall|i: int| 0 <= i < n implies #[trigger] models[i] is Ok by {
        assert(items[i] is Ok);
    }
    assert(Seq::new(models.len(), |i: int| models[i]->Ok_0) =~= first_chunks(items, n as nat));
}

/// A read of a stream without failures succeeds where its chunks hold exactly as many bytes as
/// were asked for, and then returns them one after the other. The first chunk itself is returned
/// where it is all of them and the allocator adopts it, and a copy in every other case. A shorter
/// stream is refused with how much it returned, for the bytes that were asked for.
pub proof fn exact_streams_are_read(
    offset: u64,
    length: usize,
    items: Vec<VortexResult<bytes::Bytes>>,
    adopts: bool,
    r: VortexResult<ReadBuffer>,
)
    requires
        offset + length <= u64::MAX,
        no_failure(items@, items@.len() as int),
        read_outcome(offset, length, ReadPayload::Stream { items, adopts }, r),
    ensures
        ({
            let bytes = concat_chunks(first_chunks(items@, items@.len()));
            &&& bytes.len() == length ==> {
                &&& r is Ok
                &&& if adopts && items@.len() > 0 && chunk_contents(items@[0]->Ok_0).len()
                    == length {
                    r->Ok_0 == ReadBuffer::Adopted(items@[0]->Ok_0) && chunk_contents(
                        items@[0]->Ok_0,
                    ) == bytes
                } else {
                    r->Ok_0 matches ReadBuffer::Copied(v) && v@ == bytes
                }
            }
            &&& bytes.len() < length ==> (r matches Err(
                VortexError::StreamTooShort { returned, expected, start, end },
            ) && returned == bytes.len() && expected == length && start == offset && end == offset
                + length)
            &&& bytes.len() > length ==> (r matches Err(
                VortexError::StreamTooLong { got, expected, start, end },
            ) && expected == length && start == offset && end == offset + length)
        }),
{
    let models = item_models(items@);
    let n = items@.len() as int;
    let range = ReadRange { start: offset, end: (offset + length) as u64 };
    chunks_of_models(items@, n);
    assert(models.take(n) =~= models);
    assert forall|i: int| 0 <= i < models.len() implies #[trigger] models[i] is Ok by {
        assert(items@[i] is Ok);
    }
    stream_succeeds_on_exact_length(range, length, models);
    within_length(range, length, models);
    too_long_by_name(range, length, models);
    if stream_bytes(models).len() == length && n > 0 {
        assert(models[0] == Ok::<Seq<u8>, VortexError>(chunk_contents(items@[0]->Ok_0)));
    }
}

/// Chunks that exceed the range fail for being too long.
proof fn too_long_by_name(range: ReadRange, length: usize, items: Seq<ItemModel>)
    requires
        forall|i: int| 0 <= i < items.len() ==> #[trigger] items[i] is Ok,
    ensures
        items_error(range, length, items) matches Some(e) ==> (e matches VortexError::StreamTooLong {
            got,
            expected,
            start,
            end,
        } && expected == length && start == range.start && end == range.end),
    decreases items.len(),
{
    if items.len() > 0 {
        let shorter = items.drop_last();
        assert forall|i: int| 0 <= i < shorter.len() implies #[trigger] shorter[i] is Ok by {
            assert(shorter[i] == items[i]);
        }
        assert(items[items.len() - 1] is Ok);
        too_long_by_name(range, length, shorter);
    }
}

/// The first item that goes wrong decides: item `k`, after items that hold no failure and together
/// no more bytes than were asked for. A failure is returned as it is. A chunk with which the bytes
/// exceed the range is refused with how many there are, counted up to it.
pub proof fn first_bad_item_decides(
    offset: u64,
    length: usize,
    items: Vec<VortexResult<bytes::Bytes>>,
    adopts: bool,
    r: VortexResult<ReadBuffer>,
    k: int,
)
    requires
        offset + length <= u64::MAX,
        0 <= k < items@.len(),
        no_failure(items@, k),
        concat_chunks(first_chunks(items@, k as nat)).len() <= length,
        read_outcome(offset, length, ReadPayload::Stream { items, adopts }, r),
    ensures
        items@[k] matches Err(e) ==> (r matches Err(f) && f == e),
        items@[k] matches Ok(chunk) ==> ({
            let got = concat_chunks(first_chunks(items@, k as nat)).len() + chunk_contents(
                chunk,
            ).len();
            length < got <= u128::MAX ==> r == Err::<ReadBuffer, VortexError>(
                VortexError::StreamTooLong {
                    got: got as u128,
                    expected: length,
                    start: offset,
                    end: (offset + length) as u64,
                },
            )
        }),
{
    let models = item_models(items@);
    let range = ReadRange { start: offset, end: (offset + length) as u64 };
    let before = models.take(k);
    let upto = models.take(k + 1);
    chunks_of_models(items@, k);
    within_length(range, length, before);
    assert(upto.drop_last() =~= before);
    assert(upto.last() == models[k]);
    if let Ok(chunk) = items@[k] {
        assert(before.push(Ok::<Seq<u8>, VortexError>(chunk_contents(chunk))) =~= upto);
        one_more_chunk(before, chunk_contents(chunk));
    }
    if items_error(range, length, upto) is Some {
        first_failure_stands(range, length, models, k + 1);
    }
}

/// A file is returned as it was read.
pub proof fn files_are_returned_as_read(
    offset: u64,
    length: usize,
    bytes: Vec<u8>,
    r: VortexResult<ReadBuffer>,
)
    requires
        bytes@.len() == length,
        read_outcome(offset, length, ReadPayload::File(bytes), r),
    ensures
        r matches Ok(ReadBuffer::Copied(v)) && v@ == bytes@,
{
}

} // verus!
