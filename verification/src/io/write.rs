//! Writes of objects that split into a multipart upload only when they have to.
use vstd::prelude::*;

use crate::io::chunk::{
    buffer_contents, buffer_extend, buffer_freeze, buffer_len, buffer_split_to, buffer_take,
    buffer_with_capacity, chunk_contents, concat_chunks, concat_chunks_adds,
};

verus! {

/// The size of every part but the last.
pub const CHUNK_SIZE: usize = 16777216;

/// How many bytes a write may leave in the buffer.
pub const BUFFER_SIZE: usize = 134217728;

/// What an object store answers to a finished write.
#[derive(Debug, PartialEq, Eq)]
pub struct PutResult {
    pub e_tag: Option<String>,
    pub version: Option<String>,
}

/// The next request of a writer.
pub enum WriteAction {
    /// No request is left.
    Done,
    /// Start a multipart upload, and tell the writer when it runs.
    StartUpload,
    /// Upload these parts, in this order.
    PutParts(Vec<bytes::Bytes>),
    /// Upload the trailing part.
    PutTail(bytes::Bytes),
    /// Complete the multipart upload, and hand its answer to the writer.
    Complete,
    /// Put the whole object in one request, and hand its answer to the writer.
    Put(bytes::Bytes),
    /// Abort the multipart upload.
    Abort,
}

/// What a writer has done so far: what it still buffers, whether a multipart upload runs, and
/// whether the object is persisted.
#[verifier::ext_equal]
pub struct WriterModel {
    pub buffered: Seq<u8>,
    pub upload: bool,
    pub persisted: bool,
}

/// What a request sends.
#[verifier::ext_equal]
pub enum ActionModel {
    Done,
    StartUpload,
    PutParts(Seq<Seq<u8>>),
    PutTail(Seq<u8>),
    Complete,
    Put(Seq<u8>),
    Abort,
}

impl View for WriteAction {
    type V = ActionModel;

    open spec fn view(&self) -> ActionModel {
        match self {
            WriteAction::Done => ActionModel::Done,
            WriteAction::StartUpload => ActionModel::StartUpload,
            WriteAction::PutParts(parts) => ActionModel::PutParts(
                Seq::new(parts@.len(), |i: int| chunk_contents(parts@[i])),
            ),
            WriteAction::PutTail(b) => ActionModel::PutTail(chunk_contents(*b)),
            WriteAction::Complete => ActionModel::Complete,
            WriteAction::Put(b) => ActionModel::Put(chunk_contents(*b)),
            WriteAction::Abort => ActionModel::Abort,
        }
    }
}

/// How many whole parts leave a buffer of `n` bytes: none where it holds at most one part, which
/// may still become a single put; else every whole part.
pub open spec fn part_count(n: nat) -> nat {
    if n <= CHUNK_SIZE {
        0
    } else {
        n / CHUNK_SIZE as nat
    }
}

/// The whole parts that leave a buffer.
pub open spec fn whole_parts(buffered: Seq<u8>) -> Seq<Seq<u8>> {
    Seq::new(
        part_count(buffered.len()),
        |i: int| buffered.subrange(i * CHUNK_SIZE, (i + 1) * CHUNK_SIZE),
    )
}

/// The next step of a flush: nothing for at most one part's worth of bytes; else the upload is
/// started, and then every whole part is sent.
pub open spec fn flush_step(m: WriterModel) -> (WriterModel, ActionModel) {
    if m.buffered.len() <= CHUNK_SIZE {
        (m, ActionModel::Done)
    } else if !m.upload {
        (m, ActionModel::StartUpload)
    } else {
        (
            WriterModel {
                buffered: m.buffered.skip(part_count(m.buffered.len()) * CHUNK_SIZE),
                ..m
            },
            ActionModel::PutParts(whole_parts(m.buffered)),
        )
    }
}

/// The next step of a shutdown: nothing once the object is persisted; else the steps of a flush;
/// then the trailing part, if any, and the completion of the upload, or a single put where no
/// upload was started.
pub open spec fn shutdown_step(m: WriterModel) -> (WriterModel, ActionModel) {
    if m.persisted {
        (m, ActionModel::Done)
    } else if m.buffered.len() > CHUNK_SIZE {
        flush_step(m)
    } else {
        let emptied = WriterModel { buffered: Seq::empty(), ..m };
        if !m.upload {
            (emptied, ActionModel::Put(m.buffered))
        } else if m.buffered.len() > 0 {
            (emptied, ActionModel::PutTail(m.buffered))
        } else {
            (emptied, ActionModel::Complete)
        }
    }
}

/// A writer that has received nothing.
pub open spec fn fresh_writer() -> WriterModel {
    WriterModel { buffered: Seq::empty(), upload: false, persisted: false }
}

/// A writer that has received some more bytes, and whether it must now be flushed.
pub open spec fn write_step(m: WriterModel, data: Seq<u8>) -> (WriterModel, bool) {
    let written = WriterModel { buffered: m.buffered + data, ..m };
    (written, written.buffered.len() > BUFFER_SIZE)
}

/// A writer whose multipart upload runs.
pub open spec fn uploading(m: WriterModel) -> WriterModel {
    WriterModel { upload: true, ..m }
}

/// A writer whose object is persisted.
pub open spec fn done(m: WriterModel) -> WriterModel {
    WriterModel { persisted: true, ..m }
}

/// What is left to do after a failure.
pub open spec fn abort_action(m: WriterModel) -> ActionModel {
    if m.upload && !m.persisted {
        ActionModel::Abort
    } else {
        ActionModel::Done
    }
}

/// A writer of one object. After the last write it must be shut down.
///
/// The multipart upload is started only when the buffer first has to split. An object that never
/// splits is persisted by a single put.
pub struct ObjectStoreWrite {
    upload: bool,
    buffer: bytes::BytesMut,
    put_result: Option<PutResult>,
}

impl View for ObjectStoreWrite {
    type V = WriterModel;

    closed spec fn view(&self) -> WriterModel {
        WriterModel {
            buffered: buffer_contents(self.buffer),
            upload: self.upload,
            persisted: self.put_result is Some,
        }
    }
}

impl ObjectStoreWrite {
    /// What the store answered when the object was persisted.
    pub closed spec fn answer(&self) -> Option<PutResult> {
        self.put_result
    }

    /// A writer that has received nothing.
    pub fn new() -> (w: ObjectStoreWrite)
        ensures
            w@ == fresh_writer(),
            w.answer() is None,
    {
        ObjectStoreWrite {
            upload: false,
            buffer: buffer_with_capacity(CHUNK_SIZE),
            put_result: None,
        }
    }

    /// What the store answered when the object was persisted.
    pub fn put_result(&self) -> (r: Option<&PutResult>)
        ensures
            match r {
                Some(p) => self.answer() == Some(*p),
                None => self.answer() is None,
            },
            r is Some == self@.persisted,
    {
        self.put_result.as_ref()
    }

    /// How many bytes are buffered.
    pub fn buffered_len(&self) -> (n: usize)
        ensures
            n == self@.buffered.len(),
    {
        buffer_len(&self.buffer)
    }

    /// Records that the multipart upload runs.
    pub fn upload_started(&mut self)
        ensures
            final(self)@ == uploading(old(self)@),
            final(self).answer() == old(self).answer(),
    {
        self.upload = true;
    }

    /// Takes every whole part out of the buffer. Less than a part stays behind, so that only the
    /// trailing part can be smaller than the others.
    fn take_parts(&mut self) -> (parts: Vec<bytes::Bytes>)
        requires
            old(self)@.buffered.len() > CHUNK_SIZE,
        ensures
            final(self)@ == (WriterModel {
                buffered: old(self)@.buffered.skip(
                    part_count(old(self)@.buffered.len()) * CHUNK_SIZE,
                ),
                ..old(self)@
            }),
            WriteAction::PutParts(parts)@ == ActionModel::PutParts(whole_parts(old(self)@.buffered)),
            final(self)@.buffered.len() < CHUNK_SIZE,
            final(self).answer() == old(self).answer(),
    {
        let ghost all = self@.buffered;
        let mut parts: Vec<bytes::Bytes> = Vec::new();
        assert(all.skip(0) =~= all);
        while buffer_len(&self.buffer) >= CHUNK_SIZE
            invariant
                all == old(self)@.buffered,
                all.len() > CHUNK_SIZE,
                self.upload == old(self).upload,
                self.put_result == old(self).put_result,
                parts@.len() * CHUNK_SIZE <= all.len(),
                buffer_contents(self.buffer) == all.skip(parts@.len() * CHUNK_SIZE),
                forall|i: int|
                    0 <= i < parts@.len() ==> chunk_contents(#[trigger] parts@[i]) == all.subrange(
                        i * CHUNK_SIZE,
                        (i + 1) * CHUNK_SIZE,
                    ),
            decreases buffer_contents(self.buffer).len(),
        {
            let ghost n = parts@.len() as int;
            let head = buffer_split_to(&mut self.buffer, CHUNK_SIZE);
            parts.push(buffer_freeze(head));
            proof {
                assert(all.skip(n * CHUNK_SIZE).take(CHUNK_SIZE as int) =~= all.subrange(
                    n * CHUNK_SIZE,
                    (n + 1) * CHUNK_SIZE,
                ));
                assert(all.skip(n * CHUNK_SIZE).skip(CHUNK_SIZE as int) =~= all.skip(
                    (n + 1) * CHUNK_SIZE,
                ));
            }
        }
        proof {
            let n = parts@.len() as int;
            assert(n == all.len() / CHUNK_SIZE as nat);
            assert(WriteAction::PutParts(parts)@->PutParts_0 =~= whole_parts(all));
        }
        parts
    }

    /// The next step of draining the buffer.
    fn drain_parts(&mut self) -> (action: WriteAction)
        ensures
            (final(self)@, action@) == flush_step(old(self)@),
            final(self).answer() == old(self).answer(),
    {
        if buffer_len(&self.buffer) <= CHUNK_SIZE {
            return WriteAction::Done;
        }
        if !self.upload {
            return WriteAction::StartUpload;
        }
        WriteAction::PutParts(self.take_parts())
    }

    /// Appends `data`. Returns whether the buffer is so full that it must be flushed.
    pub fn write_all(&mut self, data: &[u8]) -> (full: bool)
        requires
            old(self)@.buffered.len() + data@.len() <= isize::MAX / 2,
        ensures
            (final(self)@, full) == write_step(old(self)@, data@),
            final(self).answer() == old(self).answer(),
    {
        buffer_extend(&mut self.buffer, data);
        buffer_len(&self.buffer) > BUFFER_SIZE
    }

    /// The next step of a flush. After a request other than `Done` was served, the flush goes on
    /// with another step.
    pub fn flush(&mut self) -> (action: WriteAction)
        ensures
            (final(self)@, action@) == flush_step(old(self)@),
            final(self).answer() == old(self).answer(),
    {
        self.drain_parts()
    }

    /// The next step of a shutdown. After a request other than `Done` was served, the shutdown
    /// goes on with another step.
    pub fn shutdown(&mut self) -> (action: WriteAction)
        ensures
            (final(self)@, action@) == shutdown_step(old(self)@),
            final(self).answer() == old(self).answer(),
    {
        if self.put_result.is_some() {
            return WriteAction::Done;
        }
        if buffer_len(&self.buffer) > CHUNK_SIZE {
            return self.flush();
        }
        let taken = buffer_take(&mut self.buffer);
        let bytes = buffer_freeze(taken);
        if !self.upload {
            WriteAction::Put(bytes)
        } else if crate::io::chunk::chunk_slice(&bytes).len() > 0 {
            WriteAction::PutTail(bytes)
        } else {
            WriteAction::Complete
        }
    }

    /// What is left to do after a write or a shutdown failed: abort the upload in flight. Nothing,
    /// where the buffer never split or the object is persisted.
    pub fn abort(&self) -> (action: WriteAction)
        ensures
            action@ == abort_action(self@),
    {
        if self.upload && self.put_result.is_none() {
            WriteAction::Abort
        } else {
            WriteAction::Done
        }
    }

    /// Records that the object is persisted.
    pub fn persisted(&mut self, result: PutResult)
        ensures
            final(self)@ == done(old(self)@),
            final(self).answer() == Some(result),
    {
        self.put_result = Some(result);
    }
}

/// The whole parts and what stays behind are the buffer, and every part has the part size. Once a
/// buffer splits, less than a part stays behind.
pub proof fn parts_conserve_bytes(buffered: Seq<u8>)
    ensures
        concat_chunks(whole_parts(buffered)) + buffered.skip(
            part_count(buffered.len()) * CHUNK_SIZE,
        ) == buffered,
        forall|i: int|
            0 <= i < whole_parts(buffered).len() ==> (#[trigger] whole_parts(buffered)[i]).len()
                == CHUNK_SIZE,
        buffered.skip(part_count(buffered.len()) * CHUNK_SIZE).len() <= CHUNK_SIZE,
        buffered.len() > CHUNK_SIZE ==> buffered.skip(
            part_count(buffered.len()) * CHUNK_SIZE,
        ).len() < CHUNK_SIZE,
{
    let n = part_count(buffered.len());
    prefix_of_parts(buffered, n as int);
    assert(whole_parts(buffered).take(n as int) =~= whole_parts(buffered));
    assert(buffered.take(n * CHUNK_SIZE) + buffered.skip(n * CHUNK_SIZE) =~= buffered);
}

/// The first parts are a prefix of the buffer.
proof fn prefix_of_parts(buffered: Seq<u8>, k: int)
    requires
        0 <= k <= part_count(buffered.len()),
    ensures
        concat_chunks(whole_parts(buffered).take(k)) == buffered.take(k * CHUNK_SIZE),
        k * CHUNK_SIZE <= buffered.len(),
    decreases k,
{
    let parts = whole_parts(buffered);
    if k > 0 {
        prefix_of_parts(buffered, k - 1);
        assert(parts.take(k).drop_last() =~= parts.take(k - 1));
        assert(buffered.take(k * CHUNK_SIZE) =~= buffered.take((k - 1) * CHUNK_SIZE)
            + parts[k - 1]);
    } else {
        assert(buffered.take(0) =~= Seq::<u8>::empty());
    }
}

/// A call of a writer.
#[verifier::ext_equal]
pub enum WriteCall {
    Write(Seq<u8>),
    Flush,
}

/// What served requests have sent: the parts of a multipart upload, or the payload of a put.
#[verifier::ext_equal]
pub struct Sent {
    pub uploads: nat,
    pub parts: Seq<Seq<u8>>,
    pub completes: nat,
    pub puts: Seq<Seq<u8>>,
}

/// Nothing sent.
pub open spec fn nothing_sent() -> Sent {
    Sent { uploads: 0, parts: Seq::empty(), completes: 0, puts: Seq::empty() }
}

/// The writer and what it has sent once a request is served.
pub open spec fn served(m: WriterModel, action: ActionModel, sent: Sent) -> (WriterModel, Sent) {
    match action {
        ActionModel::Done | ActionModel::Abort => (m, sent),
        ActionModel::StartUpload => (
            uploading(m),
            Sent { uploads: sent.uploads + 1, ..sent },
        ),
        ActionModel::PutParts(parts) => (m, Sent { parts: sent.parts + parts, ..sent }),
        ActionModel::PutTail(tail) => (m, Sent { parts: sent.parts.push(tail), ..sent }),
        ActionModel::Complete => (
            done(m),
            Sent { completes: sent.completes + 1, ..sent },
        ),
        ActionModel::Put(bytes) => (
            done(m),
            Sent { puts: sent.puts.push(bytes), ..sent },
        ),
    }
}

/// A flush carried out: its steps until nothing is left to do, of which there are at most two.
pub open spec fn flushed(m: WriterModel, sent: Sent) -> (WriterModel, Sent) {
    let first = flush_step(m);
    let (m1, sent1) = served(first.0, first.1, sent);
    let second = flush_step(m1);
    served(second.0, second.1, sent1)
}

/// A shutdown carried out: its steps until nothing is left to do, of which there are at most four.
pub open spec fn shut_down(m: WriterModel, sent: Sent) -> (WriterModel, Sent) {
    let s1 = shutdown_step(m);
    let (m1, sent1) = served(s1.0, s1.1, sent);
    let s2 = shutdown_step(m1);
    let (m2, sent2) = served(s2.0, s2.1, sent1);
    let s3 = shutdown_step(m2);
    let (m3, sent3) = served(s3.0, s3.1, sent2);
    let s4 = shutdown_step(m3);
    served(s4.0, s4.1, sent3)
}

/// The writer and what it has sent after some calls. A write that fills the buffer flushes it.
pub open spec fn after_calls(calls: Seq<WriteCall>) -> (WriterModel, Sent)
    decreases calls.len(),
{
    if calls.len() == 0 {
        (fresh_writer(), nothing_sent())
    } else {
        let (m, sent) = after_calls(calls.drop_last());
        match calls.last() {
            WriteCall::Write(data) => {
                let (written, full) = write_step(m, data);
                if full {
                    flushed(written, sent)
                } else {
                    (written, sent)
                }
            },
            WriteCall::Flush => flushed(m, sent),
        }
    }
}

/// The bytes that some calls wrote.
pub open spec fn written_bytes(calls: Seq<WriteCall>) -> Seq<u8>
    decreases calls.len(),
{
    if calls.len() == 0 {
        Seq::empty()
    } else {
        written_bytes(calls.drop_last()) + match calls.last() {
            WriteCall::Write(data) => data,
            WriteCall::Flush => Seq::empty(),
        }
    }
}

/// What holds between calls: no byte is lost or sent twice, every part sent is whole, an upload
/// runs exactly when parts were sent, and nothing is persisted.
pub open spec fn between_calls(m: WriterModel, sent: Sent, written: Seq<u8>) -> bool {
    &&& concat_chunks(sent.parts) + m.buffered == written
    &&& forall|i: int| 0 <= i < sent.parts.len() ==> (#[trigger] sent.parts[i]).len() == CHUNK_SIZE
    &&& m.upload == (sent.parts.len() > 0)
    &&& sent.uploads == (if m.upload {
        1nat
    } else {
        0nat
    })
    &&& !m.persisted
    &&& sent.completes == 0
    &&& sent.puts.len() == 0
}

/// A flush keeps what holds between calls, and leaves at most one part's worth of bytes.
proof fn flush_keeps(m: WriterModel, sent: Sent, written: Seq<u8>)
    requires
        between_calls(m, sent, written),
    ensures
        between_calls(flushed(m, sent).0, flushed(m, sent).1, written),
        flushed(m, sent).0.buffered.len() <= CHUNK_SIZE,
        m.buffered.len() <= CHUNK_SIZE ==> flushed(m, sent) == (m, sent),
        m.buffered.len() > CHUNK_SIZE ==> flushed(m, sent).0.upload,
{
    if m.buffered.len() > CHUNK_SIZE {
        parts_conserve_bytes(m.buffered);
        concat_chunks_adds(sent.parts, whole_parts(m.buffered));
        let rest = m.buffered.skip(part_count(m.buffered.len()) * CHUNK_SIZE);
        assert(concat_chunks(sent.parts) + (concat_chunks(whole_parts(m.buffered)) + rest) =~= (
        concat_chunks(sent.parts) + concat_chunks(whole_parts(m.buffered))) + rest);
        assert(whole_parts(m.buffered).len() >= 1);
    }
}

/// Between calls no byte is lost or sent twice, every part sent is whole, and an upload runs only
/// once the buffer had to split.
pub proof fn calls_conserve_bytes(calls: Seq<WriteCall>)
    ensures
        between_calls(after_calls(calls).0, after_calls(calls).1, written_bytes(calls)),
    decreases calls.len(),
{
    if calls.len() > 0 {
        calls_conserve_bytes(calls.drop_last());
        let (m, sent) = after_calls(calls.drop_last());
        let before = written_bytes(calls.drop_last());
        match calls.last() {
            WriteCall::Write(data) => {
                let written = WriterModel { buffered: m.buffered + data, ..m };
                assert(concat_chunks(sent.parts) + (m.buffered + data) =~= (concat_chunks(
                    sent.parts,
                ) + m.buffered) + data);
                flush_keeps(written, sent, before + data);
            },
            WriteCall::Flush => {
                assert(before + Seq::<u8>::empty() =~= before);
                flush_keeps(m, sent, before);
            },
        }
    } else {
        assert(concat_chunks(Seq::empty()) + Seq::<u8>::empty() =~= Seq::empty());
    }
}

/// Shutting a writer down persists exactly the bytes that were written, and leaves nothing to do
/// for a second shutdown. An object that never split is one put and no upload; any other is one
/// upload whose parts are all whole but the last, completed once.
pub proof fn shutdown_persists_what_was_written(calls: Seq<WriteCall>)
    ensures
        ({
            let before = after_calls(calls);
            let (m, sent) = shut_down(before.0, before.1);
            &&& m.persisted
            &&& shutdown_step(m) == (m, ActionModel::Done)
            &&& if before.0.upload || before.0.buffered.len() > CHUNK_SIZE {
                &&& sent.puts.len() == 0
                &&& sent.uploads == 1
                &&& sent.completes == 1
                &&& concat_chunks(sent.parts) == written_bytes(calls)
                &&& forall|i: int|
                    0 <= i < sent.parts.len() - 1 ==> (#[trigger] sent.parts[i]).len()
                        == CHUNK_SIZE
                &&& sent.parts.len() > 0
                &&& 1 <= sent.parts.last().len() <= CHUNK_SIZE
            } else {
                &&& sent.puts == seq![written_bytes(calls)]
                &&& sent.uploads == 0
                &&& sent.parts.len() == 0
                &&& sent.completes == 0
            }
        }),
{
    calls_conserve_bytes(calls);
    let (m, sent) = after_calls(calls);
    let written = written_bytes(calls);
    flush_keeps(m, sent, written);
    if m.upload || m.buffered.len() > CHUNK_SIZE {
        let (f, fsent) = flushed(m, sent);
        let tail = f.buffered;
        assert(concat_chunks(fsent.parts) + tail == written);
        let emptied = WriterModel { buffered: Seq::empty(), ..f };
        if tail.len() > 0 {
            let all = fsent.parts.push(tail);
            assert(all.drop_last() =~= fsent.parts);
            assert(concat_chunks(all) == written);
            assert(shutdown_step(f) == (emptied, ActionModel::PutTail(tail)));
            assert(shutdown_step(emptied) == (emptied, ActionModel::Complete));
        } else {
            assert(concat_chunks(fsent.parts) =~= written);
            assert(fsent.parts.last().len() == CHUNK_SIZE);
            assert(emptied =~= f);
            assert(shutdown_step(f) == (f, ActionModel::Complete));
        }
    } else {
        assert(concat_chunks(Seq::empty()) + m.buffered =~= m.buffered);
        assert(sent.parts =~= Seq::empty());
        assert(sent.puts.push(m.buffered) =~= seq![m.buffered]);
    }
}

/// What a writer holds back in bytes: after a flush at most one part, which is 16 MiB, and after
/// any calls at most 128 MiB. Every part that was sent is one part long.
pub proof fn little_is_held_back(calls: Seq<WriteCall>)
    ensures
        after_calls(calls).0.buffered.len() <= 128 * 1024 * 1024,
        calls.len() > 0 && calls.last() is Flush ==> after_calls(calls).0.buffered.len() <= 16
            * 1024 * 1024,
        forall|i: int|
            0 <= i < after_calls(calls).1.parts.len() ==> (#[trigger] after_calls(
                calls,
            ).1.parts[i]).len() == 16 * 1024 * 1024,
    decreases calls.len(),
{
    calls_conserve_bytes(calls);
    if calls.len() > 0 {
        little_is_held_back(calls.drop_last());
        calls_conserve_bytes(calls.drop_last());
        let (m, sent) = after_calls(calls.drop_last());
        let before = written_bytes(calls.drop_last());
        match calls.last() {
            WriteCall::Write(data) => {
                let written = WriterModel { buffered: m.buffered + data, ..m };
                assert(concat_chunks(sent.parts) + (m.buffered + data) =~= (concat_chunks(
                    sent.parts,
                ) + m.buffered) + data);
                flush_keeps(written, sent, before + data);
            },
            WriteCall::Flush => {
                flush_keeps(m, sent, before);
            },
        }
    }
}

/// An upload is in flight exactly where parts were sent, and that is what is aborted after a
/// failure. Parts are sent as late as can be: none before more than one part was written, and
/// without a flush none before more than the buffer was.
pub proof fn uploads_start_late(calls: Seq<WriteCall>)
    ensures
        ({
            let (m, sent) = after_calls(calls);
            &&& abort_action(m) is Abort <==> sent.parts.len() > 0
            &&& abort_action(m) is Done <==> sent.parts.len() == 0
            &&& sent.uploads == (if sent.parts.len() > 0 {
                1nat
            } else {
                0nat
            })
            &&& written_bytes(calls).len() <= 16 * 1024 * 1024 ==> sent.parts.len() == 0
            &&& (forall|i: int| 0 <= i < calls.len() ==> !(#[trigger] calls[i] is Flush))
                && written_bytes(calls).len() <= 128 * 1024 * 1024 ==> sent.parts.len() == 0
        }),
    decreases calls.len(),
{
    calls_conserve_bytes(calls);
    if calls.len() > 0 {
        let before = calls.drop_last();
        uploads_start_late(before);
        calls_conserve_bytes(before);
        let (m, sent) = after_calls(before);
        assert(forall|i: int| 0 <= i < before.len() ==> #[trigger] before[i] == calls[i]);
        assert(calls[calls.len() - 1] == calls.last());
        assert(written_bytes(before).len() <= written_bytes(calls).len());
        assert(m.buffered.len() <= written_bytes(before).len());
    }
}

/// A shutdown of at most 16 MiB is one put of all that was written, without an upload; after it
/// nothing is left to abort.
pub proof fn small_objects_are_put_whole(calls: Seq<WriteCall>)
    ensures
        ({
            let before = after_calls(calls);
            let (m, sent) = shut_down(before.0, before.1);
            &&& abort_action(m) is Done
            &&& written_bytes(calls).len() <= 16 * 1024 * 1024 ==> {
                &&& sent.puts == seq![written_bytes(calls)]
                &&& sent.uploads == 0
                &&& sent.parts.len() == 0
            }
            &&& written_bytes(calls).len() > 16 * 1024 * 1024 ==> {
                &&& sent.puts.len() == 0
                &&& sent.uploads == 1
                &&& sent.completes == 1
                &&& concat_chunks(sent.parts) == written_bytes(calls)
            }
        }),
{
    shutdown_persists_what_was_written(calls);
    uploads_start_late(calls);
    calls_conserve_bytes(calls);
    let (m, sent) = after_calls(calls);
    if sent.parts.len() == 0 {
        assert(concat_chunks(sent.parts) + m.buffered =~= m.buffered);
    }
}

} // verus!
