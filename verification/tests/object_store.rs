use bytes::Bytes;
use vortex_core::error::VortexError;
use vortex_core::io::read_at::{
    CoalesceConfig, ObjectStoreReadAt, ReadBuffer, ReadPayload, ReadRange, StreamBytes, StreamRead,
    DEFAULT_CONCURRENCY,
};
use vortex_core::io::write::{ObjectStoreWrite, PutResult, WriteAction, BUFFER_SIZE, CHUNK_SIZE};

const CONFIG: CoalesceConfig = CoalesceConfig { distance: 7, max_size: 70 };

fn chunk(len: usize) -> Bytes {
    Bytes::from((0..len).map(|i| (i % 256) as u8).collect::<Vec<u8>>())
}

fn read(chunks: Vec<Bytes>, length: usize, adopts: bool) -> Result<ReadBuffer, VortexError> {
    let reader = ObjectStoreReadAt::new("test.bin", CONFIG);
    let items = chunks.into_iter().map(Ok).collect();
    reader.read_at(0, length, ReadPayload::Stream { items, adopts })
}

fn contents(buffer: &ReadBuffer) -> Vec<u8> {
    match buffer {
        ReadBuffer::Adopted(b) => b.to_vec(),
        ReadBuffer::Copied(v) => v.clone(),
    }
}

#[test]
fn sources_start_with_defaults() {
    let reader = ObjectStoreReadAt::new("a//b c/%.bin", CONFIG);
    assert_eq!(reader.uri().unwrap(), &object_store::path::Path::from("a//b c/%.bin").to_string());
    assert_ne!(reader.uri().unwrap(), "a//b c/%.bin");
    assert_eq!(reader.concurrency(), DEFAULT_CONCURRENCY);
    assert_eq!(reader.concurrency(), 192);
    assert_eq!(reader.coalesce_config(), Some(CONFIG));
    let other = CoalesceConfig { distance: 1, max_size: 2 };
    let reader = ObjectStoreReadAt::new_with_allocator("x", CONFIG, 5u8)
        .with_concurrency(3)
        .with_coalesce_config(other);
    assert_eq!(reader.concurrency(), 3);
    assert_eq!(reader.coalesce_config(), Some(other));
    assert_eq!(reader.allocator, 5);
    assert_eq!(reader.uri().unwrap(), "x");
}

#[test]
fn read_at_uses_spawn_io() {
    let reader = ObjectStoreReadAt::new("test.bin", CONFIG);
    assert_eq!(reader.read_range(7, 5), ReadRange { start: 7, end: 12 });
    let data = Bytes::from_static(b"object store test data");
    let items = vec![Ok(data.slice(7..12))];
    let buffer = reader.read_at(7, 5, ReadPayload::Stream { items, adopts: false }).unwrap();
    assert_eq!(contents(&buffer), b"store");
}

#[test]
fn read_at_adopts_aligned_single_chunk() {
    let bytes = chunk(64);
    match read(vec![bytes.clone()], 64, true).unwrap() {
        ReadBuffer::Adopted(adopted) => {
            assert_eq!(adopted, bytes);
            assert_eq!(adopted.as_ptr(), bytes.as_ptr());
        }
        ReadBuffer::Copied(_) => panic!("the allocator consented"),
    }
}

#[test]
fn read_at_copies_misaligned_single_chunk() {
    let misaligned = chunk(65).slice(1..);
    let buffer = read(vec![misaligned.clone()], 64, false).unwrap();
    assert!(matches!(buffer, ReadBuffer::Copied(_)));
    assert_eq!(contents(&buffer), misaligned);
}

#[test]
fn read_at_default_allocator_never_adopts() {
    let reader = ObjectStoreReadAt::new("test.bin", CONFIG);
    let bytes = chunk(64);
    let payload =
        ReadPayload::Stream { items: vec![Ok(bytes.clone())], adopts: reader.allocator.adopts() };
    let buffer = reader.read_at(0, 64, payload).unwrap();
    assert!(matches!(buffer, ReadBuffer::Copied(_)));
    assert_eq!(contents(&buffer), bytes);
}

#[test]
fn read_at_never_adopts_without_allocator_consent() {
    let buffer = read(vec![chunk(64)], 64, false).unwrap();
    assert!(matches!(buffer, ReadBuffer::Copied(_)));
    assert_eq!(contents(&buffer), chunk(64));
}

#[test]
fn read_at_assembles_multi_chunk_stream() {
    let whole = chunk(64);
    let buffer = read(vec![whole.slice(0..10), whole.slice(10..64)], 64, true).unwrap();
    assert!(matches!(buffer, ReadBuffer::Copied(_)));
    assert_eq!(contents(&buffer), whole);
}

#[test]
fn read_at_empty_range() {
    let buffer = read(vec![], 0, true).unwrap();
    assert!(contents(&buffer).is_empty());
}

#[test]
fn read_at_validates_stream_length() {
    let whole = chunk(64);
    let err = read(vec![whole.slice(0..32), whole.slice(32..64)], 32, true).err().unwrap();
    assert!(err.message().contains("too many bytes"));
    assert_eq!(err, VortexError::StreamTooLong { got: 64, expected: 32, start: 0, end: 32 });
    let err = read(vec![whole.slice(0..64)], 32, true).err().unwrap();
    assert!(err.message().contains("too many bytes"));
    assert_eq!(
        err.message(),
        "Object store stream returned too many bytes: 64 > expected 32 (range: 0..32)"
    );
    let err = read(vec![whole.slice(0..16)], 32, true).err().unwrap();
    assert!(err.message().contains("expected 32 bytes"));
    assert_eq!(
        err.message(),
        "Object store stream returned 16 bytes but expected 32 bytes (range: 0..32)"
    );
}

#[test]
fn empty_chunks_change_nothing() {
    let whole = chunk(64);
    let none = Bytes::new();
    let buffer = read(vec![whole.clone(), none.clone(), none.clone()], 64, true).unwrap();
    assert!(matches!(buffer, ReadBuffer::Adopted(_)));
    let buffer = read(vec![none, whole.clone()], 64, true).unwrap();
    assert!(matches!(buffer, ReadBuffer::Copied(_)));
    assert_eq!(contents(&buffer), whole);
}

#[test]
fn the_first_failure_of_a_stream_counts() {
    let reader = ObjectStoreReadAt::new("test.bin", CONFIG);
    let items = vec![Ok(chunk(4)), Err(VortexError::ObjectStore), Ok(chunk(100))];
    let result = reader.read_at(3, 8, ReadPayload::Stream { items, adopts: true });
    assert_eq!(result.err(), Some(VortexError::ObjectStore));
    let items = vec![Ok(chunk(9)), Err(VortexError::ObjectStore)];
    let result = reader.read_at(3, 8, ReadPayload::Stream { items, adopts: true });
    let expected = VortexError::StreamTooLong { got: 9, expected: 8, start: 3, end: 11 };
    assert_eq!(result.err(), Some(expected));
}

#[test]
fn files_are_handed_over_as_read() {
    let reader = ObjectStoreReadAt::new("test.bin", CONFIG);
    let buffer = reader.read_at(9, 3, ReadPayload::File(vec![1, 2, 3])).unwrap();
    assert_eq!(contents(&buffer), vec![1, 2, 3]);
}

#[test]
fn streams_can_be_read_chunk_by_chunk() {
    let mut stream = StreamRead::new(ReadRange { start: 0, end: 6 }, 6);
    assert!(stream.chunk(chunk(4)).is_ok());
    assert!(stream.chunk(chunk(3)).is_err());
    assert!(stream.chunk(chunk(2)).is_ok());
    match stream.finish().unwrap() {
        StreamBytes::Assembled(v) => assert_eq!(v, vec![0, 1, 2, 3, 0, 1]),
        StreamBytes::Whole(_) => panic!("two chunks are not one"),
    }
}

/// An object store that keeps what it is sent.
#[derive(Default)]
struct Store {
    puts: usize,
    multiparts: usize,
    parts: Vec<Bytes>,
    completed: usize,
    object: Option<Vec<u8>>,
}

impl Store {
    fn counts(&self) -> (usize, usize, usize) {
        (self.puts, self.multiparts, self.parts.len())
    }

    /// Serves a request, and returns whether there was one.
    fn serve(&mut self, writer: &mut ObjectStoreWrite, action: WriteAction) -> bool {
        let result = PutResult { e_tag: Some("tag".to_string()), version: None };
        match action {
            WriteAction::Done => return false,
            WriteAction::StartUpload => {
                self.multiparts += 1;
                writer.upload_started();
            }
            WriteAction::PutParts(parts) => self.parts.extend(parts),
            WriteAction::PutTail(part) => self.parts.push(part),
            WriteAction::Complete => {
                self.completed += 1;
                self.object = Some(self.parts.concat());
                writer.persisted(result);
            }
            WriteAction::Put(bytes) => {
                self.puts += 1;
                self.object = Some(bytes.to_vec());
                writer.persisted(result);
            }
            WriteAction::Abort => panic!("nothing failed"),
        }
        true
    }

    fn flush(&mut self, writer: &mut ObjectStoreWrite) {
        loop {
            let action = writer.flush();
            if !self.serve(writer, action) {
                return;
            }
        }
    }

    fn write(&mut self, writer: &mut ObjectStoreWrite, data: &[u8]) {
        if writer.write_all(data) {
            self.flush(writer);
        }
    }

    fn shutdown(&mut self, writer: &mut ObjectStoreWrite) {
        loop {
            let action = writer.shutdown();
            if !self.serve(writer, action) {
                return;
            }
        }
    }
}

#[test]
fn test_object_store_writer_multiple_flushes() {
    for chunk_size in [100, 8 * 1024 * 1024, 25 * 1024 * 1024, 26 * 1024 * 1024] {
        let mut store = Store::default();
        let mut writer = ObjectStoreWrite::new();
        let mut expected: Vec<u8> = Vec::new();
        for i in 0..3u8 {
            let data = vec![i; chunk_size];
            store.write(&mut writer, &data);
            store.flush(&mut writer);
            expected.extend(data);
        }
        store.shutdown(&mut writer);
        assert!(store.object == Some(expected));
    }
}

#[test]
fn small_object_costs_one_put_and_no_multipart() {
    let mut store = Store::default();
    let mut writer = ObjectStoreWrite::new();
    store.write(&mut writer, &[7u8; 4096]);
    store.flush(&mut writer);
    assert!(writer.put_result().is_none());
    store.shutdown(&mut writer);
    assert_eq!(store.counts(), (1, 0, 0));
    assert_eq!(store.object, Some(vec![7u8; 4096]));
    assert_eq!(writer.put_result().unwrap().e_tag.as_deref(), Some("tag"));
}

#[test]
fn splitting_object_uses_multipart_with_full_parts() {
    let tail = 4096;
    let mut store = Store::default();
    let mut writer = ObjectStoreWrite::new();
    store.write(&mut writer, &vec![3u8; CHUNK_SIZE + tail]);
    store.flush(&mut writer);
    store.shutdown(&mut writer);
    assert_eq!(store.counts(), (0, 1, 2));
    assert_eq!(store.parts[0].len(), CHUNK_SIZE);
    assert_eq!(store.parts[1].len(), tail);
    assert_eq!(store.object.unwrap().len(), CHUNK_SIZE + tail);
}

#[test]
fn second_shutdown_does_not_truncate() {
    let mut store = Store::default();
    let mut writer = ObjectStoreWrite::new();
    store.write(&mut writer, &[9u8; 2048]);
    store.shutdown(&mut writer);
    store.shutdown(&mut writer);
    assert_eq!(store.counts(), (1, 0, 0), "the second shutdown must be a no-op");
    assert_eq!(store.object, Some(vec![9u8; 2048]));
}

#[test]
fn empty_writer_persists_zero_byte_object() {
    let mut store = Store::default();
    let mut writer = ObjectStoreWrite::new();
    store.shutdown(&mut writer);
    assert_eq!(store.counts(), (1, 0, 0));
    assert_eq!(store.object, Some(vec![]));
}

#[test]
fn a_full_part_alone_stays_in_the_buffer() {
    let mut store = Store::default();
    let mut writer = ObjectStoreWrite::new();
    store.write(&mut writer, &vec![1u8; CHUNK_SIZE]);
    store.flush(&mut writer);
    store.shutdown(&mut writer);
    assert_eq!(store.counts(), (1, 0, 0));
}

#[test]
fn a_write_splits_only_once_the_buffer_is_full() {
    let mut writer = ObjectStoreWrite::new();
    assert!(!writer.write_all(&vec![1u8; BUFFER_SIZE]));
    assert!(writer.write_all(&[2]));
    assert!(matches!(writer.flush(), WriteAction::StartUpload));
    writer.upload_started();
    match writer.flush() {
        WriteAction::PutParts(parts) => {
            assert_eq!(parts.len(), BUFFER_SIZE / CHUNK_SIZE);
            assert!(parts.iter().all(|p| p.len() == CHUNK_SIZE));
        }
        _ => panic!("the buffer is full"),
    }
    match writer.shutdown() {
        WriteAction::PutTail(tail) => assert_eq!(tail, Bytes::from_static(&[2])),
        _ => panic!("one byte is left"),
    }
    assert!(matches!(writer.shutdown(), WriteAction::Complete));
}

#[test]
fn only_an_upload_in_flight_is_aborted() {
    let mut writer = ObjectStoreWrite::new();
    assert!(matches!(writer.abort(), WriteAction::Done));
    writer.upload_started();
    assert!(matches!(writer.abort(), WriteAction::Abort));
    writer.persisted(PutResult { e_tag: None, version: None });
    assert!(matches!(writer.abort(), WriteAction::Done));
}

#[test]
fn every_whole_part_is_drained() {
    let mut store = Store::default();
    let mut writer = ObjectStoreWrite::new();
    store.write(&mut writer, &vec![5u8; 2 * CHUNK_SIZE]);
    assert_eq!(store.counts(), (0, 0, 0));
    store.flush(&mut writer);
    assert_eq!(store.counts(), (0, 1, 2));
    assert!(store.parts.iter().all(|p| p.len() == CHUNK_SIZE));
    assert_eq!(writer.buffered_len(), 0);
    store.shutdown(&mut writer);
    assert_eq!(store.counts(), (0, 1, 2));
    assert_eq!(store.completed, 1);
    assert_eq!(store.object.unwrap().len(), 2 * CHUNK_SIZE);
}
