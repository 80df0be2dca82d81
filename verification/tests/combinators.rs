use std::sync::atomic::{AtomicUsize, Ordering};
use std::sync::Arc;

use async_io_core::{
    close, copy_into, flush, read, read_exact, write_all, AsyncReadExt, AsyncWriteExt,
    CopyAction, CopyProgress, CoreAsyncRead, CoreAsyncWrite, MinimalIoError, ReadExactProgress,
    ReadToEnd, Step, WriteAllProgress,
};
use futures_core::task::{Context, LocalMap, Wake, Waker};
use futures_core::{Async, Poll};

struct CountingWake {
    wakes: AtomicUsize,
}

impl Wake for CountingWake {
    fn wake(arc_self: &Arc<Self>) {
        arc_self.wakes.fetch_add(1, Ordering::SeqCst);
    }
}

fn counting_wake() -> Arc<CountingWake> {
    Arc::new(CountingWake { wakes: AtomicUsize::new(0) })
}

/// Yields `data` in chunks of at most `chunk` bytes, then zero bytes for
/// ever. Before the first chunk it is pending `pendings` times, and each time
/// it wakes the task.
struct ChunkReader {
    data: Vec<u8>,
    pos: usize,
    chunk: usize,
    pendings: usize,
    calls: usize,
}

impl ChunkReader {
    fn new(data: Vec<u8>, chunk: usize) -> Self {
        ChunkReader { data, pos: 0, chunk, pendings: 0, calls: 0 }
    }

    fn pending_first(mut self, pendings: usize) -> Self {
        self.pendings = pendings;
        self
    }
}

impl CoreAsyncRead for ChunkReader {
    type Error = MinimalIoError;

    fn poll_read_core(&mut self, cx: &mut Context, buf: &mut [u8]) -> Poll<usize, MinimalIoError> {
        self.calls += 1;
        if self.pendings > 0 {
            self.pendings -= 1;
            cx.waker().wake();
            return Ok(Async::Pending);
        }
        let n = buf.len().min(self.chunk).min(self.data.len() - self.pos);
        buf[..n].copy_from_slice(&self.data[self.pos..self.pos + n]);
        self.pos += n;
        Ok(Async::Ready(n))
    }
}

/// Fails every read.
struct BrokenReader;

impl CoreAsyncRead for BrokenReader {
    type Error = MinimalIoError;

    fn poll_read_core(&mut self, _: &mut Context, _: &mut [u8]) -> Poll<usize, MinimalIoError> {
        Err(MinimalIoError::UnexpectedEof("broken"))
    }
}

/// Records what it is given, at most `max` bytes a call.
struct RecordingWriter {
    written: Vec<u8>,
    max: usize,
    pendings: usize,
    flushes: usize,
    closes: usize,
}

impl RecordingWriter {
    fn new(max: usize) -> Self {
        RecordingWriter { written: Vec::new(), max, pendings: 0, flushes: 0, closes: 0 }
    }

    fn pending_first(mut self, pendings: usize) -> Self {
        self.pendings = pendings;
        self
    }
}

impl CoreAsyncWrite for RecordingWriter {
    type Error = MinimalIoError;

    fn poll_write_core(&mut self, cx: &mut Context, buf: &[u8]) -> Poll<usize, MinimalIoError> {
        if self.pendings > 0 {
            self.pendings -= 1;
            cx.waker().wake();
            return Ok(Async::Pending);
        }
        let n = buf.len().min(self.max);
        self.written.extend_from_slice(&buf[..n]);
        Ok(Async::Ready(n))
    }

    fn poll_flush_core(&mut self, cx: &mut Context) -> Poll<(), MinimalIoError> {
        if self.pendings > 0 {
            self.pendings -= 1;
            cx.waker().wake();
            return Ok(Async::Pending);
        }
        self.flushes += 1;
        Ok(Async::Ready(()))
    }

    fn poll_close_core(&mut self, cx: &mut Context) -> Poll<(), MinimalIoError> {
        if self.pendings > 0 {
            self.pendings -= 1;
            cx.waker().wake();
            return Ok(Async::Pending);
        }
        self.closes += 1;
        Ok(Async::Ready(()))
    }
}

fn known_bytes(len: usize) -> Vec<u8> {
    (0..len).map(|i| (i * 31 % 251) as u8).collect()
}

fn copy_through(buffer_size: usize) {
    let data = known_bytes(5000);
    let wake = counting_wake();
    let waker = Waker::from(wake.clone());
    let mut map = LocalMap::new();
    let mut cx = Context::without_spawn(&mut map, &waker);
    let mut copy = copy_into(
        ChunkReader::new(data.clone(), 64),
        RecordingWriter::new(usize::MAX),
        vec![0u8; buffer_size],
    );
    assert!(copy.is_active());
    match copy.poll(&mut cx) {
        Ok(Async::Ready((amt, reader, writer, buf))) => {
            assert_eq!(amt, 5000);
            assert_eq!(writer.written, data);
            assert_eq!(writer.flushes, 1);
            assert_eq!(reader.pos, 5000);
            assert_eq!(buf.len(), buffer_size);
        }
        _ => panic!("the copy did not finish"),
    }
    assert!(!copy.is_active());
    assert_eq!(wake.wakes.load(Ordering::SeqCst), 0);
}

#[test]
fn copy_with_buffer_of_one_byte() {
    copy_through(1);
}

#[test]
fn copy_with_buffer_of_64_bytes() {
    copy_through(64);
}

#[test]
fn copy_with_buffer_of_4096_bytes() {
    copy_through(4096);
}

#[test]
fn copy_with_buffer_as_long_as_the_stream() {
    copy_through(5000);
}

#[test]
fn copy_to_a_writer_that_takes_three_bytes_a_call() {
    let data = known_bytes(1000);
    let waker = Waker::from(counting_wake());
    let mut map = LocalMap::new();
    let mut cx = Context::without_spawn(&mut map, &waker);
    let mut copy =
        copy_into(ChunkReader::new(data.clone(), 64), RecordingWriter::new(3), vec![0u8; 16]);
    match copy.poll(&mut cx) {
        Ok(Async::Ready((amt, _, writer, _))) => {
            assert_eq!(amt, 1000);
            assert_eq!(writer.written, data);
        }
        _ => panic!("the copy did not finish"),
    }
}

#[test]
fn copy_of_an_empty_stream_flushes_and_counts_zero() {
    let waker = Waker::from(counting_wake());
    let mut map = LocalMap::new();
    let mut cx = Context::without_spawn(&mut map, &waker);
    let mut copy =
        copy_into(ChunkReader::new(Vec::new(), 64), RecordingWriter::new(8), vec![0u8; 8]);
    match copy.poll(&mut cx) {
        Ok(Async::Ready((amt, reader, writer, _))) => {
            assert_eq!(amt, 0);
            assert_eq!(reader.calls, 1);
            assert!(writer.written.is_empty());
            assert_eq!(writer.flushes, 1);
        }
        _ => panic!("the copy did not finish"),
    }
}

#[test]
fn copy_through_the_extension_method() {
    let data = known_bytes(5000);
    let waker = Waker::from(counting_wake());
    let mut map = LocalMap::new();
    let mut cx = Context::without_spawn(&mut map, &waker);
    let mut copy = ChunkReader::new(data.clone(), 4096).copy_into(RecordingWriter::new(usize::MAX));
    match copy.poll(&mut cx) {
        Ok(Async::Ready((amt, reader, writer, buf))) => {
            assert_eq!(amt, 5000);
            assert_eq!(writer.written, data);
            assert_eq!(buf.len(), 2048);
            // 2048 + 2048 + 904 bytes, and the read that finds the end
            assert_eq!(reader.calls, 4);
        }
        _ => panic!("the copy did not finish"),
    }
}

#[test]
fn copy_fails_at_once_when_the_writer_takes_nothing() {
    let waker = Waker::from(counting_wake());
    let mut map = LocalMap::new();
    let mut cx = Context::without_spawn(&mut map, &waker);
    let mut copy =
        copy_into(ChunkReader::new(known_bytes(100), 64), RecordingWriter::new(0), vec![0u8; 32]);
    match copy.poll(&mut cx) {
        Err(MinimalIoError::WriteZero(msg)) => assert_eq!(msg, "write zero byte into writer"),
        _ => panic!("the copy did not fail with a zero write"),
    }
    assert!(!copy.is_active());
}

#[test]
fn copy_passes_on_the_error_of_the_reader() {
    let waker = Waker::from(counting_wake());
    let mut map = LocalMap::new();
    let mut cx = Context::without_spawn(&mut map, &waker);
    let mut copy = copy_into(BrokenReader, RecordingWriter::new(8), vec![0u8; 32]);
    match copy.poll(&mut cx) {
        Err(MinimalIoError::UnexpectedEof(msg)) => assert_eq!(msg, "broken"),
        _ => panic!("the copy did not fail with the error of the reader"),
    }
    assert!(!copy.is_active());
}

#[test]
fn copy_finishes_one_poll_after_the_reader_was_pending_once() {
    let data = known_bytes(300);
    let wake = counting_wake();
    let waker = Waker::from(wake.clone());
    let mut map = LocalMap::new();
    let mut cx = Context::without_spawn(&mut map, &waker);
    let mut copy = copy_into(
        ChunkReader::new(data.clone(), 64).pending_first(1),
        RecordingWriter::new(usize::MAX),
        vec![0u8; 64],
    );
    assert!(matches!(copy.poll(&mut cx), Ok(Async::Pending)));
    assert!(copy.is_active());
    assert_eq!(wake.wakes.load(Ordering::SeqCst), 1);
    match copy.poll(&mut cx) {
        Ok(Async::Ready((amt, _, writer, _))) => {
            assert_eq!(amt, 300);
            assert_eq!(writer.written, data);
        }
        _ => panic!("the copy did not finish at the second poll"),
    }
    assert_eq!(wake.wakes.load(Ordering::SeqCst), 1);
}

#[test]
fn copy_keeps_its_place_while_the_writer_is_pending() {
    let data = known_bytes(300);
    let waker = Waker::from(counting_wake());
    let mut map = LocalMap::new();
    let mut cx = Context::without_spawn(&mut map, &waker);
    let mut copy = copy_into(
        ChunkReader::new(data.clone(), 64),
        RecordingWriter::new(10).pending_first(2),
        vec![0u8; 64],
    );
    assert!(matches!(copy.poll(&mut cx), Ok(Async::Pending)));
    assert!(matches!(copy.poll(&mut cx), Ok(Async::Pending)));
    match copy.poll(&mut cx) {
        Ok(Async::Ready((amt, reader, writer, _))) => {
            assert_eq!(amt, 300);
            assert_eq!(writer.written, data);
            // 64 * 4 + 44 bytes, and the read that finds the end
            assert_eq!(reader.calls, 6);
        }
        _ => panic!("the copy did not finish at the third poll"),
    }
}

#[test]
fn copy_progress_orders_write_before_read_before_flush() {
    let fresh = CopyProgress::new();
    assert_eq!(fresh.next_action(), CopyAction::Read);
    let buffered = CopyProgress { read_done: false, pos: 2, cap: 5, amt: 2 };
    assert_eq!(buffered.next_action(), CopyAction::Write);
    let last = CopyProgress { read_done: true, pos: 2, cap: 5, amt: 2 };
    assert_eq!(last.next_action(), CopyAction::Write);
    let drained = CopyProgress { read_done: true, pos: 5, cap: 5, amt: 5 };
    assert_eq!(drained.next_action(), CopyAction::Flush);
}

#[test]
fn copy_progress_after_read() {
    let mut p = CopyProgress { read_done: false, pos: 7, cap: 7, amt: 7 };
    assert!(matches!(p.after_read::<MinimalIoError>(Ok(Async::Ready(4))), Step::Continue));
    assert_eq!((p.read_done, p.pos, p.cap, p.amt), (false, 0, 4, 7));

    let mut p = CopyProgress { read_done: false, pos: 7, cap: 7, amt: 7 };
    assert!(matches!(p.after_read::<MinimalIoError>(Ok(Async::Ready(0))), Step::Continue));
    assert_eq!((p.read_done, p.pos, p.cap, p.amt), (true, 7, 7, 7));

    let mut p = CopyProgress { read_done: false, pos: 7, cap: 7, amt: 7 };
    assert!(matches!(p.after_read::<MinimalIoError>(Ok(Async::Pending)), Step::Suspend));
    assert_eq!((p.read_done, p.pos, p.cap, p.amt), (false, 7, 7, 7));

    let mut p = CopyProgress { read_done: false, pos: 7, cap: 7, amt: 7 };
    assert!(matches!(
        p.after_read(Err(MinimalIoError::UnexpectedEof("gone"))),
        Step::Fail(MinimalIoError::UnexpectedEof("gone"))
    ));
    assert_eq!((p.read_done, p.pos, p.cap, p.amt), (false, 7, 7, 7));
}

#[test]
fn copy_progress_after_write() {
    let mut p = CopyProgress { read_done: false, pos: 2, cap: 9, amt: 40 };
    assert!(matches!(p.after_write::<MinimalIoError>(Ok(Async::Ready(3))), Step::Continue));
    assert_eq!((p.read_done, p.pos, p.cap, p.amt), (false, 5, 9, 43));

    let mut p = CopyProgress { read_done: false, pos: 2, cap: 9, amt: 40 };
    assert!(matches!(
        p.after_write::<MinimalIoError>(Ok(Async::Ready(0))),
        Step::Fail(MinimalIoError::WriteZero("write zero byte into writer"))
    ));
    assert_eq!((p.read_done, p.pos, p.cap, p.amt), (false, 2, 9, 40));

    let mut p = CopyProgress { read_done: false, pos: 2, cap: 9, amt: 40 };
    assert!(matches!(p.after_write::<MinimalIoError>(Ok(Async::Pending)), Step::Suspend));
    assert_eq!((p.read_done, p.pos, p.cap, p.amt), (false, 2, 9, 40));

    let mut p = CopyProgress { read_done: false, pos: 2, cap: 9, amt: 40 };
    assert!(matches!(
        p.after_write(Err(MinimalIoError::UnexpectedEof("gone"))),
        Step::Fail(MinimalIoError::UnexpectedEof("gone"))
    ));
}

#[test]
fn copy_progress_counts_modulo_two_to_the_64() {
    let mut p = CopyProgress { read_done: false, pos: 0, cap: 9, amt: u64::MAX - 1 };
    assert!(matches!(p.after_write::<MinimalIoError>(Ok(Async::Ready(5))), Step::Continue));
    assert_eq!(p.amt, 3);
    assert_eq!(p.pos, 5);
}

#[test]
fn step_of_a_flush_or_close() {
    assert!(matches!(Step::<MinimalIoError>::of_unit(Ok(Async::Ready(()))), Step::Continue));
    assert!(matches!(Step::<MinimalIoError>::of_unit(Ok(Async::Pending)), Step::Suspend));
    assert!(matches!(
        Step::of_unit(Err(MinimalIoError::WriteZero("w"))),
        Step::Fail(MinimalIoError::WriteZero("w"))
    ));
}

#[test]
fn read_exact_fills_the_buffer_from_small_chunks() {
    let waker = Waker::from(counting_wake());
    let mut map = LocalMap::new();
    let mut cx = Context::without_spawn(&mut map, &waker);
    let mut op = read_exact(ChunkReader::new(known_bytes(100), 3), vec![0u8; 10]);
    match op.poll(&mut cx) {
        Ok(Async::Ready((reader, buf))) => {
            assert_eq!(buf, known_bytes(10));
            assert_eq!(reader.pos, 10);
            assert_eq!(reader.calls, 4);
        }
        _ => panic!("the read did not finish"),
    }
    assert!(!op.is_active());
}

#[test]
fn read_exact_fails_on_a_stream_of_three_bytes_for_a_buffer_of_ten() {
    let waker = Waker::from(counting_wake());
    let mut map = LocalMap::new();
    let mut cx = Context::without_spawn(&mut map, &waker);
    let mut op = read_exact(ChunkReader::new(vec![1, 2, 3], 64), vec![0u8; 10]);
    match op.poll(&mut cx) {
        Err(MinimalIoError::UnexpectedEof(msg)) => assert_eq!(msg, "early eof"),
        _ => panic!("the read did not fail with an early end"),
    }
    assert!(!op.is_active());
}

#[test]
fn read_exact_of_an_empty_buffer_asks_nobody() {
    let waker = Waker::from(counting_wake());
    let mut map = LocalMap::new();
    let mut cx = Context::without_spawn(&mut map, &waker);
    let mut op = ChunkReader::new(vec![1, 2, 3], 64).read_exact(Vec::new());
    match op.poll(&mut cx) {
        Ok(Async::Ready((reader, buf))) => {
            assert!(buf.is_empty());
            assert_eq!(reader.calls, 0);
        }
        _ => panic!("the read did not finish"),
    }
}

#[test]
fn read_exact_goes_on_where_it_stopped() {
    let wake = counting_wake();
    let waker = Waker::from(wake.clone());
    let mut map = LocalMap::new();
    let mut cx = Context::without_spawn(&mut map, &waker);
    let mut op = read_exact(ChunkReader::new(known_bytes(20), 4).pending_first(1), vec![9u8; 10]);
    assert!(matches!(op.poll(&mut cx), Ok(Async::Pending)));
    assert!(op.is_active());
    assert_eq!(wake.wakes.load(Ordering::SeqCst), 1);
    match op.poll(&mut cx) {
        Ok(Async::Ready((_, buf))) => assert_eq!(buf, known_bytes(10)),
        _ => panic!("the read did not finish at the second poll"),
    }
}

#[test]
fn read_exact_progress_after_read() {
    let mut p = ReadExactProgress::new(10);
    assert_eq!((p.pos, p.len), (0, 10));
    assert!(!p.is_full());
    assert!(matches!(p.after_read::<MinimalIoError>(Ok(Async::Ready(3))), Step::Continue));
    assert_eq!((p.pos, p.len), (3, 10));
    assert!(matches!(p.after_read::<MinimalIoError>(Ok(Async::Pending)), Step::Suspend));
    assert_eq!((p.pos, p.len), (3, 10));
    assert!(matches!(
        p.after_read::<MinimalIoError>(Ok(Async::Ready(0))),
        Step::Fail(MinimalIoError::UnexpectedEof("early eof"))
    ));
    assert_eq!((p.pos, p.len), (3, 10));
    assert!(matches!(
        p.after_read(Err(MinimalIoError::WriteZero("other"))),
        Step::Fail(MinimalIoError::WriteZero("other"))
    ));
    assert!(matches!(p.after_read::<MinimalIoError>(Ok(Async::Ready(7))), Step::Continue));
    assert!(p.is_full());
}

#[test]
fn read_takes_what_is_at_hand_and_stops() {
    let waker = Waker::from(counting_wake());
    let mut map = LocalMap::new();
    let mut cx = Context::without_spawn(&mut map, &waker);
    let mut op = read(ChunkReader::new(known_bytes(100), 3), vec![0u8; 10]);
    match op.poll(&mut cx) {
        Ok(Async::Ready((reader, buf, n))) => {
            assert_eq!(n, 3);
            assert_eq!(&buf[..3], &known_bytes(3)[..]);
            assert_eq!(&buf[3..], &[0u8; 7][..]);
            assert_eq!(reader.calls, 1);
        }
        _ => panic!("the read did not finish"),
    }
    assert!(!op.is_active());
}

#[test]
fn read_waits_for_a_pending_reader_and_fails_with_a_broken_one() {
    let waker = Waker::from(counting_wake());
    let mut map = LocalMap::new();
    let mut cx = Context::without_spawn(&mut map, &waker);
    let mut op = ChunkReader::new(vec![5, 6], 8).pending_first(1).read(vec![0u8; 4]);
    assert!(matches!(op.poll(&mut cx), Ok(Async::Pending)));
    assert!(op.is_active());
    match op.poll(&mut cx) {
        Ok(Async::Ready((_, buf, n))) => {
            assert_eq!(n, 2);
            assert_eq!(buf, vec![5, 6, 0, 0]);
        }
        _ => panic!("the read did not finish at the second poll"),
    }

    let mut op = read(BrokenReader, vec![0u8; 4]);
    assert!(matches!(op.poll(&mut cx), Err(MinimalIoError::UnexpectedEof("broken"))));
    assert!(!op.is_active());
}

#[test]
fn read_to_end_appends_the_whole_stream() {
    let waker = Waker::from(counting_wake());
    let mut map = LocalMap::new();
    let mut cx = Context::without_spawn(&mut map, &waker);
    let mut reader = ChunkReader::new(known_bytes(5000), 64);
    let mut out = vec![0xEEu8; 3];
    {
        let mut op = ReadToEnd::new(&mut reader, &mut out);
        assert_eq!(op.start_len, 3);
        assert_eq!(op.initialized, 0);
        assert_eq!(op.scratch.len(), 32);
        assert!(matches!(op.poll(&mut cx), Ok(Async::Ready(5000))));
        assert!(op.done);
    }
    assert_eq!(out.len(), 5003);
    assert_eq!(&out[..3], &[0xEEu8; 3][..]);
    assert_eq!(&out[3..], &known_bytes(5000)[..]);
}

#[test]
fn read_to_end_of_an_empty_stream_appends_nothing() {
    let waker = Waker::from(counting_wake());
    let mut map = LocalMap::new();
    let mut cx = Context::without_spawn(&mut map, &waker);
    let mut reader = ChunkReader::new(Vec::new(), 64);
    let mut out = vec![1u8, 2];
    assert!(matches!(reader.read_to_end(&mut out).poll(&mut cx), Ok(Async::Ready(0))));
    assert_eq!(out, vec![1u8, 2]);
}

#[test]
fn read_to_end_leaves_only_data_in_the_vector_while_it_waits() {
    let wake = counting_wake();
    let waker = Waker::from(wake.clone());
    let mut map = LocalMap::new();
    let mut cx = Context::without_spawn(&mut map, &waker);
    let mut reader = ChunkReader::new(known_bytes(40), 64).pending_first(1);
    let mut out = Vec::new();
    {
        let mut op = ReadToEnd::new(&mut reader, &mut out);
        assert!(matches!(op.poll(&mut cx), Ok(Async::Pending)));
        assert!(!op.done);
        assert!(op.buf.is_empty());
        // the count of initialized scratch bytes is kept for the next poll
        assert_eq!(op.initialized, 32);
        assert!(matches!(op.poll(&mut cx), Ok(Async::Ready(40))));
        assert!(op.done);
    }
    assert_eq!(out, known_bytes(40));
    assert_eq!(wake.wakes.load(Ordering::SeqCst), 1);
}

#[test]
fn read_to_end_keeps_what_was_read_before_an_error() {
    struct OnceThenBroken {
        first: bool,
    }
    impl CoreAsyncRead for OnceThenBroken {
        type Error = MinimalIoError;

        fn poll_read_core(&mut self, _: &mut Context, buf: &mut [u8]) -> Poll<usize, MinimalIoError> {
            if self.first {
                self.first = false;
                buf[0] = 42;
                buf[1] = 43;
                Ok(Async::Ready(2))
            } else {
                Err(MinimalIoError::UnexpectedEof("broken"))
            }
        }
    }
    let waker = Waker::from(counting_wake());
    let mut map = LocalMap::new();
    let mut cx = Context::without_spawn(&mut map, &waker);
    let mut reader = OnceThenBroken { first: true };
    let mut out = vec![7u8];
    {
        let mut op = ReadToEnd::new(&mut reader, &mut out);
        assert!(matches!(op.poll(&mut cx), Err(MinimalIoError::UnexpectedEof("broken"))));
        assert!(op.done);
    }
    assert_eq!(out, vec![7u8, 42, 43]);
}

#[test]
fn flush_hands_the_writer_back() {
    let waker = Waker::from(counting_wake());
    let mut map = LocalMap::new();
    let mut cx = Context::without_spawn(&mut map, &waker);
    let mut op = flush(RecordingWriter::new(8).pending_first(1));
    assert!(op.is_active());
    assert!(matches!(op.poll(&mut cx), Ok(Async::Pending)));
    assert!(op.is_active());
    match op.poll(&mut cx) {
        Ok(Async::Ready(writer)) => {
            assert_eq!(writer.flushes, 1);
            assert_eq!(writer.closes, 0);
        }
        _ => panic!("the flush did not finish at the second poll"),
    }
    assert!(!op.is_active());
}

#[test]
fn close_hands_the_writer_back() {
    let waker = Waker::from(counting_wake());
    let mut map = LocalMap::new();
    let mut cx = Context::without_spawn(&mut map, &waker);
    let mut op = close(RecordingWriter::new(8).pending_first(1));
    assert!(matches!(op.poll(&mut cx), Ok(Async::Pending)));
    assert!(op.is_active());
    match op.poll(&mut cx) {
        Ok(Async::Ready(writer)) => {
            assert_eq!(writer.flushes, 0);
            assert_eq!(writer.closes, 1);
        }
        _ => panic!("the close did not finish at the second poll"),
    }
    assert!(!op.is_active());
}

struct BrokenWriter;

impl CoreAsyncWrite for BrokenWriter {
    type Error = MinimalIoError;

    fn poll_write_core(&mut self, _: &mut Context, _: &[u8]) -> Poll<usize, MinimalIoError> {
        Err(MinimalIoError::WriteZero("broken write"))
    }

    fn poll_flush_core(&mut self, _: &mut Context) -> Poll<(), MinimalIoError> {
        Err(MinimalIoError::WriteZero("broken flush"))
    }

    fn poll_close_core(&mut self, _: &mut Context) -> Poll<(), MinimalIoError> {
        Err(MinimalIoError::WriteZero("broken close"))
    }
}

#[test]
fn flush_and_close_end_with_the_error_of_the_writer() {
    let waker = Waker::from(counting_wake());
    let mut map = LocalMap::new();
    let mut cx = Context::without_spawn(&mut map, &waker);
    let mut op = BrokenWriter.flush();
    assert!(matches!(op.poll(&mut cx), Err(MinimalIoError::WriteZero("broken flush"))));
    assert!(!op.is_active());
    let mut op = BrokenWriter.close();
    assert!(matches!(op.poll(&mut cx), Err(MinimalIoError::WriteZero("broken close"))));
    assert!(!op.is_active());
}

#[test]
fn write_all_writes_every_byte_once() {
    let data = known_bytes(100);
    let waker = Waker::from(counting_wake());
    let mut map = LocalMap::new();
    let mut cx = Context::without_spawn(&mut map, &waker);
    let mut op = write_all(RecordingWriter::new(7).pending_first(1), data.clone());
    assert!(matches!(op.poll(&mut cx), Ok(Async::Pending)));
    assert!(op.is_active());
    match op.poll(&mut cx) {
        Ok(Async::Ready((writer, buf))) => {
            assert_eq!(writer.written, data);
            assert_eq!(buf, data);
            assert_eq!(writer.flushes, 0);
        }
        _ => panic!("the write did not finish at the second poll"),
    }
    assert!(!op.is_active());
}

#[test]
fn write_all_fails_at_once_when_the_writer_takes_nothing() {
    let waker = Waker::from(counting_wake());
    let mut map = LocalMap::new();
    let mut cx = Context::without_spawn(&mut map, &waker);
    let mut op = RecordingWriter::new(0).write_all(vec![1u8, 2, 3]);
    match op.poll(&mut cx) {
        Err(MinimalIoError::WriteZero(msg)) => assert_eq!(msg, "zero-length write"),
        _ => panic!("the write did not fail with a zero write"),
    }
    assert!(!op.is_active());
}

#[test]
fn write_all_of_nothing_asks_nobody() {
    let waker = Waker::from(counting_wake());
    let mut map = LocalMap::new();
    let mut cx = Context::without_spawn(&mut map, &waker);
    let mut op = write_all(BrokenWriter, Vec::new());
    assert!(matches!(op.poll(&mut cx), Ok(Async::Ready((_, _)))));
}

#[test]
fn write_all_progress_after_write() {
    let mut p = WriteAllProgress::new(6);
    assert!(!p.is_done());
    assert!(matches!(p.after_write::<MinimalIoError>(Ok(Async::Ready(4))), Step::Continue));
    assert_eq!((p.pos, p.len), (4, 6));
    assert!(matches!(
        p.after_write::<MinimalIoError>(Ok(Async::Ready(0))),
        Step::Fail(MinimalIoError::WriteZero("zero-length write"))
    ));
    assert!(matches!(p.after_write::<MinimalIoError>(Ok(Async::Pending)), Step::Suspend));
    assert_eq!((p.pos, p.len), (4, 6));
    assert!(matches!(p.after_write::<MinimalIoError>(Ok(Async::Ready(2))), Step::Continue));
    assert!(p.is_done());
}
