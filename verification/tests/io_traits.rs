use std::sync::Arc;

use async_io_core::io::{first_segment, first_segment_mut};
use async_io_core::{
    poll_read_buf, read_to_end_internal, read_to_end_step, ReadToEndStep, CoreAsyncRead, CoreAsyncWrite, CoreIoError, Initializer,
    MinimalIoError, ReadBuf,
};
use futures_core::task::{Context, LocalMap, Wake, Waker};
use futures_core::{Async, Poll};
use iovec::IoVec;

struct NoWake;

impl Wake for NoWake {
    fn wake(_: &Arc<Self>) {}
}

fn waker() -> Waker {
    Waker::from(Arc::new(NoWake))
}

/// Hands out the bytes 1, 2, 3, ... and remembers what the buffers it was
/// given looked like.
struct Counter {
    next: u8,
    left: usize,
    at_most: usize,
    saw_only_zeroes: bool,
    seen_len: Vec<usize>,
    zeroing: bool,
}

impl Counter {
    fn new(left: usize, at_most: usize, zeroing: bool) -> Self {
        Counter { next: 1, left, at_most, saw_only_zeroes: true, seen_len: Vec::new(), zeroing }
    }
}

impl CoreAsyncRead for Counter {
    type Error = MinimalIoError;

    fn initializer_core(&self) -> Initializer {
        if self.zeroing {
            Initializer::zeroing()
        } else {
            Initializer::nop()
        }
    }

    fn poll_read_core(&mut self, _: &mut Context, buf: &mut [u8]) -> Poll<usize, MinimalIoError> {
        self.seen_len.push(buf.len());
        if buf.iter().any(|b| *b != 0) {
            self.saw_only_zeroes = false;
        }
        let n = buf.len().min(self.at_most).min(self.left);
        for b in buf[..n].iter_mut() {
            *b = self.next;
            self.next = self.next.wrapping_add(1);
        }
        self.left -= n;
        Ok(Async::Ready(n))
    }
}

/// A reader that keeps the default answers of the trait.
struct Plain;

impl CoreAsyncRead for Plain {
    type Error = MinimalIoError;

    fn poll_read_core(&mut self, _: &mut Context, buf: &mut [u8]) -> Poll<usize, MinimalIoError> {
        for b in buf.iter_mut() {
            *b = 9;
        }
        Ok(Async::Ready(buf.len()))
    }
}

struct Sponge {
    taken: Vec<u8>,
}

impl CoreAsyncWrite for Sponge {
    type Error = MinimalIoError;

    fn poll_write_core(&mut self, _: &mut Context, buf: &[u8]) -> Poll<usize, MinimalIoError> {
        self.taken.extend_from_slice(buf);
        Ok(Async::Ready(buf.len()))
    }

    fn poll_flush_core(&mut self, _: &mut Context) -> Poll<(), MinimalIoError> {
        Ok(Async::Ready(()))
    }

    fn poll_close_core(&mut self, _: &mut Context) -> Poll<(), MinimalIoError> {
        Ok(Async::Ready(()))
    }
}

#[test]
fn minimal_error_constructors() {
    assert!(matches!(MinimalIoError::write_zero("w"), MinimalIoError::WriteZero("w")));
    assert!(matches!(MinimalIoError::unexpected_eof("e"), MinimalIoError::UnexpectedEof("e")));
}

#[test]
fn initializer_zeroes_or_leaves_alone() {
    let zeroing = Initializer::zeroing();
    assert!(zeroing.should_initialize());
    let mut buf = [3u8, 1, 4, 1, 5];
    zeroing.initialize(&mut buf);
    assert_eq!(buf, [0u8; 5]);

    let nop = Initializer::nop();
    assert!(!nop.should_initialize());
    let mut buf = [3u8, 1, 4, 1, 5];
    nop.initialize(&mut buf);
    assert_eq!(buf, [3u8, 1, 4, 1, 5]);

    let mut empty: [u8; 0] = [];
    zeroing.initialize(&mut empty);
}

#[test]
fn readers_ask_for_zeroed_buffers_unless_they_say_otherwise() {
    assert!(Plain.initializer_core().should_initialize());
    let slice: &[u8] = &[1, 2, 3];
    assert!(!slice.initializer_core().should_initialize());
    let mut plain = Plain;
    let by_ref = &mut plain;
    assert!(by_ref.initializer_core().should_initialize());
}

#[test]
fn slice_reader_moves_what_fits_and_keeps_the_rest() {
    let waker = waker();
    let mut map = LocalMap::new();
    let mut cx = Context::without_spawn(&mut map, &waker);
    let mut src: &[u8] = &[1, 2, 3, 4, 5];
    let mut buf = [0xAAu8; 3];
    assert!(matches!(src.poll_read_core(&mut cx, &mut buf), Ok(Async::Ready(3))));
    assert_eq!(buf, [1, 2, 3]);
    assert_eq!(src, &[4, 5][..]);

    let mut buf = [0xAAu8; 4];
    assert!(matches!(src.poll_read_core(&mut cx, &mut buf), Ok(Async::Ready(2))));
    assert_eq!(buf, [4, 5, 0xAA, 0xAA]);
    assert!(src.is_empty());

    assert!(matches!(src.poll_read_core(&mut cx, &mut buf), Ok(Async::Ready(0))));
    assert_eq!(buf, [4, 5, 0xAA, 0xAA]);

    let mut src: &[u8] = &[7];
    let mut none: [u8; 0] = [];
    assert!(matches!(src.poll_read_core(&mut cx, &mut none), Ok(Async::Ready(0))));
    assert_eq!(src, &[7][..]);
}

#[test]
fn a_borrowed_reader_reads_like_the_reader() {
    let waker = waker();
    let mut map = LocalMap::new();
    let mut cx = Context::without_spawn(&mut map, &waker);
    let mut counter = Counter::new(5, 2, true);
    let mut buf = [0u8; 4];
    {
        let mut by_ref = &mut counter;
        assert!(matches!(by_ref.poll_read_core(&mut cx, &mut buf), Ok(Async::Ready(2))));
        let mut store = [0u8; 3];
        let mut segs = [IoVec::from_bytes_mut(&mut store).unwrap()];
        assert!(matches!(by_ref.poll_vectored_read_core(&mut cx, &mut segs), Ok(Async::Ready(2))));
        assert_eq!(store, [3, 4, 0]);
    }
    assert_eq!(buf, [1, 2, 0, 0]);
    assert_eq!(counter.left, 1);
}

#[test]
fn vectored_read_uses_the_first_segment_only() {
    let waker = waker();
    let mut map = LocalMap::new();
    let mut cx = Context::without_spawn(&mut map, &waker);
    let mut counter = Counter::new(100, 100, true);
    let mut a = [0u8; 3];
    let mut b = [0u8; 4];
    {
        let mut segs = [IoVec::from_bytes_mut(&mut a).unwrap(), IoVec::from_bytes_mut(&mut b).unwrap()];
        assert!(matches!(counter.poll_vectored_read_core(&mut cx, &mut segs), Ok(Async::Ready(3))));
    }
    assert_eq!(a, [1, 2, 3]);
    assert_eq!(b, [0u8; 4]);
    assert_eq!(counter.seen_len, vec![3]);
}

#[test]
fn vectored_read_with_no_segment_is_ready_with_zero() {
    let waker = waker();
    let mut map = LocalMap::new();
    let mut cx = Context::without_spawn(&mut map, &waker);
    let mut counter = Counter::new(100, 100, true);
    let mut segs: [&mut IoVec; 0] = [];
    assert!(matches!(counter.poll_vectored_read_core(&mut cx, &mut segs), Ok(Async::Ready(0))));
    assert!(counter.seen_len.is_empty());
}

#[test]
fn vectored_write_uses_the_first_segment_only() {
    let waker = waker();
    let mut map = LocalMap::new();
    let mut cx = Context::without_spawn(&mut map, &waker);
    let mut sponge = Sponge { taken: Vec::new() };
    let a = [1u8, 2, 3];
    let b = [4u8, 5];
    let segs = [IoVec::from_bytes(&a).unwrap(), IoVec::from_bytes(&b).unwrap()];
    assert!(matches!(sponge.poll_vectored_write_core(&mut cx, &segs), Ok(Async::Ready(3))));
    assert_eq!(sponge.taken, vec![1, 2, 3]);

    let none: [&IoVec; 0] = [];
    assert!(matches!(sponge.poll_vectored_write_core(&mut cx, &none), Ok(Async::Ready(0))));
    assert_eq!(sponge.taken, vec![1, 2, 3]);
}

#[test]
fn first_segment_hands_out_the_bytes_of_the_segment() {
    let a = [10u8, 20, 30];
    let b = [40u8];
    let segs = [IoVec::from_bytes(&a).unwrap(), IoVec::from_bytes(&b).unwrap()];
    assert_eq!(first_segment(&segs), Some(&[10u8, 20, 30][..]));
    let none: [&IoVec; 0] = [];
    assert_eq!(first_segment(&none), None);
}

#[test]
fn first_segment_mut_writes_through_to_the_segment() {
    let mut a = [10u8, 20, 30];
    let mut b = [40u8];
    {
        let mut segs = [IoVec::from_bytes_mut(&mut a).unwrap(), IoVec::from_bytes_mut(&mut b).unwrap()];
        let first = first_segment_mut(&mut segs).unwrap();
        assert_eq!(first, &[10u8, 20, 30][..]);
        first[1] = 21;
    }
    assert_eq!(a, [10, 21, 30]);
    assert_eq!(b, [40]);
    let mut none: [&mut IoVec; 0] = [];
    assert!(first_segment_mut(&mut none).is_none());
}

#[test]
fn poll_read_buf_zeroes_for_a_reader_that_asks_for_it() {
    let waker = waker();
    let mut map = LocalMap::new();
    let mut cx = Context::without_spawn(&mut map, &waker);
    let mut mem = [0xAAu8; 8];
    let mut counter = Counter::new(3, 8, true);
    {
        let mut rb = ReadBuf::uninit(&mut mem);
        assert!(matches!(poll_read_buf(&mut counter, &mut cx, &mut rb), Ok(Async::Ready(()))));
        assert_eq!(rb.filled(), &[1u8, 2, 3][..]);
        assert_eq!(rb.initialized().len(), 8);
        assert_eq!(rb.remaining(), 5);
    }
    assert!(counter.saw_only_zeroes);
    assert_eq!(counter.seen_len, vec![8]);
    assert_eq!(mem, [1, 2, 3, 0, 0, 0, 0, 0]);
}

#[test]
fn poll_read_buf_leaves_memory_alone_for_a_reader_that_needs_no_zeroes() {
    let waker = waker();
    let mut map = LocalMap::new();
    let mut cx = Context::without_spawn(&mut map, &waker);
    let mut mem = [0xAAu8; 8];
    let mut counter = Counter::new(3, 8, false);
    {
        let mut rb = ReadBuf::uninit(&mut mem);
        rb.append(&[0x77]);
        assert!(matches!(poll_read_buf(&mut counter, &mut cx, &mut rb), Ok(Async::Ready(()))));
        assert_eq!(rb.filled(), &[0x77u8, 1, 2, 3][..]);
        assert_eq!(rb.initialized(), &[0x77u8, 1, 2, 3][..]);
    }
    assert!(!counter.saw_only_zeroes);
    assert_eq!(counter.seen_len, vec![7]);
    assert_eq!(mem, [0x77, 1, 2, 3, 0xAA, 0xAA, 0xAA, 0xAA]);
}

#[test]
fn read_to_end_internal_appends_what_was_read_and_nothing_else() {
    let waker = waker();
    let mut map = LocalMap::new();
    let mut cx = Context::without_spawn(&mut map, &waker);
    let mut src: &[u8] = &[1, 2, 3, 4, 5];
    let mut buf = vec![9u8, 9];
    let mut scratch = [0xAAu8; 32];
    let mut initialized = 0usize;
    let r = read_to_end_internal(&mut src, &mut cx, &mut buf, 2, &mut initialized, &mut scratch);
    assert!(matches!(r, Ok(Async::Ready(5))));
    assert_eq!(buf, vec![9u8, 9, 1, 2, 3, 4, 5]);
    assert!(src.is_empty());
    // a slice needs no zeroed buffer: only what it wrote counts as initialized
    assert_eq!(initialized, 5);
    assert_eq!(&scratch[..5], &[1u8, 2, 3, 4, 5][..]);
    assert_eq!(&scratch[5..], &[0xAAu8; 27][..]);
}

#[test]
fn read_to_end_internal_zeroes_scratch_once_and_keeps_the_count() {
    let waker = waker();
    let mut map = LocalMap::new();
    let mut cx = Context::without_spawn(&mut map, &waker);
    let mut counter = Counter::new(40, 100, true);
    let mut buf = vec![0xD0u8, 0xD1];
    let mut scratch = [0xAAu8; 16];
    let mut initialized = 0usize;
    let r = read_to_end_internal(&mut counter, &mut cx, &mut buf, 2, &mut initialized, &mut scratch);
    assert!(matches!(r, Ok(Async::Ready(40))));
    assert_eq!(buf.len(), 42);
    assert_eq!(&buf[..2], &[0xD0u8, 0xD1][..]);
    let expected: Vec<u8> = (1..=40).collect();
    assert_eq!(&buf[2..], &expected[..]);
    assert_eq!(initialized, 16);
    // 16 + 16 + 8 bytes, and the read that finds the end
    assert_eq!(counter.seen_len, vec![16, 16, 16, 16]);
    // only the first read found zeroes: after it the scratch space held data
    assert!(!counter.saw_only_zeroes);

    // a second run with the count kept does not zero again
    let mut counter = Counter::new(3, 100, true);
    let mut scratch = [0x55u8; 16];
    let mut initialized = 16usize;
    let mut buf = Vec::new();
    let r = read_to_end_internal(&mut counter, &mut cx, &mut buf, 0, &mut initialized, &mut scratch);
    assert!(matches!(r, Ok(Async::Ready(3))));
    assert_eq!(buf, vec![1u8, 2, 3]);
    assert_eq!(&scratch[..4], &[1u8, 2, 3, 0x55][..]);
    assert_eq!(initialized, 16);
}

#[test]
fn read_to_end_internal_is_pending_then_goes_on() {
    struct PendingOnce {
        pending: bool,
        data: Vec<u8>,
    }
    impl CoreAsyncRead for PendingOnce {
        type Error = MinimalIoError;

        fn poll_read_core(&mut self, cx: &mut Context, buf: &mut [u8]) -> Poll<usize, MinimalIoError> {
            if self.pending {
                self.pending = false;
                cx.waker().wake();
                return Ok(Async::Pending);
            }
            let n = buf.len().min(self.data.len());
            buf[..n].copy_from_slice(&self.data[..n]);
            self.data.drain(..n);
            Ok(Async::Ready(n))
        }
    }
    let waker = waker();
    let mut map = LocalMap::new();
    let mut cx = Context::without_spawn(&mut map, &waker);
    let mut rd = PendingOnce { pending: true, data: vec![7, 8, 9] };
    let mut buf = vec![1u8];
    let mut scratch = [0u8; 8];
    let mut initialized = 0usize;
    let r = read_to_end_internal(&mut rd, &mut cx, &mut buf, 1, &mut initialized, &mut scratch);
    assert!(matches!(r, Ok(Async::Pending)));
    assert_eq!(buf, vec![1u8]);
    assert_eq!(initialized, 8);
    let r = read_to_end_internal(&mut rd, &mut cx, &mut buf, 1, &mut initialized, &mut scratch);
    assert!(matches!(r, Ok(Async::Ready(3))));
    assert_eq!(buf, vec![1u8, 7, 8, 9]);
}

#[test]
fn read_to_end_step_on_each_outcome() {
    let s = read_to_end_step::<MinimalIoError>(10, 4, 0, Ok(Async::Ready(())), 5, 32);
    assert_eq!((s.0, s.1), (15, 32));
    assert!(matches!(s.2, ReadToEndStep::Continue));
    let s = read_to_end_step::<MinimalIoError>(10, 4, 32, Ok(Async::Ready(())), 0, 32);
    assert_eq!((s.0, s.1), (10, 32));
    assert!(matches!(s.2, ReadToEndStep::Finish(6)));
    let s = read_to_end_step::<MinimalIoError>(10, 4, 8, Ok(Async::Pending), 0, 3);
    assert_eq!((s.0, s.1), (10, 8));
    assert!(matches!(s.2, ReadToEndStep::Suspend));
    let s = read_to_end_step(10, 4, 8, Err(MinimalIoError::UnexpectedEof("gone")), 0, 9);
    assert_eq!((s.0, s.1), (10, 9));
    assert!(matches!(s.2, ReadToEndStep::Fail(MinimalIoError::UnexpectedEof("gone"))));
}
