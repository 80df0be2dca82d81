use std::sync::atomic::{AtomicUsize, Ordering};
use std::sync::{Arc, Mutex};

use async_io_core::{
    close_with_lock, flush_with_lock, lock_outcome, read_with_lock, split,
    vectored_read_with_lock, vectored_write_with_lock, write_with_lock, AsyncReadExt,
    CoreAsyncRead, CoreAsyncWrite, LockAttempt, MinimalIoError, WriteHalf,
};
use futures_core::task::{Context, LocalMap, Wake, Waker};
use futures_core::{Async, Poll};

struct CountingWake {
    wakes: AtomicUsize,
}

impl Wake for CountingWake {
    fn wake(arc_self: &Arc<Self>) {
        arc_self.wakes.fetch_add(1, Ordering::SeqCst);
    }
}

/// Reads and writes one vector, and counts the calls that are inside it at
/// one time.
struct Pipe {
    data: Vec<u8>,
    inside: usize,
    most_inside: usize,
    flushes: usize,
    closes: usize,
    /// A write half that each read tries once, from inside the read.
    other: Arc<Mutex<Option<WriteHalf<Pipe>>>>,
    nested: Vec<bool>,
}

impl Pipe {
    fn new() -> Self {
        Pipe {
            data: Vec::new(),
            inside: 0,
            most_inside: 0,
            flushes: 0,
            closes: 0,
            other: Arc::new(Mutex::new(None)),
            nested: Vec::new(),
        }
    }

    fn enter(&mut self) {
        self.inside += 1;
        self.most_inside = self.most_inside.max(self.inside);
    }

    fn leave(&mut self) {
        self.inside -= 1;
    }
}

impl CoreAsyncRead for Pipe {
    type Error = MinimalIoError;

    fn poll_read_core(&mut self, cx: &mut Context, buf: &mut [u8]) -> Poll<usize, MinimalIoError> {
        self.enter();
        let other = self.other.clone();
        if let Some(half) = other.lock().unwrap().as_mut() {
            let pending = matches!(half.poll_write_core(cx, &[0xFF]), Ok(Async::Pending));
            self.nested.push(pending);
        }
        let n = buf.len().min(self.data.len());
        buf[..n].copy_from_slice(&self.data[..n]);
        self.data.drain(..n);
        self.leave();
        Ok(Async::Ready(n))
    }
}

impl CoreAsyncWrite for Pipe {
    type Error = MinimalIoError;

    fn poll_write_core(&mut self, _: &mut Context, buf: &[u8]) -> Poll<usize, MinimalIoError> {
        self.enter();
        self.data.extend_from_slice(buf);
        self.leave();
        Ok(Async::Ready(buf.len()))
    }

    fn poll_flush_core(&mut self, _: &mut Context) -> Poll<(), MinimalIoError> {
        self.flushes += 1;
        Ok(Async::Ready(()))
    }

    fn poll_close_core(&mut self, _: &mut Context) -> Poll<(), MinimalIoError> {
        self.closes += 1;
        Ok(Async::Ready(()))
    }
}

#[test]
fn both_halves_reach_the_one_resource() {
    let wake = Arc::new(CountingWake { wakes: AtomicUsize::new(0) });
    let waker = Waker::from(wake.clone());
    let mut map = LocalMap::new();
    let mut cx = Context::without_spawn(&mut map, &waker);
    let (mut rd, mut wr) = split(Pipe::new());
    assert!(matches!(wr.poll_write_core(&mut cx, &[1, 2, 3]), Ok(Async::Ready(3))));
    assert!(matches!(wr.poll_flush_core(&mut cx), Ok(Async::Ready(()))));
    let mut buf = [0u8; 2];
    assert!(matches!(rd.poll_read_core(&mut cx, &mut buf), Ok(Async::Ready(2))));
    assert_eq!(buf, [1, 2]);
    assert!(matches!(wr.poll_write_core(&mut cx, &[4]), Ok(Async::Ready(1))));
    let mut buf = [0u8; 8];
    assert!(matches!(rd.poll_read_core(&mut cx, &mut buf), Ok(Async::Ready(2))));
    assert_eq!(&buf[..2], &[3, 4][..]);
    assert!(matches!(wr.poll_close_core(&mut cx), Ok(Async::Ready(()))));
    assert_eq!(wake.wakes.load(Ordering::SeqCst), 0);
}

#[test]
fn a_half_is_pending_while_the_other_is_inside_the_resource() {
    let wake = Arc::new(CountingWake { wakes: AtomicUsize::new(0) });
    let waker = Waker::from(wake.clone());
    let mut map = LocalMap::new();
    let mut cx = Context::without_spawn(&mut map, &waker);
    let pipe = Pipe::new();
    let slot = pipe.other.clone();
    let (mut rd, mut wr) = pipe.split();
    assert!(matches!(wr.poll_write_core(&mut cx, &[1, 2, 3]), Ok(Async::Ready(3))));
    *slot.lock().unwrap() = Some(wr);

    // The read holds the lock; the write that is tried from inside it must
    // not get at the resource.
    let mut buf = [0u8; 8];
    assert!(matches!(rd.poll_read_core(&mut cx, &mut buf), Ok(Async::Ready(3))));
    assert_eq!(&buf[..3], &[1, 2, 3][..]);
    assert_eq!(wake.wakes.load(Ordering::SeqCst), 1);

    // Once the read is over the write half gets through again.
    let mut wr = slot.lock().unwrap().take().unwrap();
    assert!(matches!(wr.poll_write_core(&mut cx, &[9]), Ok(Async::Ready(1))));
    let mut buf = [0u8; 8];
    assert!(matches!(rd.poll_read_core(&mut cx, &mut buf), Ok(Async::Ready(1))));
    assert_eq!(buf[0], 9);
    assert_eq!(wake.wakes.load(Ordering::SeqCst), 1);
}

#[test]
fn a_lock_in_hand_is_ready_and_a_missing_one_is_pending_with_a_wake() {
    let wake = Arc::new(CountingWake { wakes: AtomicUsize::new(0) });
    let waker = Waker::from(wake.clone());
    let mut map = LocalMap::new();
    let mut cx = Context::without_spawn(&mut map, &waker);
    assert!(matches!(lock_outcome(LockAttempt::Acquired(7u8), &mut cx), Async::Ready(7)));
    assert!(matches!(lock_outcome(LockAttempt::Poisoned(8u8), &mut cx), Async::Ready(8)));
    assert_eq!(wake.wakes.load(Ordering::SeqCst), 0);
    assert!(matches!(lock_outcome(LockAttempt::<u8>::WouldBlock, &mut cx), Async::Pending));
    assert_eq!(wake.wakes.load(Ordering::SeqCst), 1);
}

#[test]
fn with_the_lock_in_hand_the_resource_is_asked_once_and_its_answer_handed_back() {
    let wake = Arc::new(CountingWake { wakes: AtomicUsize::new(0) });
    let waker = Waker::from(wake.clone());
    let mut map = LocalMap::new();
    let mut cx = Context::without_spawn(&mut map, &waker);
    let cell = Mutex::new(Pipe::new());

    let got = LockAttempt::Acquired(cell.lock().unwrap());
    assert!(matches!(write_with_lock(got, &mut cx, &[1, 2, 3]), Ok(Async::Ready(3))));
    assert_eq!(cell.lock().unwrap().data, vec![1u8, 2, 3]);

    let got = LockAttempt::Poisoned(cell.lock().unwrap());
    let mut buf = [0u8; 2];
    assert!(matches!(read_with_lock(got, &mut cx, &mut buf), Ok(Async::Ready(2))));
    assert_eq!(buf, [1, 2]);
    assert_eq!(cell.lock().unwrap().data, vec![3u8]);

    let a = [7u8, 8];
    let segs = [iovec::IoVec::from_bytes(&a).unwrap()];
    let got = LockAttempt::Acquired(cell.lock().unwrap());
    assert!(matches!(vectored_write_with_lock(got, &mut cx, &segs), Ok(Async::Ready(2))));
    assert_eq!(cell.lock().unwrap().data, vec![3u8, 7, 8]);

    let mut store = [0u8; 2];
    {
        let mut segs = [iovec::IoVec::from_bytes_mut(&mut store).unwrap()];
        let got = LockAttempt::Acquired(cell.lock().unwrap());
        assert!(matches!(vectored_read_with_lock(got, &mut cx, &mut segs), Ok(Async::Ready(2))));
    }
    assert_eq!(store, [3, 7]);

    let got = LockAttempt::Acquired(cell.lock().unwrap());
    assert!(matches!(flush_with_lock(got, &mut cx), Ok(Async::Ready(()))));
    let got = LockAttempt::Acquired(cell.lock().unwrap());
    assert!(matches!(close_with_lock(got, &mut cx), Ok(Async::Ready(()))));

    let pipe = cell.lock().unwrap();
    assert_eq!(pipe.data, vec![8u8]);
    assert_eq!(pipe.flushes, 1);
    assert_eq!(pipe.closes, 1);
    assert_eq!(pipe.most_inside, 1);
    assert_eq!(wake.wakes.load(Ordering::SeqCst), 0);
}

#[test]
fn without_the_lock_the_call_is_pending_and_the_task_is_woken() {
    let wake = Arc::new(CountingWake { wakes: AtomicUsize::new(0) });
    let waker = Waker::from(wake.clone());
    let mut map = LocalMap::new();
    let mut cx = Context::without_spawn(&mut map, &waker);
    let mut buf = [9u8; 2];
    assert!(matches!(
        read_with_lock::<Pipe>(LockAttempt::WouldBlock, &mut cx, &mut buf),
        Ok(Async::Pending)
    ));
    assert_eq!(buf, [9, 9]);
    assert!(matches!(
        write_with_lock::<Pipe>(LockAttempt::WouldBlock, &mut cx, &[1]),
        Ok(Async::Pending)
    ));
    assert!(matches!(flush_with_lock::<Pipe>(LockAttempt::WouldBlock, &mut cx), Ok(Async::Pending)));
    assert!(matches!(close_with_lock::<Pipe>(LockAttempt::WouldBlock, &mut cx), Ok(Async::Pending)));
    let none: [&iovec::IoVec; 0] = [];
    assert!(matches!(
        vectored_write_with_lock::<Pipe>(LockAttempt::WouldBlock, &mut cx, &none),
        Ok(Async::Pending)
    ));
    let mut none: [&mut iovec::IoVec; 0] = [];
    assert!(matches!(
        vectored_read_with_lock::<Pipe>(LockAttempt::WouldBlock, &mut cx, &mut none),
        Ok(Async::Pending)
    ));
    assert_eq!(wake.wakes.load(Ordering::SeqCst), 6);
}
