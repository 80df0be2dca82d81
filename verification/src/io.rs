//! The poll-based reader and writer contracts.

use vstd::prelude::*;
use futures_core::{Async, Poll};
use futures_core::task::Context;
use iovec::IoVec;
use crate::error::{CoreIoError, MinimalIoError};
use crate::initializer::Initializer;

verus! {

/// `futures_core::Async`, the outcome of one poll: `Ready` with a value, or
/// `Pending` where the task has been scheduled to be woken later. Verus reads
/// the two variants from the crate itself.
#[verifier::external_type_specification]
#[verifier::reject_recursive_types(T)]
pub struct ExAsync<T>(Async<T>);

/// `futures_core::task::Context`, the handle through which a poll registers
/// the current task for a wake-up. The library only hands it on.
#[verifier::external_type_specification]
#[verifier::external_body]
pub struct ExContext<'a>(Context<'a>);

/// `iovec::IoVec`, a byte slice in the layout that vectored I/O calls want.
#[verifier::external_type_specification]
#[verifier::external_body]
pub struct ExIoVec(IoVec);

/// The bytes that an `IoVec` holds: what `Deref::deref` hands out for it.
pub uninterp spec fn iovec_bytes(v: &IoVec) -> Seq<u8>;

/// `<IoVec as Deref>::deref`: the bytes of the segment as a slice.
#[verifier::external_body]
fn iovec_as_slice<'a>(v: &'a IoVec) -> (r: &'a [u8])
    ensures
        r@ == iovec_bytes(v),
{
    &**v
}

/// `<IoVec as DerefMut>::deref_mut`: the bytes of the segment as a slice to
/// write to. What the slice holds in the end is what the segment holds.
#[verifier::external_body]
fn iovec_as_mut_slice<'a>(v: &'a mut IoVec) -> (r: &'a mut [u8])
    ensures
        r@ == iovec_bytes(old(v)),
        final(r)@ == iovec_bytes(final(v)),
{
    &mut **v
}

/// The number of bytes that the segments of `segs` hold together.
pub open spec fn iovecs_len(segs: Seq<&IoVec>) -> nat
    decreases segs.len(),
{
    if segs.len() == 0 {
        0
    } else {
        iovec_bytes(segs[0]).len() + iovecs_len(segs.drop_first())
    }
}

/// The number of bytes that the writable segments of `segs` hold together.
pub open spec fn iovecs_mut_len(segs: Seq<&mut IoVec>) -> nat
    decreases segs.len(),
{
    if segs.len() == 0 {
        0
    } else {
        iovec_bytes(&*segs[0]).len() + iovecs_mut_len(segs.drop_first())
    }
}

/// The bytes of the first segment of `vec`, to be written to, or `None`
/// where `vec` has no segment. The other segments are not touched.
pub fn first_segment_mut<'a, 'b>(vec: &'a mut [&'b mut IoVec]) -> (r: Option<&'a mut [u8]>)
    ensures
        final(vec)@.len() == old(vec)@.len(),
        r is None <==> old(vec)@.len() == 0,
        r matches Some(bytes) ==> bytes@ == iovec_bytes(&*old(vec)@[0]) && final(bytes)@
            == iovec_bytes(&*final(vec)@[0]),
        forall|i: int|
            1 <= i < old(vec)@.len() ==> iovec_bytes(&*final(vec)@[i]) == iovec_bytes(
                &*old(vec)@[i],
            ),
{
    if vec.len() > 0 {
        let first: &mut IoVec = &mut *vec[0];
        Some(iovec_as_mut_slice(first))
    } else {
        None
    }
}

/// The bytes of the first segment of `vec`, or `None` where `vec` has no
/// segment.
pub fn first_segment<'a>(vec: &[&'a IoVec]) -> (r: Option<&'a [u8]>)
    ensures
        r is None <==> vec@.len() == 0,
        r matches Some(bytes) ==> bytes@ == iovec_bytes(vec@[0]),
{
    if vec.len() > 0 {
        Some(iovec_as_slice(vec[0]))
    } else {
        None
    }
}

/// Reads bytes without blocking.
///
/// Where no data is available yet, `poll_read_core` returns
/// `Ok(Async::Pending)` and has arranged for the task of `cx` to be woken
/// when the object becomes readable or is closed.
///
/// The combinators of this crate rely on what the methods promise here: an
/// implementation never reports more bytes than the buffers it was given
/// hold.
pub trait CoreAsyncRead {
    /// What a failed read reports.
    type Error: CoreIoError;

    /// Tells whether this reader needs the buffers it is given zeroed.
    ///
    /// The answer given here is the safe one: buffers are zeroed. A reader
    /// answers otherwise only if it never reads from the buffer it is given
    /// and reports exactly the bytes it wrote.
    fn initializer_core(&self) -> (r: Initializer)
        default_ensures
            r.zeroes(),
    {
        Initializer::zeroing()
    }

    /// Attempts to read into `buf`.
    ///
    /// `Ok(Async::Ready(n))` says that `n` bytes were put at the head of
    /// `buf`; `n` is 0 only at the end of the stream or for an empty `buf`.
    fn poll_read_core(&mut self, cx: &mut Context<'_>, buf: &mut [u8]) -> (r: Poll<
        usize,
        Self::Error,
    >)
        ensures
            final(buf)@.len() == old(buf)@.len(),
            r matches Ok(Async::Ready(n)) ==> n <= old(buf)@.len(),
    ;

    /// Attempts to read into the segments of `vec`, filling them in order.
    ///
    /// `Ok(Async::Ready(n))` says that `n` bytes were put into the segments.
    /// Unless an implementation says otherwise, only the first segment is
    /// used: the outcome is that of one `poll_read_core` on the bytes of
    /// that segment, the other segments stay as they are, and with no
    /// segment at all the call is ready at once with 0 bytes.
    fn poll_vectored_read_core(&mut self, cx: &mut Context<'_>, vec: &mut [&mut IoVec]) -> (r:
        Poll<usize, Self::Error>)
        ensures
            final(vec)@.len() == old(vec)@.len(),
            r matches Ok(Async::Ready(n)) ==> n <= iovecs_mut_len(old(vec)@),
        default_ensures
            old(vec)@.len() == 0 ==> r == Ok::<Async<usize>, Self::Error>(Async::Ready(0)),
            old(vec)@.len() > 0 ==> exists|rd0: &mut Self, c: &mut Context<'_>, b: &mut [u8]|
                Self::poll_read_core.ensures((rd0, c, b), r) && &*rd0 == &*old(self)
                    && &*final(rd0) == &*final(self) && b@ == iovec_bytes(&*old(vec)@[0])
                    && final(b)@ == iovec_bytes(&*final(vec)@[0]),
            forall|i: int|
                1 <= i < old(vec)@.len() ==> iovec_bytes(&*final(vec)@[i]) == iovec_bytes(
                    &*old(vec)@[i],
                ),
    {
        match first_segment_mut(vec) {
            Some(first) => self.poll_read_core(cx, first),
            None => Ok(Async::Ready(0)),
        }
    }
}

/// Writes bytes without blocking.
///
/// Where the object cannot make progress yet, a method returns
/// `Ok(Async::Pending)` and has arranged for the task of `cx` to be woken
/// when it can.
///
/// The combinators of this crate rely on what the methods promise here: an
/// implementation never reports more bytes than it was given.
pub trait CoreAsyncWrite {
    /// What a failed write reports.
    type Error: CoreIoError;

    /// Attempts to write bytes from the head of `buf`.
    ///
    /// `Ok(Async::Ready(n))` says that the first `n` bytes of `buf` were
    /// taken.
    fn poll_write_core(&mut self, cx: &mut Context<'_>, buf: &[u8]) -> (r: Poll<
        usize,
        Self::Error,
    >)
        ensures
            r matches Ok(Async::Ready(n)) ==> n <= buf@.len(),
    ;

    /// Attempts to write bytes from the segments of `vec`, in order.
    ///
    /// `Ok(Async::Ready(n))` says that `n` bytes were taken. Unless an
    /// implementation says otherwise, only the first segment is used: the
    /// outcome is that of one `poll_write_core` on the bytes of that
    /// segment, and with no segment at all the call is ready at once with 0
    /// bytes.
    fn poll_vectored_write_core(&mut self, cx: &mut Context<'_>, vec: &[&IoVec]) -> (r: Poll<
        usize,
        Self::Error,
    >)
        ensures
            r matches Ok(Async::Ready(n)) ==> n <= iovecs_len(vec@),
        default_ensures
            vec@.len() == 0 ==> r == Ok::<Async<usize>, Self::Error>(Async::Ready(0)),
            vec@.len() > 0 ==> exists|w: &mut Self, c: &mut Context<'_>, b: &[u8]|
                Self::poll_write_core.ensures((w, c, b), r) && &*w == &*old(self) && &*final(w)
                    == &*final(self) && b@ == iovec_bytes(vec@[0]),
    {
        match first_segment(vec) {
            Some(first) => self.poll_write_core(cx, first),
            None => Ok(Async::Ready(0)),
        }
    }

    /// Attempts to flush the object, so that buffered data reach their
    /// destination.
    fn poll_flush_core(&mut self, cx: &mut Context<'_>) -> Poll<(), Self::Error>;

    /// Attempts to close the object.
    fn poll_close_core(&mut self, cx: &mut Context<'_>) -> Poll<(), Self::Error>;
}

/// Whether a `poll_read_core` of some reader of the type `R`, on a buffer of
/// `room` bytes, has returned `res`.
pub open spec fn read_returned<R: CoreAsyncRead + ?Sized>(
    room: nat,
    res: Poll<usize, R::Error>,
) -> bool {
    exists|rd: &mut R, c: &mut Context<'_>, b: &mut [u8]|
        R::poll_read_core.ensures((rd, c, b), res) && b@.len() == room
}

/// Whether a `poll_write_core` of some writer of the type `W`, on the bytes
/// `bytes`, has returned `res`.
pub open spec fn write_returned<W: CoreAsyncWrite + ?Sized>(
    bytes: Seq<u8>,
    res: Poll<usize, W::Error>,
) -> bool {
    exists|w: &mut W, c: &mut Context<'_>, b: &[u8]|
        W::poll_write_core.ensures((w, c, b), res) && b@ == bytes
}

/// Whether a `poll_flush_core` of some writer of the type `W` has returned
/// `res`.
pub open spec fn flush_returned<W: CoreAsyncWrite + ?Sized>(res: Poll<(), W::Error>) -> bool {
    exists|w: &mut W, c: &mut Context<'_>| W::poll_flush_core.ensures((w, c), res)
}

/// A borrowed reader reads as the reader itself does: each call is handed
/// on.
impl<'a, T: ?Sized + CoreAsyncRead> CoreAsyncRead for &'a mut T {
    type Error = <T as CoreAsyncRead>::Error;

    /// The answer of the reader that is borrowed.
    fn initializer_core(&self) -> (r: Initializer)
        ensures
            T::initializer_core.ensures((&*old(*self),), r),
    {
        (**self).initializer_core()
    }

    /// The outcome of the same call on the reader that is borrowed.
    fn poll_read_core(&mut self, cx: &mut Context<'_>, buf: &mut [u8]) -> (r: Poll<
        usize,
        Self::Error,
    >)
        ensures
            exists|rd0: &mut T, c: &mut Context<'_>, b: &mut [u8]|
                T::poll_read_core.ensures((rd0, c, b), r) && &*rd0 == &**old(self) && &*final(rd0)
                    == &**final(self) && b@ == old(buf)@ && final(b)@ == final(buf)@,
    {
        (**self).poll_read_core(cx, buf)
    }

    /// The outcome of the same call on the reader that is borrowed.
    fn poll_vectored_read_core(&mut self, cx: &mut Context<'_>, vec: &mut [&mut IoVec]) -> (r:
        Poll<usize, Self::Error>)
        ensures
            exists|rd0: &mut T, c: &mut Context<'_>, v: &mut [&mut IoVec]|
                T::poll_vectored_read_core.ensures((rd0, c, v), r) && &*rd0 == &**old(self)
                    && &*final(rd0) == &**final(self) && v@ == old(vec)@ && final(v)@ == final(vec)@,
    {
        (**self).poll_vectored_read_core(cx, vec)
    }
}

/// The number of bytes a read from `src` into a buffer of `room` bytes
/// moves.
pub open spec fn slice_read_len(src: Seq<u8>, room: nat) -> nat {
    if src.len() <= room {
        src.len()
    } else {
        room
    }
}

/// A slice of bytes is a reader that is always ready: each read takes bytes
/// off its head, until none are left.
impl<'a> CoreAsyncRead for &'a [u8] {
    type Error = MinimalIoError;

    /// A slice never looks at the buffer before it writes to it.
    fn initializer_core(&self) -> (r: Initializer)
        ensures
            !r.zeroes(),
    {
        Initializer::nop()
    }

    /// Moves as many bytes as fit from the head of the slice to the head of
    /// `buf`, and leaves the rest of both as it was. The call never fails
    /// and is never pending.
    fn poll_read_core(&mut self, cx: &mut Context<'_>, buf: &mut [u8]) -> (r: Poll<
        usize,
        Self::Error,
    >)
        ensures
            r == Ok::<Async<usize>, MinimalIoError>(
                Async::Ready(slice_read_len(old(self)@, old(buf)@.len()) as usize),
            ),
            final(buf)@ == old(self)@.subrange(
                0,
                slice_read_len(old(self)@, old(buf)@.len()) as int,
            ) + old(buf)@.subrange(
                slice_read_len(old(self)@, old(buf)@.len()) as int,
                old(buf)@.len() as int,
            ),
            final(self)@ == old(self)@.subrange(
                slice_read_len(old(self)@, old(buf)@.len()) as int,
                old(self)@.len() as int,
            ),
    {
        let len = if self.len() <= buf.len() {
            self.len()
        } else {
            buf.len()
        };
        let (head, tail) = self.split_at(len);
        let mut i: usize = 0;
        while i < len
            invariant
                i <= len,
                len == head@.len(),
                len <= buf@.len(),
                buf@.len() == old(buf)@.len(),
                forall|j: int|
                    0 <= j < buf@.len() ==> buf@[j] == if j < i {
                        head@[j]
                    } else {
                        old(buf)@[j]
                    },
            decreases len - i,
        {
            buf[i] = head[i];
            i += 1;
        }
        *self = tail;
        Ok(Async::Ready(len))
    }
}

} // verus!
