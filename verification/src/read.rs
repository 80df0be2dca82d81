//! Reading once.

use vstd::prelude::*;
use futures_core::{Async, Poll};
use futures_core::task::Context;
use crate::io::CoreAsyncRead;

verus! {

#[derive(Debug)]
struct Reading<R> {
    rd: R,
    buf: Vec<u8>,
}

/// Reads once into a buffer, as many bytes as the reader has at hand, and
/// then hands back the reader, the buffer and the number of bytes read.
///
/// Made by [`read`].
#[derive(Debug)]
pub struct Read<R> {
    state: Option<Reading<R>>,
}

/// Starts one read from `rd` into `buf`.
pub fn read<R: CoreAsyncRead>(rd: R, buf: Vec<u8>) -> (r: Read<R>)
    ensures
        r.active(),
        r.buffer() == buf@,
        r.reader() == rd,
{
    Read { state: Some(Reading { rd, buf }) }
}

impl<R> Read<R> {
    /// Whether the operation is still under way: it has neither finished
    /// nor failed.
    pub closed spec fn active(&self) -> bool {
        self.state is Some
    }

    /// What the buffer holds; empty once the operation is over.
    pub closed spec fn buffer(&self) -> Seq<u8> {
        match self.state {
            Some(st) => st.buf@,
            None => Seq::empty(),
        }
    }

    /// The reader, while the operation is under way.
    pub closed spec fn reader(&self) -> R
        recommends
            self.active(),
    {
        self.state->0.rd
    }

    /// Whether the operation is still under way.
    pub fn is_active(&self) -> (b: bool)
        ensures
            b == self.active(),
    {
        self.state.is_some()
    }
}

impl<R: CoreAsyncRead> Read<R> {
    /// Asks the reader once to read into the whole buffer; there is no
    /// second try for more.
    ///
    /// The outcome is that of this one call. A count that the reader gives,
    /// zero included, is handed back with the reader and the buffer as the
    /// call left them, and the operation is over. An error of the reader is
    /// handed back as it is, and the operation is over too. Where the reader
    /// is not ready the operation stays under way, with the reader and the
    /// buffer as the call left them.
    ///
    /// A poll of an operation that is over panics.
    pub fn poll(&mut self, cx: &mut Context<'_>) -> (r: Poll<(R, Vec<u8>, usize), R::Error>)
        requires
            old(self).active(),
        ensures
            final(self).active() <==> r == Ok::<Async<(R, Vec<u8>, usize)>, R::Error>(
                Async::Pending,
            ),
            r matches Ok(Async::Ready((rd, buf, nread))) ==> nread <= buf@.len(),
            exists|rd0: &mut R, c: &mut Context<'_>, b: &mut [u8], res: Poll<usize, R::Error>|
                R::poll_read_core.ensures((rd0, c, b), res) && *rd0 == old(self).reader() && b@
                    == old(self).buffer() && (match res {
                    Ok(Async::Ready(n)) => r matches Ok(Async::Ready((rd, buf, k))) && k == n
                        && buf@ == final(b)@ && rd == *final(rd0),
                    Ok(Async::Pending) => r == Ok::<Async<(R, Vec<u8>, usize)>, R::Error>(
                        Async::Pending,
                    ) && final(self).buffer() == final(b)@ && final(self).reader() == *final(rd0),
                    Err(e) => r == Err::<Async<(R, Vec<u8>, usize)>, R::Error>(e),
                }),
    {
        let mut slot: Option<Reading<R>> = None;
        core::mem::swap(&mut self.state, &mut slot);
        let mut st = slot.unwrap();
        match st.rd.poll_read_core(cx, st.buf.as_mut_slice()) {
            Ok(Async::Ready(nread)) => Ok(Async::Ready((st.rd, st.buf, nread))),
            Ok(Async::Pending) => {
                self.state = Some(st);
                Ok(Async::Pending)
            },
            Err(e) => Err(e),
        }
    }
}

} // verus!
