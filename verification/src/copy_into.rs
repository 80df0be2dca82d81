//! Copying everything a reader yields into a writer.

use vstd::prelude::*;
use futures_core::{Async, Poll};
use futures_core::task::Context;
use crate::error::CoreIoError;
use crate::io::{CoreAsyncRead, CoreAsyncWrite};
use crate::step::Step;
use crate::task::wake_task;

verus! {

/// The calls that one poll of a copy makes at most before it gives way to
/// other tasks.
pub const COPY_POLL_BUDGET: u64 = 0xffff_ffff_ffff_ffff;

/// The call that a copy makes next.
#[derive(Clone, Copy, Debug, PartialEq, Eq)]
pub enum CopyAction {
    /// Refill the buffer from the reader.
    Read,
    /// Write buffered bytes to the writer.
    Write,
    /// Flush the writer: the reader is at its end and the buffer is empty.
    Flush,
}

/// Where a copy stands: which part of the buffer holds bytes that have been
/// read and not yet written, whether the reader is at its end, and how many
/// bytes have been written.
#[derive(Clone, Copy, Debug)]
pub struct CopyProgress {
    /// Whether the reader has reported the end of the stream.
    pub read_done: bool,
    /// Where the bytes that are still to be written start in the buffer.
    pub pos: usize,
    /// Where the bytes that are still to be written end in the buffer.
    pub cap: usize,
    /// The number of bytes written so far, modulo 2^64.
    pub amt: u64,
}

impl CopyProgress {
    /// The two positions are in order.
    pub open spec fn wf(self) -> bool {
        self.pos <= self.cap
    }

    /// The call that comes next: buffered bytes are written out first; with
    /// an empty buffer the reader is asked, until it has reported its end;
    /// then the writer is flushed.
    pub open spec fn action(self) -> CopyAction {
        if self.pos < self.cap {
            CopyAction::Write
        } else if !self.read_done {
            CopyAction::Read
        } else {
            CopyAction::Flush
        }
    }

    /// The progress and the step after a read into the whole buffer has
    /// returned `res`: zero bytes mean that the reader is at its end, any
    /// other count is the new content of the buffer.
    pub open spec fn after_read_spec<E>(self, res: Poll<usize, E>) -> (CopyProgress, Step<E>) {
        match res {
            Ok(Async::Ready(n)) => if n == 0 {
                (CopyProgress { read_done: true, ..self }, Step::Continue)
            } else {
                (CopyProgress { pos: 0, cap: n, ..self }, Step::Continue)
            },
            Ok(Async::Pending) => (self, Step::Suspend),
            Err(e) => (self, Step::Fail(e)),
        }
    }

    /// Whether `next` and `step` are the progress and the step after a
    /// write of the buffered bytes has returned `res`: zero bytes written is
    /// not tried again, and fails with what
    /// `E::write_zero("write zero byte into writer")` gives; any other count
    /// moves the start of the buffered bytes on and is added to the total.
    pub open spec fn after_write_spec<E: CoreIoError>(
        self,
        res: Poll<usize, E>,
        next: CopyProgress,
        step: Step<E>,
    ) -> bool {
        match res {
            Ok(Async::Ready(i)) => if i == 0 {
                &&& next == self
                &&& step matches Step::Fail(e)
                &&& E::write_zero.ensures(("write zero byte into writer",), e)
            } else {
                &&& next == (CopyProgress {
                    pos: (self.pos + i) as usize,
                    amt: self.amt.wrapping_add(i as u64),
                    ..self
                })
                &&& step == Step::<E>::Continue
            },
            Ok(Async::Pending) => next == self && step == Step::<E>::Suspend,
            Err(e) => next == self && step == Step::Fail(e),
        }
    }

    /// A writer that takes nothing of a non-empty write ends the copy: the
    /// step is to fail, with an error that
    /// `E::write_zero("write zero byte into writer")` gives, and never to go
    /// on.
    pub proof fn lemma_zero_write_is_fatal<E: CoreIoError>(
        self,
        next: CopyProgress,
        step: Step<E>,
    )
        requires
            self.after_write_spec::<E>(Ok(Async::Ready(0)), next, step),
        ensures
            step matches Step::Fail(e) && E::write_zero.ensures(
                ("write zero byte into writer",),
                e,
            ),
            !(step is Continue),
            next == self,
    {
    }

    /// A reader or a writer that is not ready suspends the copy at once and
    /// leaves the progress as it is, so that the next poll makes the same
    /// call again.
    pub proof fn lemma_pending_suspends<E: CoreIoError>(self)
        ensures
            self.after_read_spec::<E>(Ok(Async::Pending)) == (self, Step::<E>::Suspend),
            forall|next: CopyProgress, step: Step<E>|
                self.after_write_spec::<E>(Ok(Async::Pending), next, step) ==> next == self
                    && step is Suspend,
            Step::<E>::of_unit_spec(Ok(Async::Pending)) == Step::<E>::Suspend,
    {
    }

    /// A copy that has moved nothing yet.
    pub fn new() -> (p: CopyProgress)
        ensures
            p == (CopyProgress { read_done: false, pos: 0, cap: 0, amt: 0 }),
    {
        CopyProgress { read_done: false, pos: 0, cap: 0, amt: 0 }
    }

    /// The call that comes next.
    pub fn next_action(&self) -> (a: CopyAction)
        ensures
            a == self.action(),
    {
        if self.pos < self.cap {
            CopyAction::Write
        } else if !self.read_done {
            CopyAction::Read
        } else {
            CopyAction::Flush
        }
    }

    /// Takes in the outcome of a read into the whole buffer.
    pub fn after_read<E>(&mut self, res: Poll<usize, E>) -> (s: Step<E>)
        ensures
            (*final(self), s) == old(self).after_read_spec(res),
    {
        match res {
            Ok(Async::Ready(n)) => {
                if n == 0 {
                    self.read_done = true;
                } else {
                    self.pos = 0;
                    self.cap = n;
                }
                Step::Continue
            },
            Ok(Async::Pending) => Step::Suspend,
            Err(e) => Step::Fail(e),
        }
    }

    /// Takes in the outcome of a write of the buffered bytes.
    pub fn after_write<E: CoreIoError>(&mut self, res: Poll<usize, E>) -> (s: Step<E>)
        requires
            old(self).wf(),
            res matches Ok(Async::Ready(i)) ==> i <= old(self).cap - old(self).pos,
        ensures
            old(self).after_write_spec(res, *final(self), s),
    {
        match res {
            Ok(Async::Ready(i)) => {
                if i == 0 {
                    Step::Fail(E::write_zero("write zero byte into writer"))
                } else {
                    self.pos = self.pos + i;
                    self.amt = self.amt.wrapping_add(i as u64);
                    Step::Continue
                }
            },
            Ok(Async::Pending) => Step::Suspend,
            Err(e) => Step::Fail(e),
        }
    }
}

/// The number that a copy reports for `n` bytes written: `n` modulo 2^64.
pub open spec fn copy_count(n: nat) -> u64 {
    (n % 0x1_0000_0000_0000_0000) as u64
}

/// Whether the error `e` is what a write of the buffered bytes `chunk`
/// makes of a copy: the write failed with `e`, or it took zero bytes of a
/// chunk that was not empty and `e` is what
/// `write_zero("write zero byte into writer")` gives.
pub open spec fn copy_write_failed_with<W: CoreAsyncWrite>(chunk: Seq<u8>, e: W::Error) -> bool {
    crate::io::write_returned::<W>(chunk, Err::<Async<usize>, W::Error>(e)) || (chunk.len() > 0
        && crate::io::write_returned::<W>(
        chunk,
        Ok::<Async<usize>, W::Error>(Async::Ready(0)),
    ) && W::Error::write_zero.ensures(("write zero byte into writer",), e))
}

/// Whether a write of `chunk` that took `i` bytes accounts for the last
/// bytes of `sent`: the chunk is the stretch of `received` that begins where
/// `sent` ended before the write, and its first `i` bytes are the last `i`
/// of `sent`.
pub open spec fn accounts_for_last_sent<W: CoreAsyncWrite>(
    received: Seq<u8>,
    sent: Seq<u8>,
    chunk: Seq<u8>,
    i: usize,
) -> bool {
    &&& 0 < i <= chunk.len()
    &&& i <= sent.len()
    &&& sent.len() - i + chunk.len() <= received.len()
    &&& chunk == received.subrange(sent.len() - i, sent.len() - i + chunk.len())
    &&& crate::io::write_returned::<W>(chunk, Ok::<Async<usize>, W::Error>(Async::Ready(i)))
}

/// Whether a copy that holds the bytes `pending` in its buffer has met a
/// reader or a writer that was not ready: a read, a write of `pending` or
/// a flush has returned `Ok(Async::Pending)`.
pub open spec fn waited_for<R: CoreAsyncRead, W: CoreAsyncWrite<Error = R::Error>>(
    pending: Seq<u8>,
) -> bool {
    ||| exists|room: nat| #[trigger]
        crate::io::read_returned::<R>(room, Ok::<Async<usize>, R::Error>(Async::Pending))
    ||| crate::io::write_returned::<W>(pending, Ok::<Async<usize>, W::Error>(Async::Pending))
    ||| crate::io::flush_returned::<W>(Ok::<Async<()>, W::Error>(Async::Pending))
}

/// Whether the error `e` is what ended a copy that held the unsent bytes
/// `unsent`: a read or the flush failed with `e`, or the write of `unsent`
/// did, or that write took none of them and `e` is what `write_zero` gives.
pub open spec fn failed_with<R: CoreAsyncRead, W: CoreAsyncWrite<Error = R::Error>>(
    unsent: Seq<u8>,
    e: R::Error,
) -> bool {
    ||| exists|room: nat| #[trigger]
        crate::io::read_returned::<R>(room, Err::<Async<usize>, R::Error>(e))
    ||| copy_write_failed_with::<W>(unsent, e)
    ||| crate::io::flush_returned::<W>(Err::<Async<()>, W::Error>(e))
}

/// A copy as a value: the reader, the writer, what the buffer holds and
/// where the copy stands.
pub struct CopyModel<R, W> {
    /// The reader.
    pub reader: R,
    /// The writer.
    pub writer: W,
    /// What the buffer holds.
    pub buf: Seq<u8>,
    /// Where the copy stands.
    pub progress: CopyProgress,
}

/// One call that a copy has made.
pub enum CopyCall<R, W, E> {
    /// A read into the whole buffer: how it found the reader, how it left
    /// it, what it returned and what it left in the buffer.
    Read(R, R, Poll<usize, E>, Seq<u8>),
    /// A write of the buffered bytes: how it found the writer, how it left
    /// it, the bytes it was handed and what it returned.
    Write(W, W, Seq<u8>, Poll<usize, E>),
    /// A flush: how it found the writer, how it left it, and what it
    /// returned.
    Flush(W, W, Poll<(), E>),
}

/// How one poll of a copy has ended.
pub enum CopyEnd<R, W, E> {
    /// The copy is done: the count, the reader, the writer and what the
    /// buffer holds.
    Done(u64, R, W, Seq<u8>),
    /// The copy waits as the model says; the flag tells whether the poll gave
    /// way of its own accord.
    Waiting(CopyModel<R, W>, bool),
    /// The copy has failed with this error.
    Failed(E),
}

/// Whether `call` is the call that a copy makes when it is as `m`: the call
/// that `m.progress.action()` names, on the reader or writer as it is, with
/// the whole buffer to read into or the buffered bytes to write.
#[verifier::opaque]
pub open spec fn copy_fits<R, W, E>(m: CopyModel<R, W>, call: CopyCall<R, W, E>) -> bool {
    match call {
        CopyCall::Read(before, after, res, left) => {
            &&& m.progress.action() == CopyAction::Read
            &&& before == m.reader
            &&& left.len() == m.buf.len()
            &&& res matches Ok(Async::Ready(n)) ==> n <= left.len()
        },
        CopyCall::Write(before, after, handed, res) => {
            &&& m.progress.action() == CopyAction::Write
            &&& before == m.writer
            &&& handed == m.buf.subrange(m.progress.pos as int, m.progress.cap as int)
            &&& res matches Ok(Async::Ready(i)) ==> i <= handed.len()
        },
        CopyCall::Flush(before, after, res) => {
            &&& m.progress.action() == CopyAction::Flush
            &&& before == m.writer
        },
    }
}

/// The copy after `call`: a read leaves the reader and the buffer as it
/// left them, and a count that it gave is taken in as in
/// `CopyProgress::after_read_spec`; a write or a flush leaves the writer as
/// it left it, and a count above zero that a write gave moves the start of
/// the buffered bytes on and is added to the total.
#[verifier::opaque]
pub open spec fn copy_step<R, W, E>(m: CopyModel<R, W>, call: CopyCall<R, W, E>) -> CopyModel<
    R,
    W,
> {
    match call {
        CopyCall::Read(before, after, res, left) => CopyModel {
            reader: after,
            writer: m.writer,
            buf: left,
            progress: m.progress.after_read_spec(res).0,
        },
        CopyCall::Write(before, after, handed, res) => CopyModel {
            reader: m.reader,
            writer: after,
            buf: m.buf,
            progress: match res {
                Ok(Async::Ready(i)) => if i == 0 {
                    m.progress
                } else {
                    CopyProgress {
                        pos: (m.progress.pos + i) as usize,
                        amt: m.progress.amt.wrapping_add(i as u64),
                        ..m.progress
                    }
                },
                _ => m.progress,
            },
        },
        CopyCall::Flush(before, after, res) => CopyModel {
            reader: m.reader,
            writer: after,
            buf: m.buf,
            progress: m.progress,
        },
    }
}

/// Whether the copy goes on to another call after `call`: after a read that
/// gave a count, and after a write that took at least one byte.
#[verifier::opaque]
pub open spec fn copy_goes_on<R, W, E>(call: CopyCall<R, W, E>) -> bool {
    match call {
        CopyCall::Read(before, after, res, left) => res matches Ok(Async::Ready(_)),
        CopyCall::Write(before, after, handed, res) => res matches Ok(Async::Ready(i)) && i
            > 0,
        CopyCall::Flush(before, after, res) => false,
    }
}

/// Whether `call` returned `Ok(Async::Pending)`.
pub open spec fn copy_call_pending<R, W, E>(call: CopyCall<R, W, E>) -> bool {
    match call {
        CopyCall::Read(before, after, res, left) => res == Ok::<Async<usize>, E>(
            Async::Pending,
        ),
        CopyCall::Write(before, after, handed, res) => res == Ok::<Async<usize>, E>(
            Async::Pending,
        ),
        CopyCall::Flush(before, after, res) => res == Ok::<Async<()>, E>(Async::Pending),
    }
}

/// Whether `e` is the error that `call` ends a copy with: the error that
/// the call returned, or, for a write that took none of the bytes it was
/// handed, what `write_zero("write zero byte into writer")` gives.
pub open spec fn copy_call_failed<R, W, E: CoreIoError>(call: CopyCall<R, W, E>, e: E) -> bool {
    match call {
        CopyCall::Read(before, after, res, left) => res == Err::<Async<usize>, E>(e),
        CopyCall::Write(before, after, handed, res) => res == Err::<Async<usize>, E>(e) || (
        res == Ok::<Async<usize>, E>(Async::Ready(0)) && E::write_zero.ensures(
            ("write zero byte into writer",),
            e,
        )),
        CopyCall::Flush(before, after, res) => res == Err::<Async<()>, E>(e),
    }
}

/// The copy after the first `k` of the calls listed, begun as `m0`.
pub open spec fn copy_after<R, W, E>(
    m0: CopyModel<R, W>,
    calls: Seq<CopyCall<R, W, E>>,
    k: int,
) -> CopyModel<R, W>
    decreases k,
{
    if k <= 0 {
        m0
    } else {
        copy_step(copy_after(m0, calls, k - 1), calls[k - 1])
    }
}

/// Whether the calls listed are the calls that a copy which began as `m0`
/// makes one after the other, and leave it as `m1`: each call is the one
/// that the copy makes as the calls before left it, and after each call but
/// the last the copy goes on.
#[verifier::opaque]
pub open spec fn copy_calls<R, W, E>(
    m0: CopyModel<R, W>,
    calls: Seq<CopyCall<R, W, E>>,
    m1: CopyModel<R, W>,
) -> bool {
    &&& forall|k: int|
        0 <= k < calls.len() ==> copy_fits(copy_after(m0, calls, k), #[trigger] calls[k])
    &&& forall|k: int| 0 <= k < calls.len() - 1 ==> copy_goes_on(#[trigger] calls[k])
    &&& m1 == copy_after(m0, calls, calls.len() as int)
}

/// Whether one poll of a copy that began as `m0` and ended as `end` is the
/// run of the calls listed, as in [`copy_calls`].
///
/// The copy is done only after a flush that was ready, and hands back the
/// reader, the writer and the buffer as the calls left them, with the count
/// of the bytes written. It fails only where the last call failed, as in
/// [`copy_call_failed`]. It waits where the last call was pending, or,
/// having given way, after `COPY_POLL_BUDGET` calls that all went on.
pub open spec fn copy_run<R, W, E: CoreIoError>(
    m0: CopyModel<R, W>,
    calls: Seq<CopyCall<R, W, E>>,
    end: CopyEnd<R, W, E>,
) -> bool {
    let n = calls.len() as int;
    match end {
        CopyEnd::Done(amt, reader, writer, buf) => {
            &&& n > 0
            &&& exists|p: CopyProgress| #[trigger]
                copy_calls(m0, calls, CopyModel { reader, writer, buf, progress: p }) && p.amt
                    == amt
            &&& calls[n - 1] matches CopyCall::Flush(before, after, res) && res == Ok::<
                Async<()>,
                E,
            >(Async::Ready(()))
        },
        CopyEnd::Waiting(m, gave_way) => {
            &&& copy_calls(m0, calls, m)
            &&& if gave_way {
                n == COPY_POLL_BUDGET && (n > 0 ==> copy_goes_on(calls[n - 1]))
            } else {
                n > 0 && copy_call_pending(calls[n - 1])
            }
        },
        CopyEnd::Failed(e) => {
            &&& n > 0
            &&& exists|m: CopyModel<R, W>| #[trigger] copy_calls(m0, calls, m)
            &&& copy_call_failed(calls[n - 1], e)
        },
    }
}

/// A call that is added to a run changes nothing of how the copy was after
/// the calls before it.
pub proof fn lemma_copy_after_push<R, W, E>(
    m0: CopyModel<R, W>,
    calls: Seq<CopyCall<R, W, E>>,
    call: CopyCall<R, W, E>,
    k: int,
)
    requires
        k <= calls.len(),
    ensures
        copy_after(m0, calls.push(call), k) == copy_after(m0, calls, k),
    decreases k,
{
    if k > 0 {
        lemma_copy_after_push(m0, calls, call, k - 1);
    }
}

/// Calls after each of which the copy went on, followed by the call that the
/// copy makes next, are calls of a copy again.
pub proof fn lemma_copy_push<R, W, E>(
    m0: CopyModel<R, W>,
    calls: Seq<CopyCall<R, W, E>>,
    m1: CopyModel<R, W>,
    call: CopyCall<R, W, E>,
)
    requires
        copy_calls(m0, calls, m1),
        calls.len() > 0 ==> copy_goes_on(calls[calls.len() - 1]),
        copy_fits(m1, call),
    ensures
        copy_calls(m0, calls.push(call), copy_step(m1, call)),
{
    reveal(copy_calls);
    let n = calls.len() as int;
    let calls2 = calls.push(call);
    assert forall|k: int| 0 <= k <= n implies copy_after(m0, calls2, k) == copy_after(
        m0,
        calls,
        k,
    ) by {
        lemma_copy_after_push(m0, calls, call, k);
    }
    assert(copy_after(m0, calls2, n + 1) == copy_step(copy_after(m0, calls2, n), calls2[n]));
    assert forall|k: int| 0 <= k < calls2.len() implies copy_fits(
        copy_after(m0, calls2, k),
        #[trigger] calls2[k],
    ) by {
        if k < n {
            assert(copy_fits(copy_after(m0, calls, k), calls[k]));
        }
    }
    assert forall|k: int| 0 <= k < calls2.len() - 1 implies copy_goes_on(
        #[trigger] calls2[k],
    ) by {
        if k < n - 1 {
            assert(copy_goes_on(calls[k]));
        } else {
            assert(calls2[k] == calls[n - 1]);
        }
    }
}

enum Exit<E> {
    Go,
    Yield,
    Wait,
    Fail(E),
    Done,
}

struct Copying<R, W> {
    reader: R,
    writer: W,
    buf: Vec<u8>,
    progress: CopyProgress,
}

/// Copies all the bytes that a reader yields into a writer, and flushes the
/// writer in the end.
///
/// Made by [`copy_into`]. It resolves to the number of bytes copied, and
/// hands back the reader, the writer and the buffer.
pub struct CopyInto<R, W> {
    state: Option<Copying<R, W>>,
    received: Ghost<Seq<u8>>,
    sent: Ghost<Seq<u8>>,
    ended: Ghost<bool>,
    yielded: Ghost<bool>,
}

/// Starts to copy from `reader` to `writer` by way of `buf`.
pub fn copy_into<R, W>(reader: R, writer: W, buf: Vec<u8>) -> (r: CopyInto<R, W>)
    ensures
        r.active(),
        r.received() == Seq::<u8>::empty(),
        r.sent() == Seq::<u8>::empty(),
        r.pending() == Seq::<u8>::empty(),
        !r.reader_ended(),
        r.model() == (CopyModel {
            reader,
            writer,
            buf: buf@,
            progress: CopyProgress { read_done: false, pos: 0, cap: 0, amt: 0 },
        }),
{
    let r = CopyInto {
        state: Some(Copying { reader, writer, buf, progress: CopyProgress::new() }),
        received: Ghost(Seq::empty()),
        sent: Ghost(Seq::empty()),
        ended: Ghost(false),
        yielded: Ghost(false),
    };
    r
}

impl<R, W> CopyInto<R, W> {
    #[verifier::type_invariant]
    spec fn inv(self) -> bool {
        &&& self.sent@.is_prefix_of(self.received@)
        &&& match self.state {
            Some(st) => {
                &&& st.progress.wf()
                &&& st.progress.cap <= st.buf@.len()
                &&& st.progress.amt == copy_count(self.sent@.len())
                &&& st.progress.read_done == self.ended@
                &&& self.received@ == self.sent@ + st.buf@.subrange(
                    st.progress.pos as int,
                    st.progress.cap as int,
                )
            },
            None => true,
        }
    }

    /// Whether the copy is still under way: it has neither finished nor
    /// failed.
    pub closed spec fn active(&self) -> bool {
        self.state is Some
    }

    /// Every byte that the reader has handed over since the copy began, in
    /// the order in which it came.
    pub closed spec fn received(&self) -> Seq<u8> {
        self.received@
    }

    /// Every byte that the writer has taken since the copy began, in the
    /// order in which it went.
    pub closed spec fn sent(&self) -> Seq<u8> {
        self.sent@
    }

    /// The bytes that sit in the buffer, read and not yet written. Empty
    /// once the copy is over.
    pub closed spec fn pending(&self) -> Seq<u8> {
        match self.state {
            Some(st) => st.buf@.subrange(st.progress.pos as int, st.progress.cap as int),
            None => Seq::empty(),
        }
    }

    /// Whether the reader has reported the end of its stream, with a read of
    /// zero bytes.
    pub closed spec fn reader_ended(&self) -> bool {
        self.ended@
    }

    /// The copy as a value, while it is under way.
    pub closed spec fn model(&self) -> CopyModel<R, W>
        recommends
            self.active(),
    {
        CopyModel {
            reader: self.state->0.reader,
            writer: self.state->0.writer,
            buf: self.state->0.buf@,
            progress: self.state->0.progress,
        }
    }

    /// Whether the last poll stopped of its own accord, after
    /// `COPY_POLL_BUDGET` calls, and not because a reader or writer was not
    /// ready.
    pub closed spec fn gave_way(&self) -> bool {
        self.yielded@
    }

    /// Whether the copy is still under way.
    pub fn is_active(&self) -> (b: bool)
        ensures
            b == self.active(),
    {
        self.state.is_some()
    }
}

impl<R, W> CopyInto<R, W> where R: CoreAsyncRead, W: CoreAsyncWrite<Error = R::Error> {
    /// Drives the copy: refills the buffer from the reader whenever it is
    /// empty, writes what it holds to the writer, and, once the reader is at
    /// its end and the buffer is empty, flushes the writer and resolves to
    /// the number of bytes copied, modulo 2^64.
    ///
    /// The writer is handed the bytes that sit in the buffer, `pending()`,
    /// and what it takes of them is added to `sent()`; what a read gives is
    /// added to `received()`. So the writer gets the bytes that the reader
    /// gave, each once and in the same order: what has been sent is at any
    /// time a prefix of what has been received, the rest sits in the buffer,
    /// and at the end nothing is left over.
    ///
    /// The copy resolves only after a flush that was ready. It fails only
    /// with the error of a read, a write or the flush, or, where a write of
    /// buffered bytes took none, with what
    /// `write_zero("write zero byte into writer")` gives. It is pending only
    /// where a read, a write or the flush was, or after `COPY_POLL_BUDGET`
    /// calls in one poll; in that last case the task has been woken.
    ///
    /// A poll of a copy that is over panics.
    #[verifier::rlimit(100)]
    pub fn poll(&mut self, cx: &mut Context<'_>) -> (r: Poll<(u64, R, W, Vec<u8>), R::Error>)
        requires
            old(self).active(),
        ensures
            old(self).received().is_prefix_of(final(self).received()),
            old(self).sent().is_prefix_of(final(self).sent()),
            final(self).sent().is_prefix_of(final(self).received()),
            old(self).reader_ended() ==> final(self).reader_ended(),
            old(self).reader_ended() ==> final(self).received() == old(self).received(),
            final(self).sent().len() > old(self).sent().len() ==> exists|chunk: Seq<u8>, i: usize|
                #[trigger] accounts_for_last_sent::<W>(
                    final(self).received(),
                    final(self).sent(),
                    chunk,
                    i,
                ),
            final(self).received().len() > old(self).received().len() ==> exists|
                rd0: &mut R,
                c: &mut Context<'_>,
                b: &mut [u8],
                n: usize,
            |
                R::poll_read_core.ensures(
                    (rd0, c, b),
                    Ok::<Async<usize>, R::Error>(Async::Ready(n)),
                ) && 0 < n <= final(self).received().len() && final(b)@.subrange(0, n as int)
                    == final(self).received().subrange(
                    final(self).received().len() - n,
                    final(self).received().len() as int,
                ),
            exists|calls: Seq<CopyCall<R, W, R::Error>>, end: CopyEnd<R, W, R::Error>|
                #[trigger] copy_run::<R, W, R::Error>(old(self).model(), calls, end) && (match r {
                    Ok(Async::Ready((amt, reader, writer, buf))) => end == CopyEnd::<
                        R,
                        W,
                        R::Error,
                    >::Done(amt, reader, writer, buf@),
                    Ok(Async::Pending) => end == CopyEnd::<R, W, R::Error>::Waiting(
                        final(self).model(),
                        final(self).gave_way(),
                    ),
                    Err(e) => end == CopyEnd::<R, W, R::Error>::Failed(e),
                }) && forall|k: int|
                    #[trigger] crate::read_to_end::listed(calls, k) ==> (match calls[k] {
                        CopyCall::Read(before, after, res, left) => exists|
                            rd0: &mut R,
                            c: &mut Context<'_>,
                            b: &mut [u8],
                        |
                            R::poll_read_core.ensures((rd0, c, b), res) && *rd0 == before
                                && *final(rd0) == after && b@.len() == left.len() && final(b)@
                                == left,
                        CopyCall::Write(before, after, handed, res) => exists|
                            w: &mut W,
                            c: &mut Context<'_>,
                            b: &[u8],
                        |
                            W::poll_write_core.ensures((w, c, b), res) && *w == before && *final(w) == after && b@ == handed,
                        CopyCall::Flush(before, after, res) => exists|
                            w: &mut W,
                            c: &mut Context<'_>,
                        |
                            W::poll_flush_core.ensures((w, c), res) && *w == before && *final(w)
                                == after,
                    }),
            r matches Ok(Async::Ready((amt, reader, writer, buf))) ==> {
                &&& !final(self).active()
                &&& final(self).reader_ended()
                &&& final(self).sent() == final(self).received()
                &&& amt == copy_count(final(self).sent().len())
                &&& crate::io::flush_returned::<W>(Ok::<Async<()>, W::Error>(Async::Ready(())))
            },
            r matches Ok(Async::Pending) ==> {
                &&& final(self).active()
                &&& final(self).received() == final(self).sent() + final(self).pending()
                &&& final(self).gave_way() || waited_for::<R, W>(final(self).pending())
            },
            r matches Err(e) ==> {
                &&& !final(self).active()
                &&& failed_with::<R, W>(
                    final(self).received().subrange(
                        final(self).sent().len() as int,
                        final(self).received().len() as int,
                    ),
                    e,
                )
            },
    {
        proof {
            use_type_invariant(&*self);
        }
        let mut slot: Option<Copying<R, W>> = None;
        core::mem::swap(&mut self.state, &mut slot);
        let mut st = slot.unwrap();
        let ghost mut received = self.received@;
        let ghost mut sent = self.sent@;
        let ghost was_ended = self.ended@;
        let ghost m0 = CopyModel {
            reader: st.reader,
            writer: st.writer,
            buf: st.buf@,
            progress: st.progress,
        };
        let ghost mut calls: Seq<CopyCall<R, W, R::Error>> = Seq::empty();
        let mut budget: u64 = COPY_POLL_BUDGET;
        let mut exit: Exit<R::Error> = Exit::Go;
        proof {
            reveal(copy_calls);
        }
        loop
            invariant_except_break
                exit is Go,
                calls.len() > 0 ==> copy_goes_on(calls[calls.len() - 1]),
            invariant
                m0 == old(self).model(),
                calls.len() + budget == COPY_POLL_BUDGET,
                copy_calls(
                    m0,
                    calls,
                    CopyModel {
                        reader: st.reader,
                        writer: st.writer,
                        buf: st.buf@,
                        progress: st.progress,
                    },
                ),
                forall|k: int|
                #[trigger] crate::read_to_end::listed(calls, k) ==> (match calls[k] {
                    CopyCall::Read(before, after, res, left) => exists|
                        rd0: &mut R,
                        c: &mut Context<'_>,
                        b: &mut [u8],
                    |
                        R::poll_read_core.ensures((rd0, c, b), res) && *rd0 == before
                            && *final(rd0) == after && b@.len() == left.len() && final(b)@
                            == left,
                    CopyCall::Write(before, after, handed, res) => exists|
                        w: &mut W,
                        c: &mut Context<'_>,
                        b: &[u8],
                    |
                        W::poll_write_core.ensures((w, c, b), res) && *w == before && *final(w)
                            == after && b@ == handed,
                    CopyCall::Flush(before, after, res) => exists|
                        w: &mut W,
                        c: &mut Context<'_>,
                    |
                        W::poll_flush_core.ensures((w, c), res) && *w == before && *final(w)
                            == after,
                }),
                self.state is None,
                self.received@ == old(self).received@,
                self.sent@ == old(self).sent@,
                self.ended@ == old(self).ended@,
                was_ended == old(self).ended@,
                was_ended ==> st.progress.read_done,
                was_ended ==> received == old(self).received@,
                old(self).received@.is_prefix_of(received),
                old(self).sent@.is_prefix_of(sent),
                st.progress.wf(),
                st.progress.cap <= st.buf@.len(),
                st.progress.amt == copy_count(sent.len()),
                received == sent + st.buf@.subrange(
                    st.progress.pos as int,
                    st.progress.cap as int,
                ),
                sent.len() > old(self).sent@.len() ==> exists|chunk: Seq<u8>, i: usize|
                    #[trigger] accounts_for_last_sent::<W>(received, sent, chunk, i),
                received.len() > old(self).received@.len() ==> exists|
                    rd0: &mut R,
                    c: &mut Context<'_>,
                    b: &mut [u8],
                    n: usize,
                |
                    R::poll_read_core.ensures(
                        (rd0, c, b),
                        Ok::<Async<usize>, R::Error>(Async::Ready(n)),
                    ) && 0 < n <= received.len() && final(b)@.subrange(0, n as int)
                        == received.subrange(received.len() - n, received.len() as int),
            ensures
                !(exit is Go),
                exit is Wait ==> waited_for::<R, W>(
                    st.buf@.subrange(st.progress.pos as int, st.progress.cap as int),
                ),
                exit matches Exit::Fail(e) ==> failed_with::<R, W>(
                    received.subrange(sent.len() as int, received.len() as int),
                    e,
                ),
                exit is Done ==> st.progress.read_done && st.progress.pos == st.progress.cap
                    && crate::io::flush_returned::<W>(
                    Ok::<Async<()>, W::Error>(Async::Ready(())),
                ),
                exit is Yield ==> budget == 0 && (calls.len() > 0 ==> copy_goes_on(
                    calls[calls.len() - 1],
                )),
                exit is Wait ==> calls.len() > 0 && copy_call_pending(calls[calls.len() - 1]),
                exit matches Exit::Fail(e) ==> calls.len() > 0 && copy_call_failed(
                    calls[calls.len() - 1],
                    e,
                ),
                exit is Done ==> calls.len() > 0 && (calls[calls.len() - 1] matches CopyCall::Flush(
                    before,
                    after,
                    res,
                ) && res == Ok::<Async<()>, R::Error>(Async::Ready(()))),
            decreases budget,
        {
            if budget == 0 {
                wake_task(cx);
                exit = Exit::Yield;
                break ;
            }
            budget = budget - 1;
            let ghost m1 = CopyModel {
                reader: st.reader,
                writer: st.writer,
                buf: st.buf@,
                progress: st.progress,
            };
            let ghost mut call: CopyCall<R, W, R::Error> = CopyCall::Flush(
                st.writer,
                st.writer,
                Ok(Async::Pending),
            );
            let step: Step<R::Error>;
            let flushing: bool;
            match st.progress.next_action() {
                CopyAction::Read => {
                    let ghost room = st.buf@.len();
                    let ghost received_before = received;
                    let res = st.reader.poll_read_core(cx, st.buf.as_mut_slice());
                    let ghost outcome = res;
                    proof {
                        call = CopyCall::Read(m1.reader, st.reader, outcome, st.buf@);
                    }
                    assert(crate::io::read_returned::<R>(room, outcome));
                    assert(exists|rd0: &mut R, c: &mut Context<'_>, b: &mut [u8]|
                        R::poll_read_core.ensures((rd0, c, b), outcome) && *rd0 == m1.reader
                            && *final(rd0) == st.reader && b@.len() == st.buf@.len() && final(b)@
                            == st.buf@);
                    proof {
                        assert(copy_fits(m1, call)) by {
                            reveal(copy_fits);
                        }
                        if let Ok(Async::Ready(n)) = res {
                            if n > 0 {
                                received = received + st.buf@.subrange(0, n as int);
                                assert(received.subrange(received.len() - n, received.len() as int)
                                    =~= st.buf@.subrange(0, n as int));
                                assert(received_before =~= sent);
                                if sent.len() > old(self).sent@.len() {
                                    let (chunk, i) = choose|chunk: Seq<u8>, i: usize|
                                        #[trigger] accounts_for_last_sent::<W>(
                                            received_before,
                                            sent,
                                            chunk,
                                            i,
                                        );
                                    assert(received.subrange(
                                        sent.len() - i,
                                        sent.len() - i + chunk.len(),
                                    ) =~= received_before.subrange(
                                        sent.len() - i,
                                        sent.len() - i + chunk.len(),
                                    ));
                                    assert(accounts_for_last_sent::<W>(received, sent, chunk, i));
                                }
                            }
                        }
                    }
                    step = st.progress.after_read(res);
                    flushing = false;
                    proof {
                        assert((CopyModel {
                            reader: st.reader,
                            writer: st.writer,
                            buf: st.buf@,
                            progress: st.progress,
                        }) == copy_step(m1, call)) by {
                            reveal(copy_step);
                        }
                        assert(copy_goes_on(call) <==> step is Continue) by {
                            reveal(copy_goes_on);
                        }
                        assert(step is Suspend ==> outcome == Ok::<Async<usize>, R::Error>(
                            Async::Pending,
                        ));
                        assert(step matches Step::Fail(e) ==> crate::io::read_returned::<R>(
                            room,
                            Err::<Async<usize>, R::Error>(e),
                        ));
                        assert(step matches Step::Fail(e) ==> copy_call_failed(call, e));
                    }
                },
                CopyAction::Write => {
                    let chunk = vstd::slice::slice_subrange(
                        st.buf.as_slice(),
                        st.progress.pos,
                        st.progress.cap,
                    );
                    let ghost handed = chunk@;
                    let res = st.writer.poll_write_core(cx, chunk);
                    let ghost outcome = res;
                    proof {
                        call = CopyCall::Write(m1.writer, st.writer, handed, outcome);
                    }
                    assert(crate::io::write_returned::<W>(handed, outcome));
                    assert(exists|w: &mut W, c: &mut Context<'_>, b: &[u8]|
                        W::poll_write_core.ensures((w, c, b), outcome) && *w == m1.writer
                            && *final(w) == st.writer && b@ == handed);
                    assert(handed =~= received.subrange(sent.len() as int, received.len() as int));
                    proof {
                        assert(copy_fits(m1, call)) by {
                            reveal(copy_fits);
                        }
                        if let Ok(Async::Ready(i)) = res {
                            if i > 0 {
                                let taken = st.buf@.subrange(
                                    st.progress.pos as int,
                                    st.progress.pos + i,
                                );
                                assert(handed =~= received.subrange(
                                    sent.len() as int,
                                    (sent.len() + handed.len()) as int,
                                ));
                                sent = sent + taken;
                                assert(accounts_for_last_sent::<W>(received, sent, handed, i));
                            }
                        }
                    }
                    step = st.progress.after_write(res);
                    flushing = false;
                    proof {
                        assert((CopyModel {
                            reader: st.reader,
                            writer: st.writer,
                            buf: st.buf@,
                            progress: st.progress,
                        }) == copy_step(m1, call)) by {
                            reveal(copy_step);
                        }
                        assert(copy_goes_on(call) <==> step is Continue) by {
                            reveal(copy_goes_on);
                        }
                        assert(step is Suspend ==> outcome == Ok::<Async<usize>, R::Error>(
                            Async::Pending,
                        ) && handed == st.buf@.subrange(
                            st.progress.pos as int,
                            st.progress.cap as int,
                        ));
                        assert(step matches Step::Fail(e) ==> copy_write_failed_with::<W>(
                            received.subrange(sent.len() as int, received.len() as int),
                            e,
                        ));
                        assert(step matches Step::Fail(e) ==> copy_call_failed(call, e));
                    }
                },
                CopyAction::Flush => {
                    let res = st.writer.poll_flush_core(cx);
                    let ghost outcome = res;
                    proof {
                        call = CopyCall::Flush(m1.writer, st.writer, outcome);
                    }
                    assert(crate::io::flush_returned::<W>(outcome));
                    assert(exists|w: &mut W, c: &mut Context<'_>|
                        W::poll_flush_core.ensures((w, c), outcome) && *w == m1.writer && *final(w)
                            == st.writer);
                    step = Step::of_unit(res);
                    flushing = true;
                    proof {
                        assert(copy_fits(m1, call)) by {
                            reveal(copy_fits);
                        }
                        assert((CopyModel {
                            reader: st.reader,
                            writer: st.writer,
                            buf: st.buf@,
                            progress: st.progress,
                        }) == copy_step(m1, call)) by {
                            reveal(copy_step);
                        }
                        if let Ok(Async::Ready(unit)) = outcome {
                            assert(unit == ());
                            assert(outcome == Ok::<Async<()>, W::Error>(Async::Ready(())));
                        }
                        assert(step is Suspend ==> outcome == Ok::<Async<()>, R::Error>(
                            Async::Pending,
                        ));
                        assert(step matches Step::Fail(e) ==> crate::io::flush_returned::<W>(
                            Err::<Async<()>, W::Error>(e),
                        ));
                        assert(step matches Step::Fail(e) ==> copy_call_failed(call, e));
                    }
                },
            }
            proof {
                lemma_copy_push(m0, calls, m1, call);
                let k = calls.len() as int;
                let old_calls = calls;
                calls = calls.push(call);
                assert forall|j: int| #[trigger]
                    crate::read_to_end::listed(calls, j) implies (match calls[j] {
                    CopyCall::Read(before, after, res, left) => exists|
                        rd0: &mut R,
                        c: &mut Context<'_>,
                        b: &mut [u8],
                    |
                        R::poll_read_core.ensures((rd0, c, b), res) && *rd0 == before && *final(rd0)
                            == after && b@.len() == left.len() && final(b)@ == left,
                    CopyCall::Write(before, after, handed, res) => exists|
                        w: &mut W,
                        c: &mut Context<'_>,
                        b: &[u8],
                    |
                        W::poll_write_core.ensures((w, c, b), res) && *w == before && *final(w)
                            == after && b@ == handed,
                    CopyCall::Flush(before, after, res) => exists|
                        w: &mut W,
                        c: &mut Context<'_>,
                    |
                        W::poll_flush_core.ensures((w, c), res) && *w == before && *final(w)
                            == after,
                }) by {
                    if j < k {
                        assert(crate::read_to_end::listed(old_calls, j));
                        assert(calls[j] == old_calls[j]);
                    } else {
                        assert(calls[j] == call);
                    }
                }
                assert(step is Suspend ==> copy_call_pending(call));
            }
            match step {
                Step::Continue => {
                    if flushing {
                        exit = Exit::Done;
                        break ;
                    }
                },
                Step::Suspend => {
                    exit = Exit::Wait;
                    break ;
                },
                Step::Fail(e) => {
                    let ghost e0 = e;
                    exit = Exit::Fail(e);
                    assert(exit matches Exit::Fail(e2) ==> e2 == e0);
                    break ;
                },
            }
        }
        self.received = Ghost(received);
        self.sent = Ghost(sent);
        self.ended = Ghost(st.progress.read_done);
        let ghost fm = CopyModel {
            reader: st.reader,
            writer: st.writer,
            buf: st.buf@,
            progress: st.progress,
        };
        let ghost n = calls.len() as int;
        assert(copy_calls(m0, calls, fm));
        let out = match exit {
            Exit::Done => {
                self.yielded = Ghost(false);
                assert(sent =~= received);
                Ok(Async::Ready((st.progress.amt, st.reader, st.writer, st.buf)))
            },
            Exit::Fail(e) => {
                self.yielded = Ghost(false);
                Err(e)
            },
            Exit::Wait => {
                self.yielded = Ghost(false);
                self.state = Some(st);
                Ok(Async::Pending)
            },
            _ => {
                self.yielded = Ghost(true);
                self.state = Some(st);
                Ok(Async::Pending)
            },
        };
        let ghost seen = out;
        proof {
            if sent.len() > old(self).sent@.len() {
                let (chunk, i) = choose|chunk: Seq<u8>, i: usize| #[trigger]
                    accounts_for_last_sent::<W>(received, sent, chunk, i);
                assert(accounts_for_last_sent::<W>(self.received(), self.sent(), chunk, i));
            }
            let end = match seen {
                Ok(Async::Ready((amt, reader, writer, buf))) => CopyEnd::<
                    R,
                    W,
                    R::Error,
                >::Done(amt, reader, writer, buf@),
                Ok(Async::Pending) => CopyEnd::<R, W, R::Error>::Waiting(
                    self.model(),
                    self.gave_way(),
                ),
                Err(e) => CopyEnd::<R, W, R::Error>::Failed(e),
            };
            match end {
                CopyEnd::Done(amt, reader, writer, buf) => {
                    assert(n > 0);
                    assert(fm == (CopyModel { reader, writer, buf, progress: fm.progress }));
                    assert(copy_calls(
                        m0,
                        calls,
                        CopyModel { reader, writer, buf, progress: fm.progress },
                    ) && fm.progress.amt == amt);
                },
                CopyEnd::Waiting(m, gave_way) => {
                    assert(m == fm);
                    assert(copy_calls(m0, calls, m));
                },
                CopyEnd::Failed(e) => {
                    assert(n > 0);
                    assert(copy_calls(m0, calls, fm));
                },
            }
            assert(copy_run::<R, W, R::Error>(m0, calls, end));
        }
        out
    }
}

} // verus!
