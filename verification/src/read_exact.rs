//! Reading until a buffer is full.

use vstd::prelude::*;
use futures_core::{Async, Poll};
use futures_core::task::Context;
use crate::error::CoreIoError;
use crate::io::CoreAsyncRead;
use crate::step::Step;

verus! {

/// How far a buffer of `len` bytes has been filled.
#[derive(Clone, Copy, Debug)]
pub struct ReadExactProgress {
    /// The number of bytes read so far.
    pub pos: usize,
    /// The number of bytes wanted.
    pub len: usize,
}

impl ReadExactProgress {
    /// No more has been read than was wanted.
    pub open spec fn wf(self) -> bool {
        self.pos <= self.len
    }

    /// Whether `next` and `step` are the progress and the step after a
    /// read into the unfilled rest of the buffer has returned `res`: a read
    /// of zero bytes is an early end of the stream, and fails with what
    /// `E::unexpected_eof("early eof")` gives; any other count moves the
    /// position on.
    pub open spec fn after_read_spec<E: CoreIoError>(
        self,
        res: Poll<usize, E>,
        next: ReadExactProgress,
        step: Step<E>,
    ) -> bool {
        match res {
            Ok(Async::Ready(n)) => if n == 0 {
                &&& next == self
                &&& step matches Step::Fail(e)
                &&& E::unexpected_eof.ensures(("early eof",), e)
            } else {
                &&& next == (ReadExactProgress { pos: (self.pos + n) as usize, len: self.len })
                &&& step == Step::<E>::Continue
            },
            Ok(Async::Pending) => next == self && step == Step::<E>::Suspend,
            Err(e) => next == self && step == Step::Fail(e),
        }
    }

    /// A read of zero bytes into a buffer that is not full ends the
    /// operation: the step is to fail, with an error that
    /// `E::unexpected_eof("early eof")` gives, and never to go on.
    pub proof fn lemma_early_end_is_fatal<E: CoreIoError>(
        self,
        next: ReadExactProgress,
        step: Step<E>,
    )
        requires
            self.after_read_spec::<E>(Ok(Async::Ready(0)), next, step),
        ensures
            step matches Step::Fail(e) && E::unexpected_eof.ensures(("early eof",), e),
            !(step is Continue),
            next == self,
    {
    }

    /// A reader that is not ready suspends the operation at once and leaves
    /// the progress as it is, so that the next poll goes on from there.
    pub proof fn lemma_pending_suspends<E: CoreIoError>(
        self,
        next: ReadExactProgress,
        step: Step<E>,
    )
        requires
            self.after_read_spec::<E>(Ok(Async::Pending), next, step),
        ensures
            step is Suspend,
            next == self,
    {
    }

    /// Nothing read yet, `len` bytes wanted.
    pub fn new(len: usize) -> (p: ReadExactProgress)
        ensures
            p == (ReadExactProgress { pos: 0, len }),
    {
        ReadExactProgress { pos: 0, len }
    }

    /// Whether the buffer is full.
    pub fn is_full(&self) -> (b: bool)
        ensures
            b == (self.pos >= self.len),
    {
        self.pos >= self.len
    }

    /// Takes in the outcome of a read into the unfilled rest of the buffer.
    pub fn after_read<E: CoreIoError>(&mut self, res: Poll<usize, E>) -> (s: Step<E>)
        requires
            old(self).wf(),
            res matches Ok(Async::Ready(n)) ==> n <= old(self).len - old(self).pos,
        ensures
            old(self).after_read_spec(res, *final(self), s),
    {
        match res {
            Ok(Async::Ready(n)) => {
                if n == 0 {
                    Step::Fail(E::unexpected_eof("early eof"))
                } else {
                    self.pos = self.pos + n;
                    Step::Continue
                }
            },
            Ok(Async::Pending) => Step::Suspend,
            Err(e) => Step::Fail(e),
        }
    }
}

/// Whether the error `e` is what a read into a rest of `room` bytes makes of
/// the operation: the read failed with `e`, or it gave zero bytes and `e` is
/// what `unexpected_eof("early eof")` gives.
pub open spec fn read_failed_with<A: CoreAsyncRead>(room: nat, e: A::Error) -> bool {
    crate::io::read_returned::<A>(room, Err::<Async<usize>, A::Error>(e)) || (
    crate::io::read_returned::<A>(room, Ok::<Async<usize>, A::Error>(Async::Ready(0)))
        && A::Error::unexpected_eof.ensures(("early eof",), e))
}

/// How one poll of a read-exact has ended.
pub enum ReadExactEnd<A: CoreAsyncRead> {
    /// The buffer is full: the reader and what the buffer holds.
    Done(A, Seq<u8>),
    /// A read was not ready: the reader and the bytes read so far.
    Waiting(A, Seq<u8>),
    /// The operation has failed with this error.
    Failed(A::Error),
}

/// Whether the reads listed are reads that a read-exact makes one after the
/// other into a buffer of `capacity` bytes that held the data `data0`: read
/// `k` found the reader as `befores[k]`, left it as `afters[k]`, was handed
/// `rooms[k]` bytes, returned `results[k]` and left `lefts[k]` in them.
///
/// The first read finds the reader as `first`, each further read finds it as
/// the read before left it, and the last read leaves it as `last`. Each read
/// is handed the whole rest of the buffer behind the data read so far, and
/// that rest is not empty. Every read but the last gave data and left a
/// rest. The data read after all of them is `data1`: `data0` and behind it
/// what the reads gave.
#[verifier::opaque]
pub open spec fn read_exact_reads<A: CoreAsyncRead>(
    first: A,
    last: A,
    befores: Seq<A>,
    afters: Seq<A>,
    rooms: Seq<nat>,
    results: Seq<Poll<usize, A::Error>>,
    lefts: Seq<Seq<u8>>,
    data0: Seq<u8>,
    data1: Seq<u8>,
    capacity: nat,
) -> bool {
    let n = results.len() as int;
    &&& befores.len() == n
    &&& afters.len() == n
    &&& rooms.len() == n
    &&& lefts.len() == n
    &&& n == 0 ==> first == last
    &&& n > 0 ==> befores[0] == first && afters[n - 1] == last
    &&& forall|k: int| 0 < k < n ==> #[trigger] befores[k] == afters[k - 1]
    &&& forall|k: int|
        0 <= k < n ==> #[trigger] rooms[k] > 0 && rooms[k] + crate::read_to_end::data_after(
            data0,
            results,
            lefts,
            k,
        ).len() == capacity
    &&& forall|k: int|
        0 <= k < n - 1 ==> (#[trigger] results[k] matches Ok(Async::Ready(m)) && 0 < m
            < rooms[k])
    &&& data1 == crate::read_to_end::data_after(data0, results, lefts, n)
}

/// Whether one poll of a read-exact that ended as `end` is the run of the
/// reads listed, as in [`read_exact_reads`].
///
/// With a buffer that was full there is no read, and the poll is done with
/// the reader and the buffer as they were. Else the last read decides: if
/// it filled the rest the poll is done, with the reader as that read left
/// it and the buffer holding all the data; if it was pending the poll
/// waits; if it failed the poll fails with the same error; and if it gave
/// zero bytes the poll fails with what `unexpected_eof("early eof")` gives.
pub open spec fn read_exact_run<A: CoreAsyncRead>(
    first: A,
    befores: Seq<A>,
    afters: Seq<A>,
    rooms: Seq<nat>,
    results: Seq<Poll<usize, A::Error>>,
    lefts: Seq<Seq<u8>>,
    data0: Seq<u8>,
    capacity: nat,
    end: ReadExactEnd<A>,
) -> bool {
    let n = results.len() as int;
    match end {
        ReadExactEnd::Done(a, buf) => {
            &&& read_exact_reads(
                first,
                a,
                befores,
                afters,
                rooms,
                results,
                lefts,
                data0,
                buf,
                capacity,
            )
            &&& buf.len() == capacity
            &&& n > 0 ==> (results[n - 1] matches Ok(Async::Ready(m)) && m == rooms[n - 1])
        },
        ReadExactEnd::Waiting(a, data) => {
            &&& n > 0
            &&& read_exact_reads(
                first,
                a,
                befores,
                afters,
                rooms,
                results,
                lefts,
                data0,
                data,
                capacity,
            )
            &&& results[n - 1] == Ok::<Async<usize>, A::Error>(Async::Pending)
        },
        ReadExactEnd::Failed(e) => {
            &&& n > 0
            &&& exists|a: A, data: Seq<u8>| #[trigger]
                read_exact_reads(
                    first,
                    a,
                    befores,
                    afters,
                    rooms,
                    results,
                    lefts,
                    data0,
                    data,
                    capacity,
                )
            &&& match results[n - 1] {
                Ok(Async::Ready(m)) => m == 0 && A::Error::unexpected_eof.ensures(
                    ("early eof",),
                    e,
                ),
                Ok(Async::Pending) => false,
                Err(e2) => e2 == e,
            }
        },
    }
}

/// Reads that gave data and left a rest, followed by one more read of the
/// rest, are reads of a read-exact again.
pub proof fn lemma_read_exact_push<A: CoreAsyncRead>(
    first: A,
    before: A,
    after: A,
    befores: Seq<A>,
    afters: Seq<A>,
    rooms: Seq<nat>,
    results: Seq<Poll<usize, A::Error>>,
    lefts: Seq<Seq<u8>>,
    res: Poll<usize, A::Error>,
    left: Seq<u8>,
    data0: Seq<u8>,
    data1: Seq<u8>,
    capacity: nat,
)
    requires
        read_exact_reads(
            first,
            before,
            befores,
            afters,
            rooms,
            results,
            lefts,
            data0,
            data1,
            capacity,
        ),
        forall|k: int|
            0 <= k < results.len() ==> (#[trigger] results[k] matches Ok(Async::Ready(m)) && 0
                < m < rooms[k]),
        data1.len() < capacity,
    ensures
        read_exact_reads(
            first,
            after,
            befores.push(before),
            afters.push(after),
            rooms.push((capacity - data1.len()) as nat),
            results.push(res),
            lefts.push(left),
            data0,
            data1 + crate::read_to_end::read_gave(res, left),
            capacity,
        ),
{
    reveal(read_exact_reads);
    let n = results.len() as int;
    let results2 = results.push(res);
    let lefts2 = lefts.push(left);
    assert forall|k: int| 0 <= k <= n implies crate::read_to_end::data_after(
        data0,
        results2,
        lefts2,
        k,
    ) == crate::read_to_end::data_after(data0, results, lefts, k) by {
        crate::read_to_end::lemma_data_after_push(data0, results, lefts, res, left, k);
    }
    assert(crate::read_to_end::data_after(data0, results2, lefts2, n + 1)
        == crate::read_to_end::data_after(data0, results2, lefts2, n)
        + crate::read_to_end::read_gave(results2[n], lefts2[n]));
    let befores2 = befores.push(before);
    let afters2 = afters.push(after);
    let rooms2 = rooms.push((capacity - data1.len()) as nat);
    assert forall|k: int| 0 < k < n + 1 implies #[trigger] befores2[k] == afters2[k - 1] by {
        if k < n {
            assert(befores[k] == afters[k - 1]);
        }
    }
    assert forall|k: int| 0 <= k < n + 1 implies #[trigger] rooms2[k] > 0 && rooms2[k]
        + crate::read_to_end::data_after(data0, results2, lefts2, k).len() == capacity by {
        if k < n {
            assert(rooms[k] > 0);
        }
    }
    assert forall|k: int| 0 <= k < n implies (#[trigger] results2[k] matches Ok(
        Async::Ready(m),
    ) && 0 < m < rooms2[k]) by {
        assert(results[k] matches Ok(Async::Ready(m)) && 0 < m < rooms[k]);
    }
}

#[derive(Debug)]
struct Reading<A> {
    a: A,
    buf: Vec<u8>,
    progress: ReadExactProgress,
}

/// Reads from a reader until a buffer is full, and then hands back both.
///
/// Made by [`read_exact`].
#[derive(Debug)]
pub struct ReadExact<A> {
    state: Option<Reading<A>>,
}

/// Starts to fill `buf` from `a`.
pub fn read_exact<A: CoreAsyncRead>(a: A, buf: Vec<u8>) -> (r: ReadExact<A>)
    ensures
        r.active(),
        r.capacity() == buf@.len(),
        r.data() == Seq::<u8>::empty(),
        r.reader() == a,
{
    let len = buf.len();
    ReadExact { state: Some(Reading { a, buf, progress: ReadExactProgress::new(len) }) }
}

impl<A> ReadExact<A> {
    #[verifier::type_invariant]
    spec fn inv(self) -> bool {
        match self.state {
            Some(st) => st.progress.wf() && st.progress.len == st.buf@.len(),
            None => true,
        }
    }

    /// Whether the operation is still under way: it has neither finished
    /// nor failed.
    pub closed spec fn active(&self) -> bool {
        self.state is Some
    }

    /// The size of the buffer that is being filled; 0 once the operation is
    /// over.
    pub closed spec fn capacity(&self) -> nat {
        match self.state {
            Some(st) => st.buf@.len(),
            None => 0,
        }
    }

    /// The bytes read so far: the filled head of the buffer. Empty once the
    /// operation is over.
    pub closed spec fn data(&self) -> Seq<u8> {
        match self.state {
            Some(st) => st.buf@.subrange(0, st.progress.pos as int),
            None => Seq::empty(),
        }
    }

    /// The reader, while the operation is under way.
    pub closed spec fn reader(&self) -> A
        recommends
            self.active(),
    {
        self.state->0.a
    }

    /// Whether the operation is still under way.
    pub fn is_active(&self) -> (b: bool)
        ensures
            b == self.active(),
    {
        self.state.is_some()
    }
}

impl<A: CoreAsyncRead> ReadExact<A> {
    /// Reads into the unfilled rest of the buffer until it is full, the
    /// reader is not ready, or the operation fails.
    ///
    /// A buffer that is full already is handed back at once, and the reader
    /// is not asked. Else the buffer is handed back only once a read has
    /// filled the last of it. The poll is pending only where a read of the
    /// rest was; it fails only with the error of a read, or, where a read of
    /// a rest that was not empty gave zero bytes, with what
    /// `unexpected_eof("early eof")` gives. What has been read stays where
    /// it is while the operation goes on.
    ///
    /// A poll of an operation that is over panics.
    #[verifier::rlimit(50)]
    pub fn poll(&mut self, cx: &mut Context<'_>) -> (r: Poll<(A, Vec<u8>), A::Error>)
        requires
            old(self).active(),
        ensures
            old(self).data().len() == old(self).capacity() ==> r is Ok && r->Ok_0 is Ready,
            exists|
                befores: Seq<A>,
                afters: Seq<A>,
                rooms: Seq<nat>,
                results: Seq<Poll<usize, A::Error>>,
                lefts: Seq<Seq<u8>>,
                end: ReadExactEnd<A>,
            |
                #[trigger] read_exact_run::<A>(
                    old(self).reader(),
                    befores,
                    afters,
                    rooms,
                    results,
                    lefts,
                    old(self).data(),
                    old(self).capacity(),
                    end,
                ) && (match r {
                    Ok(Async::Ready((a, buf))) => end == ReadExactEnd::Done(a, buf@),
                    Ok(Async::Pending) => end == ReadExactEnd::Waiting(
                        final(self).reader(),
                        final(self).data(),
                    ),
                    Err(e) => end == ReadExactEnd::<A>::Failed(e),
                }) && forall|k: int|
                    #[trigger] crate::read_to_end::listed(results, k) ==> exists|
                        rd0: &mut A,
                        c: &mut Context<'_>,
                        b: &mut [u8],
                    |
                        A::poll_read_core.ensures((rd0, c, b), results[k]) && *rd0 == befores[k]
                            && *final(rd0) == afters[k] && b@.len() == rooms[k] && final(b)@
                            == lefts[k],
            r matches Ok(Async::Ready((a, buf))) ==> {
                &&& !final(self).active()
                &&& buf@.len() == old(self).capacity()
                &&& buf@.subrange(0, old(self).data().len() as int) == old(self).data()
                &&& old(self).data().len() == old(self).capacity() || exists|n: usize|
                    n > 0 && crate::io::read_returned::<A>(
                        n as nat,
                        Ok::<Async<usize>, A::Error>(Async::Ready(n)),
                    )
            },
            r matches Ok(Async::Pending) ==> {
                &&& final(self).active()
                &&& final(self).capacity() == old(self).capacity()
                &&& final(self).data().len() < final(self).capacity()
                &&& old(self).data().len() <= final(self).data().len()
                &&& final(self).data().subrange(0, old(self).data().len() as int) == old(
                    self,
                ).data()
                &&& crate::io::read_returned::<A>(
                    (final(self).capacity() - final(self).data().len()) as nat,
                    Ok::<Async<usize>, A::Error>(Async::Pending),
                )
            },
            r matches Err(e) ==> {
                &&& !final(self).active()
                &&& exists|room: nat|
                    0 < room <= old(self).capacity() - old(self).data().len()
                        && #[trigger] read_failed_with::<A>(room, e)
            },
    {
        proof {
            use_type_invariant(&*self);
        }
        let mut slot: Option<Reading<A>> = None;
        core::mem::swap(&mut self.state, &mut slot);
        let mut st = slot.unwrap();
        let ghost before = st.buf@.subrange(0, st.progress.pos as int);
        let ghost first = st.a;
        let ghost mut last: Option<(nat, usize)> = None;
        let ghost mut befores: Seq<A> = Seq::empty();
        let ghost mut afters: Seq<A> = Seq::empty();
        let ghost mut rooms: Seq<nat> = Seq::empty();
        let ghost mut results: Seq<Poll<usize, A::Error>> = Seq::empty();
        let ghost mut lefts: Seq<Seq<u8>> = Seq::empty();
        proof {
            reveal(read_exact_reads);
        }
        while !st.progress.is_full()
            invariant
                st.progress.wf(),
                st.progress.len == st.buf@.len(),
                before.len() <= st.progress.pos,
                before == old(self).data(),
                first == old(self).reader(),
                st.progress.len == old(self).capacity(),
                st.buf@.subrange(0, before.len() as int) == before,
                self.state is None,
                last is None ==> st.progress.pos == before.len(),
                last matches Some((room, n)) ==> n > 0 && room == st.progress.len - (
                st.progress.pos - n) && crate::io::read_returned::<A>(
                    room,
                    Ok::<Async<usize>, A::Error>(Async::Ready(n)),
                ),
                last is None <==> results.len() == 0,
                last matches Some((room, n)) ==> results.len() > 0 && results[results.len() - 1]
                    == Ok::<Async<usize>, A::Error>(Async::Ready(n)) && rooms[results.len() - 1]
                    == room,
                read_exact_reads::<A>(
                    first,
                    st.a,
                    befores,
                    afters,
                    rooms,
                    results,
                    lefts,
                    before,
                    st.buf@.subrange(0, st.progress.pos as int),
                    st.progress.len as nat,
                ),
                befores.len() == results.len(),
                afters.len() == results.len(),
                rooms.len() == results.len(),
                lefts.len() == results.len(),
                forall|k: int|
                    0 <= k < results.len() - 1 ==> (#[trigger] results[k] matches Ok(
                        Async::Ready(m),
                    ) && 0 < m < rooms[k]),
                results.len() > 0 && st.progress.pos < st.progress.len ==> (results[results.len()
                    - 1] matches Ok(Async::Ready(m)) && 0 < m < rooms[results.len() - 1]),
                forall|k: int|
                    #[trigger] crate::read_to_end::listed(results, k) ==> exists|
                        rd0: &mut A,
                        c: &mut Context<'_>,
                        b: &mut [u8],
                    |
                        A::poll_read_core.ensures((rd0, c, b), results[k]) && *rd0 == befores[k]
                            && *final(rd0) == afters[k] && b@.len() == rooms[k] && final(b)@
                            == lefts[k],
            decreases st.progress.len - st.progress.pos,
        {
            let ghost room = (st.progress.len - st.progress.pos) as nat;
            let ghost a_before = st.a;
            let ghost data = st.buf@.subrange(0, st.progress.pos as int);
            let ghost pos_before = st.progress.pos;
            let (_head, tail) = st.buf.as_mut_slice().split_at_mut(st.progress.pos);
            let res = st.a.poll_read_core(cx, tail);
            let ghost a_after = st.a;
            let ghost outcome = res;
            let ghost left_there = st.buf@.subrange(pos_before as int, st.buf@.len() as int);
            assert(crate::io::read_returned::<A>(room, outcome));
            assert(exists|rd0: &mut A, c: &mut Context<'_>, b: &mut [u8]|
                A::poll_read_core.ensures((rd0, c, b), outcome) && *rd0 == a_before && *final(rd0)
                    == a_after && b@.len() == room && final(b)@ == left_there);
            assert(st.buf@.subrange(0, pos_before as int) =~= data);
            proof {
                assert forall|k: int| 0 <= k < results.len() implies (#[trigger] results[k] matches Ok(
                    Async::Ready(m),
                ) && 0 < m < rooms[k]) by {
                    if k == results.len() - 1 {
                    }
                }
                lemma_read_exact_push::<A>(
                    first,
                    a_before,
                    a_after,
                    befores,
                    afters,
                    rooms,
                    results,
                    lefts,
                    outcome,
                    left_there,
                    before,
                    data,
                    st.progress.len as nat,
                );
                let k = results.len() as int;
                let old_results = results;
                let old_befores = befores;
                let old_afters = afters;
                let old_rooms = rooms;
                let old_lefts = lefts;
                befores = befores.push(a_before);
                afters = afters.push(a_after);
                rooms = rooms.push(room);
                results = results.push(outcome);
                lefts = lefts.push(left_there);
                assert forall|j: int| #[trigger]
                    crate::read_to_end::listed(results, j) implies exists|
                    rd0: &mut A,
                    c: &mut Context<'_>,
                    b: &mut [u8],
                |
                    A::poll_read_core.ensures((rd0, c, b), results[j]) && *rd0 == befores[j]
                        && *final(rd0) == afters[j] && b@.len() == rooms[j] && final(b)@
                        == lefts[j] by {
                    if j < k {
                        assert(crate::read_to_end::listed(old_results, j));
                        assert(results[j] == old_results[j]);
                        assert(befores[j] == old_befores[j]);
                        assert(afters[j] == old_afters[j]);
                        assert(rooms[j] == old_rooms[j]);
                        assert(lefts[j] == old_lefts[j]);
                    } else {
                        assert(results[j] == outcome);
                        assert(befores[j] == a_before);
                        assert(afters[j] == a_after);
                        assert(rooms[j] == room);
                        assert(lefts[j] == left_there);
                    }
                }
            }
            match st.progress.after_read(res) {
                Step::Continue => {
                    proof {
                        if let Ok(Async::Ready(n)) = outcome {
                            last = Some((room, n));
                            assert(st.buf@.subrange(0, st.progress.pos as int) =~= data
                                + crate::read_to_end::read_gave(outcome, left_there));
                        }
                    }
                },
                Step::Suspend => {
                    assert(crate::read_to_end::read_gave(outcome, left_there) =~= Seq::<u8>::empty());
                    assert(data + Seq::<u8>::empty() =~= data);
                    self.state = Some(st);
                    assert(self.data() =~= data);
                    assert(read_exact_run::<A>(
                        first,
                        befores,
                        afters,
                        rooms,
                        results,
                        lefts,
                        before,
                        old(self).capacity(),
                        ReadExactEnd::Waiting(self.reader(), self.data()),
                    ));
                    return Ok(Async::Pending);
                },
                Step::Fail(e) => {
                    let ghost e0 = e;
                    assert(read_failed_with::<A>(room, e0));
                    assert(read_exact_run::<A>(
                        first,
                        befores,
                        afters,
                        rooms,
                        results,
                        lefts,
                        before,
                        old(self).capacity(),
                        ReadExactEnd::Failed(e0),
                    ));
                    let out: Poll<(A, Vec<u8>), A::Error> = Err(e);
                    assert(out matches Err(e2) ==> e2 == e0);
                    assert(out matches Err(e2) ==> read_failed_with::<A>(room, e2));
                    return out;
                },
            }
        }
        assert(st.buf@.subrange(0, st.progress.pos as int) =~= st.buf@);
        assert(read_exact_run::<A>(
            first,
            befores,
            afters,
            rooms,
            results,
            lefts,
            before,
            old(self).capacity(),
            ReadExactEnd::Done(st.a, st.buf@),
        ));
        Ok(Async::Ready((st.a, st.buf)))
    }
}

} // verus!
