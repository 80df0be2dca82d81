//! Reading until the end of a stream.

use vstd::prelude::*;
use futures_core::{Async, Poll};
use futures_core::task::Context;
use crate::initializer::Initializer;
use crate::io::CoreAsyncRead;
use crate::read_buf::{ReadBuf, ReadBufView};

verus! {

/// The number of bytes by which the vector grows when it has no room left.
pub const READ_TO_END_GROWTH: usize = 32;

/// What a reader that is handed the unfilled part of a cursor finds there:
/// the part as it was, zeroed first as far as it was not initialized where
/// the reader asks for zeroed buffers.
pub open spec fn handed_to_reader(before: ReadBufView, zeroed: bool) -> Seq<u8> {
    if zeroed {
        before.zeroed_to(before.capacity()).unfilled_bytes()
    } else {
        before.unfilled_bytes()
    }
}

/// Where the initialized mark of a cursor stands after one read into its
/// unfilled part: at the end of the region where the region was zeroed for
/// the reader, and else where it stood or at the new filled mark,
/// whichever is further on.
pub open spec fn initialized_after_read(
    before: ReadBufView,
    after: ReadBufView,
    zeroed: bool,
) -> bool {
    if zeroed {
        after.initialized == before.capacity()
    } else {
        after.initialized == if after.filled > before.initialized {
            after.filled
        } else {
            before.initialized
        }
    }
}

/// Reads once from `rd` into the unfilled part of `rb`, and counts what was
/// read as filled.
///
/// The reader says through `initializer_core` whether it needs zeroed
/// buffers; the read itself is that of [`poll_read_buf_with`], and so is
/// the outcome.
pub fn poll_read_buf<R: CoreAsyncRead + ?Sized>(
    rd: &mut R,
    cx: &mut Context<'_>,
    rb: &mut ReadBuf<'_>,
) -> (r: Poll<(), R::Error>)
    requires
        old(rb).wf(),
    ensures
        final(rb).wf(),
        final(rb)@.capacity() == old(rb)@.capacity(),
        final(rb)@.initialized >= old(rb)@.initialized,
        final(rb)@.mem.subrange(0, old(rb)@.filled as int) == old(rb)@.filled_bytes(),
        exists|
            init: Initializer,
            rd0: &mut R,
            c: &mut Context<'_>,
            b: &mut [u8],
            res: Poll<usize, R::Error>,
        |
            R::initializer_core.ensures((&*old(rd),), init) && R::poll_read_core.ensures(
                (rd0, c, b),
                res,
            ) && &*rd0 == &*old(rd) && &*final(rd0) == &*final(rd) && b@ == handed_to_reader(
                old(rb)@,
                init.zeroes(),
            ) && final(rb)@.mem == old(
                rb,
            )@.filled_bytes() + final(b)@ && initialized_after_read(
                old(rb)@,
                final(rb)@,
                init.zeroes(),
            ) && (match res {
                Ok(Async::Ready(n)) => r == Ok::<Async<()>, R::Error>(Async::Ready(()))
                    && final(rb)@.filled == old(rb)@.filled + n,
                Ok(Async::Pending) => r == Ok::<Async<()>, R::Error>(Async::Pending)
                    && final(rb)@.filled == old(rb)@.filled,
                Err(e) => r == Err::<Async<()>, R::Error>(e) && final(rb)@.filled == old(
                    rb,
                )@.filled,
            }),
        final(final(rb).buf)@ == final(old(rb).buf)@,
{
    let init = rd.initializer_core();
    poll_read_buf_with(rd, cx, rb, &init)
}

/// Reads once from `rd` into the unfilled part of `rb`, and counts what was
/// read as filled, for a reader whose initializer is `init`.
///
/// Where `init` zeroes, the unfilled part is zeroed as far as it was not
/// initialized before, and all of the region is initialized afterwards,
/// whatever the reader returns. Where it does not, the reader gets the
/// unfilled part as it is, and what it reports as read counts as initialized
/// from then on, and no more than that. The filled bytes stay as they are.
///
/// The outcome is that of the one read: a count that the reader gives moves
/// the filled mark on by exactly that count; where the reader is not ready
/// or fails, the call is pending or fails with the same error, and the
/// filled mark stays.
pub fn poll_read_buf_with<R: CoreAsyncRead + ?Sized>(
    rd: &mut R,
    cx: &mut Context<'_>,
    rb: &mut ReadBuf<'_>,
    init: &Initializer,
) -> (r: Poll<(), R::Error>)
    requires
        old(rb).wf(),
    ensures
        final(rb).wf(),
        final(rb)@.capacity() == old(rb)@.capacity(),
        final(rb)@.initialized >= old(rb)@.initialized,
        final(rb)@.mem.subrange(0, old(rb)@.filled as int) == old(rb)@.filled_bytes(),
        initialized_after_read(old(rb)@, final(rb)@, init.zeroes()),
        exists|rd0: &mut R, c: &mut Context<'_>, b: &mut [u8], res: Poll<usize, R::Error>|
            R::poll_read_core.ensures((rd0, c, b), res) && &*rd0 == &*old(rd) && &*final(rd0)
                == &*final(rd) && b@ == handed_to_reader(old(rb)@, init.zeroes())
                && final(rb)@.mem == old(rb)@.filled_bytes() + final(b)@ && (match res {
                Ok(Async::Ready(n)) => r == Ok::<Async<()>, R::Error>(Async::Ready(()))
                    && final(rb)@.filled == old(rb)@.filled + n,
                Ok(Async::Pending) => r == Ok::<Async<()>, R::Error>(Async::Pending)
                    && final(rb)@.filled == old(rb)@.filled,
                Err(e) => r == Err::<Async<()>, R::Error>(e) && final(rb)@.filled == old(
                    rb,
                )@.filled,
            }),
        final(final(rb).buf)@ == final(old(rb).buf)@,
{
    if init.should_initialize() {
        let dst = rb.initialize_unfilled();
        let res = rd.poll_read_core(cx, dst);
        match res {
            Ok(Async::Ready(n)) => {
                rb.add_filled(n);
                Ok(Async::Ready(()))
            },
            Ok(Async::Pending) => Ok(Async::Pending),
            Err(e) => Err(e),
        }
    } else {
        let filled = rb.filled().len();
        let cap = rb.len();
        let dst = rb.unfilled_mut();
        let res = rd.poll_read_core(cx, dst);
        match res {
            Ok(Async::Ready(n)) => {
                assert(filled + n <= cap);
                rb.assume_init(filled + n);
                rb.add_filled(n);
                Ok(Async::Ready(()))
            },
            Ok(Async::Pending) => Ok(Async::Pending),
            Err(e) => Err(e),
        }
    }
}

/// What a read-to-end does after one read into its scratch space.
#[derive(Debug)]
pub enum ReadToEndStep<E> {
    /// The read gave data, which has been appended: read again.
    Continue,
    /// The read filled nothing, so the stream is at its end: resolve to this
    /// number of bytes appended.
    Finish(usize),
    /// The reader was not ready and has the task woken later.
    Suspend,
    /// The operation has failed: return this error.
    Fail(E),
}

/// The length of the data, the count of initialized scratch bytes and the
/// step after one read into scratch space.
///
/// `len` is the length of the data before the read and `start_len` what it
/// was at the start; `initialized` is the count of scratch bytes that were
/// known to be initialized before the read, `res` what the read gave,
/// `filled` the number of bytes it left in the scratch space and `ready` the
/// count of scratch bytes that the cursor had initialized after it.
pub open spec fn read_to_end_step_spec<E>(
    len: usize,
    start_len: usize,
    initialized: usize,
    res: Poll<(), E>,
    filled: usize,
    ready: usize,
) -> (usize, usize, ReadToEndStep<E>) {
    let kept = if ready > initialized {
        ready
    } else {
        initialized
    };
    match res {
        Ok(Async::Ready(_)) => if filled == 0 {
            (len, kept, ReadToEndStep::Finish((len - start_len) as usize))
        } else {
            ((len + filled) as usize, kept, ReadToEndStep::Continue)
        },
        Ok(Async::Pending) => (len, kept, ReadToEndStep::Suspend),
        Err(e) => (len, kept, ReadToEndStep::Fail(e)),
    }
}

/// Takes in the outcome of one read into scratch space: a read that filled
/// nothing ends the operation with the number of bytes appended since the
/// start, a read that gave data moves the length on by what it gave, and
/// the count of initialized scratch bytes never goes back.
pub fn read_to_end_step<E>(
    len: usize,
    start_len: usize,
    initialized: usize,
    res: Poll<(), E>,
    filled: usize,
    ready: usize,
) -> (s: (usize, usize, ReadToEndStep<E>))
    requires
        start_len <= len,
        len + filled <= usize::MAX,
    ensures
        s == read_to_end_step_spec(len, start_len, initialized, res, filled, ready),
{
    let kept = if ready > initialized {
        ready
    } else {
        initialized
    };
    match res {
        Ok(Async::Ready(_)) => if filled == 0 {
            (len, kept, ReadToEndStep::Finish(len - start_len))
        } else {
            (len + filled, kept, ReadToEndStep::Continue)
        },
        Ok(Async::Pending) => (len, kept, ReadToEndStep::Suspend),
        Err(e) => (len, kept, ReadToEndStep::Fail(e)),
    }
}

/// The number of scratch bytes that a read is handed when the data is
/// `len` bytes long: all of the scratch space, unless the vector could not
/// take that many bytes more.
pub open spec fn read_to_end_room(scratch_len: nat, len: nat) -> nat {
    if scratch_len <= usize::MAX - len {
        scratch_len
    } else {
        (usize::MAX - len) as nat
    }
}

/// Whether `k` is the place of one of the items of `s`.
pub open spec fn listed<T>(s: Seq<T>, k: int) -> bool {
    0 <= k < s.len()
}

/// The bytes that a read has given which returned `res` and left `left` in
/// the space it was handed: the first `n` of them for `Ok(Async::Ready(n))`,
/// and none otherwise.
pub open spec fn read_gave<E>(res: Poll<usize, E>, left: Seq<u8>) -> Seq<u8> {
    match res {
        Ok(Async::Ready(n)) => if n <= left.len() {
            left.subrange(0, n as int)
        } else {
            left
        },
        _ => Seq::empty(),
    }
}

/// What a vector that held `buf0` holds after the first `k` reads of a run,
/// where read `j` returned `results[j]` and left `lefts[j]` in the space it
/// was handed: `buf0`, and behind it what each of these reads has given.
pub open spec fn data_after<E>(
    buf0: Seq<u8>,
    results: Seq<Poll<usize, E>>,
    lefts: Seq<Seq<u8>>,
    k: int,
) -> Seq<u8>
    decreases k,
{
    if k <= 0 {
        buf0
    } else {
        data_after(buf0, results, lefts, k - 1) + read_gave(results[k - 1], lefts[k - 1])
    }
}

/// Whether the reads listed are reads that a read-to-end makes one after the
/// other, each but the last of which gave data: read `k` found the reader as
/// `befores[k]`, left it as `afters[k]`, was handed `rooms[k]` bytes of
/// scratch space, returned `results[k]` and left `lefts[k]` in that space.
///
/// The first read finds the reader as `first`, each further read finds it as
/// the read before left it, and the last read leaves it as `last`. Each read
/// is handed as much scratch space as there is, `scratch_len`, unless the
/// vector could not take that many bytes more. Every read but the last gave
/// data. The vector, which held `buf0`, holds `buf1` after all of them:
/// `buf0` and behind it what the reads gave.
#[verifier::opaque]
pub open spec fn read_to_end_reads<R: CoreAsyncRead + ?Sized>(
    first: &R,
    last: &R,
    befores: Seq<&R>,
    afters: Seq<&R>,
    rooms: Seq<nat>,
    results: Seq<Poll<usize, R::Error>>,
    lefts: Seq<Seq<u8>>,
    buf0: Seq<u8>,
    buf1: Seq<u8>,
    scratch_len: nat,
) -> bool {
    let n = results.len() as int;
    &&& befores.len() == n
    &&& afters.len() == n
    &&& rooms.len() == n
    &&& lefts.len() == n
    &&& n == 0 ==> first == last
    &&& n > 0 ==> befores[0] == first && afters[n - 1] == last
    &&& forall|k: int| 0 < k < n ==> #[trigger] befores[k] == afters[k - 1]
    &&& forall|k: int|
        0 <= k < n ==> #[trigger] rooms[k] == read_to_end_room(
            scratch_len,
            data_after(buf0, results, lefts, k).len(),
        )
    &&& forall|k: int|
        0 <= k < n - 1 ==> (#[trigger] results[k] matches Ok(Async::Ready(m)) && m > 0)
    &&& buf1 == data_after(buf0, results, lefts, n)
}

/// Whether one run of a read-to-end with the outcome `r` is the run of the
/// reads listed, as in [`read_to_end_reads`].
///
/// The run makes at least one read, and the last read decides the outcome:
/// if it filled nothing the run resolves to the number of bytes by which
/// the vector is longer than `start_len`, if it was pending so is the run,
/// and if it failed the run fails with the same error.
pub open spec fn read_to_end_run<R: CoreAsyncRead + ?Sized>(
    first: &R,
    last: &R,
    befores: Seq<&R>,
    afters: Seq<&R>,
    rooms: Seq<nat>,
    results: Seq<Poll<usize, R::Error>>,
    lefts: Seq<Seq<u8>>,
    buf0: Seq<u8>,
    buf1: Seq<u8>,
    scratch_len: nat,
    start_len: usize,
    r: Poll<usize, R::Error>,
) -> bool {
    let n = results.len() as int;
    &&& n > 0
    &&& read_to_end_reads(
        first,
        last,
        befores,
        afters,
        rooms,
        results,
        lefts,
        buf0,
        buf1,
        scratch_len,
    )
    &&& match results[n - 1] {
        Ok(Async::Ready(m)) => m == 0 && r == Ok::<Async<usize>, R::Error>(
            Async::Ready((buf1.len() - start_len) as usize),
        ),
        Ok(Async::Pending) => r == Ok::<Async<usize>, R::Error>(Async::Pending),
        Err(e) => r == Err::<Async<usize>, R::Error>(e),
    }
}

/// A read that is added to a run changes nothing of what the vector held
/// after the reads before it.
pub proof fn lemma_data_after_push<E>(
    buf0: Seq<u8>,
    results: Seq<Poll<usize, E>>,
    lefts: Seq<Seq<u8>>,
    res: Poll<usize, E>,
    left: Seq<u8>,
    k: int,
)
    requires
        results.len() == lefts.len(),
        k <= results.len(),
    ensures
        data_after(buf0, results.push(res), lefts.push(left), k) == data_after(
            buf0,
            results,
            lefts,
            k,
        ),
    decreases k,
{
    if k > 0 {
        lemma_data_after_push(buf0, results, lefts, res, left, k - 1);
    }
}

/// Reads that gave data, followed by one more read, are reads of a
/// read-to-end again, where the one more read found the reader as the last
/// of them left it and was handed as much room as the vector allowed.
pub proof fn lemma_reads_push<R: CoreAsyncRead + ?Sized>(
    first: &R,
    before: &R,
    after: &R,
    befores: Seq<&R>,
    afters: Seq<&R>,
    rooms: Seq<nat>,
    results: Seq<Poll<usize, R::Error>>,
    lefts: Seq<Seq<u8>>,
    res: Poll<usize, R::Error>,
    left: Seq<u8>,
    buf0: Seq<u8>,
    buf1: Seq<u8>,
    scratch_len: nat,
)
    requires
        read_to_end_reads(
            first,
            before,
            befores,
            afters,
            rooms,
            results,
            lefts,
            buf0,
            buf1,
            scratch_len,
        ),
        forall|k: int|
            0 <= k < results.len() ==> (#[trigger] results[k] matches Ok(Async::Ready(m)) && m
                > 0),
    ensures
        read_to_end_reads(
            first,
            after,
            befores.push(before),
            afters.push(after),
            rooms.push(read_to_end_room(scratch_len, buf1.len())),
            results.push(res),
            lefts.push(left),
            buf0,
            buf1 + read_gave(res, left),
            scratch_len,
        ),
{
    reveal(read_to_end_reads);
    let n = results.len() as int;
    let results2 = results.push(res);
    let lefts2 = lefts.push(left);
    assert forall|k: int| 0 <= k <= n implies data_after(buf0, results2, lefts2, k)
        == data_after(buf0, results, lefts, k) by {
        lemma_data_after_push(buf0, results, lefts, res, left, k);
    }
    assert(data_after(buf0, results2, lefts2, n + 1) == data_after(buf0, results2, lefts2, n)
        + read_gave(results2[n], lefts2[n]));
    let befores2 = befores.push(before);
    let afters2 = afters.push(after);
    let rooms2 = rooms.push(read_to_end_room(scratch_len, buf1.len()));
    assert forall|k: int| 0 < k < n + 1 implies #[trigger] befores2[k] == afters2[k - 1] by {
        if k < n {
            assert(befores[k] == afters[k - 1]);
        }
    }
    assert forall|k: int| 0 <= k < n + 1 implies #[trigger] rooms2[k] == read_to_end_room(
        scratch_len,
        data_after(buf0, results2, lefts2, k).len(),
    ) by {
        if k < n {
            assert(rooms[k] == read_to_end_room(
                scratch_len,
                data_after(buf0, results, lefts, k).len(),
            ));
        }
    }
    assert forall|k: int| 0 <= k < n implies (#[trigger] results2[k] matches Ok(
        Async::Ready(m),
    ) && m > 0) by {
        assert(results[k] matches Ok(Async::Ready(m)) && m > 0);
    }
}

/// A reader that is not ready ends the run at once: a run whose read `k`
/// was pending has made no read after it, is pending itself, has appended
/// only what the reads before it gave, and leaves the reader as that read
/// left it. So a reader that is pending once costs one poll and no more:
/// the next run begins with the reader as it then is.
pub proof fn lemma_pending_read_ends_the_run<R: CoreAsyncRead + ?Sized>(
    first: &R,
    last: &R,
    befores: Seq<&R>,
    afters: Seq<&R>,
    rooms: Seq<nat>,
    results: Seq<Poll<usize, R::Error>>,
    lefts: Seq<Seq<u8>>,
    buf0: Seq<u8>,
    buf1: Seq<u8>,
    scratch_len: nat,
    start_len: usize,
    r: Poll<usize, R::Error>,
    k: int,
)
    requires
        read_to_end_run(
            first,
            last,
            befores,
            afters,
            rooms,
            results,
            lefts,
            buf0,
            buf1,
            scratch_len,
            start_len,
            r,
        ),
        0 <= k < results.len(),
        results[k] == Ok::<Async<usize>, R::Error>(Async::Pending),
    ensures
        k == results.len() - 1,
        r == Ok::<Async<usize>, R::Error>(Async::Pending),
        buf1 == data_after(buf0, results, lefts, k),
        k == 0 ==> buf1 == buf0,
        last == afters[k],
{
    reveal(read_to_end_reads);
    assert(k == results.len() - 1) by {
        if k < results.len() - 1 {
            assert(results[k] matches Ok(Async::Ready(m)) && m > 0);
        }
    }
    assert(data_after(buf0, results, lefts, k + 1) == data_after(buf0, results, lefts, k)
        + read_gave(results[k], lefts[k]));
    assert(data_after(buf0, results, lefts, k) + Seq::<u8>::empty() =~= data_after(
        buf0,
        results,
        lefts,
        k,
    ));
}

/// A run only appends: what the vector held stays at its head, and a run
/// that resolves resolves to the number of bytes by which the vector is
/// longer than `start_len`, after a last read that filled nothing.
pub proof fn lemma_run_appends<R: CoreAsyncRead + ?Sized>(
    first: &R,
    last: &R,
    befores: Seq<&R>,
    afters: Seq<&R>,
    rooms: Seq<nat>,
    results: Seq<Poll<usize, R::Error>>,
    lefts: Seq<Seq<u8>>,
    buf0: Seq<u8>,
    buf1: Seq<u8>,
    scratch_len: nat,
    start_len: usize,
    r: Poll<usize, R::Error>,
)
    requires
        read_to_end_run(
            first,
            last,
            befores,
            afters,
            rooms,
            results,
            lefts,
            buf0,
            buf1,
            scratch_len,
            start_len,
            r,
        ),
    ensures
        buf0.is_prefix_of(buf1),
        r matches Ok(Async::Ready(n)) ==> n == (buf1.len() - start_len) as usize
            && results[results.len() - 1] == Ok::<Async<usize>, R::Error>(Async::Ready(0)),
{
    reveal(read_to_end_reads);
    lemma_data_after_extends(buf0, results, lefts, results.len() as int);
}

/// What the vector holds after the first `k` reads begins with what it
/// held at the start.
pub proof fn lemma_data_after_extends<E>(
    buf0: Seq<u8>,
    results: Seq<Poll<usize, E>>,
    lefts: Seq<Seq<u8>>,
    k: int,
)
    ensures
        buf0.is_prefix_of(data_after(buf0, results, lefts, k)),
    decreases k,
{
    if k > 0 {
        lemma_data_after_extends(buf0, results, lefts, k - 1);
        let d = data_after(buf0, results, lefts, k - 1);
        assert((d + read_gave(results[k - 1], lefts[k - 1])).subrange(0, buf0.len() as int)
            =~= d.subrange(0, buf0.len() as int));
    } else {
        assert(buf0.subrange(0, buf0.len() as int) =~= buf0);
    }
}

/// Reads from `rd` and appends to `buf` until the reader reports the end of
/// its stream with a read that fills nothing, and then resolves to the
/// number of bytes by which `buf` is longer than `start_len`.
///
/// Each read goes into `scratch`, and what it gave is appended to `buf`, so
/// `buf` holds data only, at any time: what it held, and behind it what the
/// reads have given. `*initialized` is the count of bytes at the head of
/// `scratch` that are known to be initialized; it is kept from one call to
/// the next and never goes back, so that no byte of scratch space is zeroed
/// twice.
///
/// The function resolves only after a read that filled nothing; it is
/// pending only where a read was, and it fails only with the error of a
/// read.
#[verifier::rlimit(100)]
pub fn read_to_end_internal<R: CoreAsyncRead + ?Sized>(
    rd: &mut R,
    cx: &mut Context<'_>,
    buf: &mut Vec<u8>,
    start_len: usize,
    initialized: &mut usize,
    scratch: &mut [u8],
) -> (r: Poll<usize, R::Error>)
    requires
        start_len <= old(buf)@.len(),
        old(scratch)@.len() > 0,
        *old(initialized) <= old(scratch)@.len(),
    ensures
        old(buf)@.is_prefix_of(final(buf)@),
        final(scratch)@.len() == old(scratch)@.len(),
        *old(initialized) <= *final(initialized) <= final(scratch)@.len(),
        r matches Ok(Async::Ready(n)) ==> n == final(buf)@.len() - start_len
            && crate::io::read_returned::<R>(
            read_to_end_room(final(scratch)@.len(), final(buf)@.len()),
            Ok::<Async<usize>, R::Error>(Async::Ready(0)),
        ),
        r matches Ok(Async::Pending) ==> crate::io::read_returned::<R>(
            read_to_end_room(final(scratch)@.len(), final(buf)@.len()),
            Ok::<Async<usize>, R::Error>(Async::Pending),
        ),
        r matches Err(e) ==> crate::io::read_returned::<R>(
            read_to_end_room(final(scratch)@.len(), final(buf)@.len()),
            Err::<Async<usize>, R::Error>(e),
        ),
        exists|
            befores: Seq<&R>,
            afters: Seq<&R>,
            rooms: Seq<nat>,
            results: Seq<Poll<usize, R::Error>>,
            lefts: Seq<Seq<u8>>,
        |
            #[trigger] read_to_end_run::<R>(
                &*old(rd),
                &*final(rd),
                befores,
                afters,
                rooms,
                results,
                lefts,
                old(buf)@,
                final(buf)@,
                old(scratch)@.len(),
                start_len,
                r,
            ) && forall|k: int|
                #[trigger] listed(results, k) ==> exists|
                    rd0: &mut R,
                    c: &mut Context<'_>,
                    b: &mut [u8],
                |
                    R::poll_read_core.ensures((rd0, c, b), results[k]) && &*rd0
                        == befores[k] && &*final(rd0) == afters[k] && b@.len() == rooms[k]
                        && final(b)@ == lefts[k],
        final(buf)@.len() > old(buf)@.len() ==> exists|
            rd0: &mut R,
            c: &mut Context<'_>,
            b: &mut [u8],
            n: usize,
        |
            R::poll_read_core.ensures(
                (rd0, c, b),
                Ok::<Async<usize>, R::Error>(Async::Ready(n)),
            ) && 0 < n <= final(buf)@.len() - old(buf)@.len() && final(b)@.subrange(0, n as int)
                == final(buf)@.subrange(final(buf)@.len() - n, final(buf)@.len() as int),
{
    let cap = scratch.len();
    let ghost mut befores: Seq<&R> = Seq::empty();
    let ghost mut afters: Seq<&R> = Seq::empty();
    let ghost mut rooms: Seq<nat> = Seq::empty();
    let ghost mut results: Seq<Poll<usize, R::Error>> = Seq::empty();
    let ghost mut lefts: Seq<Seq<u8>> = Seq::empty();
    proof {
        reveal(read_to_end_reads);
    }
    loop
        invariant
            start_len <= old(buf)@.len(),
            old(buf)@.is_prefix_of(buf@),
            scratch@.len() == old(scratch)@.len(),
            cap == scratch@.len(),
            *old(initialized) <= *initialized <= cap,
            buf@.len() > old(buf)@.len() ==> exists|
                rd0: &mut R,
                c: &mut Context<'_>,
                b: &mut [u8],
                n: usize,
            |
                R::poll_read_core.ensures(
                    (rd0, c, b),
                    Ok::<Async<usize>, R::Error>(Async::Ready(n)),
                ) && 0 < n <= buf@.len() - old(buf)@.len() && final(b)@.subrange(0, n as int)
                    == buf@.subrange(buf@.len() - n, buf@.len() as int),
            read_to_end_reads::<R>(
                &*old(rd),
                &*rd,
                befores,
                afters,
                rooms,
                results,
                lefts,
                old(buf)@,
                buf@,
                cap as nat,
            ),
            befores.len() == results.len(),
            afters.len() == results.len(),
            rooms.len() == results.len(),
            lefts.len() == results.len(),
            forall|k: int|
                0 <= k < results.len() ==> (#[trigger] results[k] matches Ok(Async::Ready(m))
                    && m > 0),
            forall|k: int|
                #[trigger] listed(results, k) ==> exists|
                    rd0: &mut R,
                    c: &mut Context<'_>,
                    b: &mut [u8],
                |
                    R::poll_read_core.ensures((rd0, c, b), results[k]) && &*rd0
                        == befores[k] && &*final(rd0) == afters[k] && b@.len() == rooms[k]
                        && final(b)@ == lefts[k],
        decreases usize::MAX - buf@.len(),
    {
        let len = buf.len();
        let left = usize::MAX - len;
        let room = if cap <= left {
            cap
        } else {
            left
        };
        let known = if *initialized <= room {
            *initialized
        } else {
            room
        };
        let ghost before = &*rd;
        let (window, _rest) = scratch.split_at_mut(room);
        let mut rb = ReadBuf::uninit(window);
        rb.assume_init(known);
        let res = poll_read_buf(rd, cx, &mut rb);
        let ghost after = &*rd;
        let filled = rb.filled().len();
        let ready = rb.initialized().len();
        let ghost seen = res;
        let ghost outcome: Poll<usize, R::Error> = match seen {
            Ok(Async::Ready(_)) => Ok(Async::Ready(filled)),
            Ok(Async::Pending) => Ok(Async::Pending),
            Err(e) => Err(e),
        };
        let ghost left_there = rb@.mem;
        let ghost data = buf@;
        assert(exists|rd0: &mut R, c: &mut Context<'_>, b: &mut [u8]|
            R::poll_read_core.ensures((rd0, c, b), outcome) && &*rd0 == before && &*final(rd0)
                == after && b@.len() == room && final(b)@ == left_there);
        buf.extend_from_slice(rb.filled());
        assert(buf@ =~= data + rb@.filled_bytes());
        assert(read_gave(outcome, left_there) =~= rb@.filled_bytes());
        assert(buf@ == data + read_gave(outcome, left_there));
        proof {
            lemma_reads_push::<R>(
                &*old(rd),
                before,
                after,
                befores,
                afters,
                rooms,
                results,
                lefts,
                outcome,
                left_there,
                old(buf)@,
                data,
                cap as nat,
            );
            let k = results.len() as int;
            let old_results = results;
            let old_befores = befores;
            let old_afters = afters;
            let old_rooms = rooms;
            let old_lefts = lefts;
            befores = befores.push(before);
            afters = afters.push(after);
            rooms = rooms.push(read_to_end_room(cap as nat, data.len()));
            results = results.push(outcome);
            lefts = lefts.push(left_there);
            assert forall|j: int| #[trigger] listed(results, j) implies exists|
                rd0: &mut R,
                c: &mut Context<'_>,
                b: &mut [u8],
            |
                R::poll_read_core.ensures((rd0, c, b), results[j]) && &*rd0
                    == befores[j] && &*final(rd0) == afters[j] && b@.len() == rooms[j]
                    && final(b)@ == lefts[j] by {
                if j < k {
                    assert(listed(old_results, j));
                    assert(results[j] == old_results[j]);
                    assert(befores[j] == old_befores[j]);
                    assert(afters[j] == old_afters[j]);
                    assert(rooms[j] == old_rooms[j]);
                    assert(lefts[j] == old_lefts[j]);
                } else {
                    assert(results[j] == outcome);
                    assert(befores[j] == before);
                    assert(afters[j] == after);
                    assert(rooms[j] == room);
                    assert(lefts[j] == left_there);
                }
            }
        }
        let step = read_to_end_step(len, start_len, *initialized, res, filled, ready);
        *initialized = step.1;

        match step.2 {
            ReadToEndStep::Continue => {
                    },
            ReadToEndStep::Finish(n) => {
                assert(read_to_end_run::<R>(
                    &*old(rd),
                    &*rd,
                    befores,
                    afters,
                    rooms,
                    results,
                    lefts,
                    old(buf)@,
                    buf@,
                    cap as nat,
                    start_len,
                    Ok::<Async<usize>, R::Error>(Async::Ready(n)),
                ));
                return Ok(Async::Ready(n));
            },
            ReadToEndStep::Suspend => {
                assert(read_to_end_run::<R>(
                    &*old(rd),
                    &*rd,
                    befores,
                    afters,
                    rooms,
                    results,
                    lefts,
                    old(buf)@,
                    buf@,
                    cap as nat,
                    start_len,
                    Ok::<Async<usize>, R::Error>(Async::Pending),
                ));
                return Ok(Async::Pending);
            },
            ReadToEndStep::Fail(e) => {
                let ghost e0 = e;
                assert(read_to_end_run::<R>(
                    &*old(rd),
                    &*rd,
                    befores,
                    afters,
                    rooms,
                    results,
                    lefts,
                    old(buf)@,
                    buf@,
                    cap as nat,
                    start_len,
                    Err::<Async<usize>, R::Error>(e0),
                ));
                let out: Poll<usize, R::Error> = Err(e);
                assert(out matches Err(e2) ==> e2 == e0);
                return out;
            },
        }
    }
}

/// Reads all that a reader yields, up to the end of its stream, and appends
/// it to a vector.
///
/// It resolves to the number of bytes appended. At any time the vector
/// holds what was there before and, behind it, what the reader has yielded
/// so far, and nothing else.
#[derive(Debug)]
#[must_use]
pub struct ReadToEnd<'a, R: ?Sized> {
    /// The reader.
    pub reader: &'a mut R,
    /// The vector that the data is appended to.
    pub buf: &'a mut Vec<u8>,
    /// The length that the vector had at the start.
    pub start_len: usize,
    /// The space that reads go into, before what they gave is appended.
    pub scratch: Vec<u8>,
    /// The count of bytes at the head of the scratch space that are known to
    /// be initialized.
    pub initialized: usize,
    /// Whether the operation is over: it has finished or failed.
    pub done: bool,
}

impl<'a, R: CoreAsyncRead + ?Sized> ReadToEnd<'a, R> {
    /// What a poll needs to hold: the operation is under way, the vector is
    /// no shorter than it was at the start, there is scratch space, and the
    /// count of initialized scratch bytes lies within it.
    pub open spec fn pollable(&self) -> bool {
        &&& !self.done
        &&& self.start_len <= self.buf@.len()
        &&& self.scratch@.len() > 0
        &&& self.initialized <= self.scratch@.len()
    }

    /// Starts to read all of `reader` into `buf`, behind what `buf` holds.
    pub fn new(reader: &'a mut R, buf: &'a mut Vec<u8>) -> (r: Self)
        ensures
            r.pollable(),
            r.start_len == old(buf)@.len(),
            r.buf@ == old(buf)@,
            r.scratch@.len() == READ_TO_END_GROWTH,
            r.initialized == 0,
            &*r.reader == &*old(reader),
            final(r.buf)@ == final(buf)@,
            &*final(r.reader) == &*final(reader),
    {
        let start_len = buf.len();
        let mut scratch: Vec<u8> = Vec::new();
        scratch.resize(READ_TO_END_GROWTH, 0u8);
        ReadToEnd { reader, buf, start_len, scratch, initialized: 0, done: false }
    }

    /// Reads and appends until the reader reports the end of its stream,
    /// is not ready, or fails.
    ///
    /// What the vector held is kept, and what was read is behind it. The
    /// operation resolves only after a read that filled nothing, to the
    /// number of bytes by which the vector is longer than it was at the
    /// start; it is pending only where a read was, and it fails only with
    /// the error of a read. Once it has resolved or failed it is over. The
    /// run is that of [`read_to_end_internal`], read by read.
    pub fn poll(&mut self, cx: &mut Context<'_>) -> (r: Poll<usize, R::Error>)
        requires
            old(self).pollable(),
        ensures
            final(self).start_len == old(self).start_len,
            old(self).buf@.is_prefix_of(final(self).buf@),
            final(self).scratch@.len() == old(self).scratch@.len(),
            old(self).initialized <= final(self).initialized <= final(self).scratch@.len(),
            final(self).done <==> !(r is Ok && r->Ok_0 is Pending),
            r matches Ok(Async::Ready(n)) ==> n == final(self).buf@.len() - old(self).start_len
                && crate::io::read_returned::<R>(
                read_to_end_room(final(self).scratch@.len(), final(self).buf@.len()),
                Ok::<Async<usize>, R::Error>(Async::Ready(0)),
            ),
            r matches Ok(Async::Pending) ==> crate::io::read_returned::<R>(
                read_to_end_room(final(self).scratch@.len(), final(self).buf@.len()),
                Ok::<Async<usize>, R::Error>(Async::Pending),
            ),
            r matches Err(e) ==> crate::io::read_returned::<R>(
                read_to_end_room(final(self).scratch@.len(), final(self).buf@.len()),
                Err::<Async<usize>, R::Error>(e),
            ),
            exists|
                befores: Seq<&R>,
                afters: Seq<&R>,
                rooms: Seq<nat>,
                results: Seq<Poll<usize, R::Error>>,
                lefts: Seq<Seq<u8>>,
            |
                #[trigger] read_to_end_run::<R>(
                    &*old(self).reader,
                    &*final(self).reader,
                    befores,
                    afters,
                    rooms,
                    results,
                    lefts,
                    old(self).buf@,
                    final(self).buf@,
                    old(self).scratch@.len(),
                    old(self).start_len,
                    r,
                ) && forall|k: int|
                    #[trigger] listed(results, k) ==> exists|
                        rd0: &mut R,
                        c: &mut Context<'_>,
                        b: &mut [u8],
                    |
                        R::poll_read_core.ensures((rd0, c, b), results[k]) && &*rd0
                            == befores[k] && &*final(rd0) == afters[k] && b@.len() == rooms[k]
                            && final(b)@ == lefts[k],
            final(final(self).buf)@ == final(old(self).buf)@,
            &*final(final(self).reader) == &*final(old(self).reader),
    {
        let r = read_to_end_internal(
            &mut *self.reader,
            cx,
            &mut *self.buf,
            self.start_len,
            &mut self.initialized,
            self.scratch.as_mut_slice(),
        );
        let ghost (befores, afters, rooms, results, lefts) = choose|
            befores: Seq<&R>,
            afters: Seq<&R>,
            rooms: Seq<nat>,
            results: Seq<Poll<usize, R::Error>>,
            lefts: Seq<Seq<u8>>,
        |
            #[trigger] read_to_end_run::<R>(
                &*old(self).reader,
                &*self.reader,
                befores,
                afters,
                rooms,
                results,
                lefts,
                old(self).buf@,
                self.buf@,
                old(self).scratch@.len(),
                old(self).start_len,
                r,
            ) && forall|k: int|
                #[trigger] listed(results, k) ==> exists|
                    rd0: &mut R,
                    c: &mut Context<'_>,
                    b: &mut [u8],
                |
                    R::poll_read_core.ensures((rd0, c, b), results[k]) && &*rd0 == befores[k]
                        && &*final(rd0) == afters[k] && b@.len() == rooms[k] && final(b)@
                        == lefts[k];
        match &r {
            Ok(Async::Pending) => {},
            _ => {
                self.done = true;
            },
        }
        assert(read_to_end_run::<R>(
            &*old(self).reader,
            &*self.reader,
            befores,
            afters,
            rooms,
            results,
            lefts,
            old(self).buf@,
            self.buf@,
            old(self).scratch@.len(),
            old(self).start_len,
            r,
        ));
        r
    }
}

} // verus!
