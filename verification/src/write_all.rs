//! Writing a whole buffer.

use vstd::prelude::*;
use futures_core::{Async, Poll};
use futures_core::task::Context;
use crate::error::CoreIoError;
use crate::io::CoreAsyncWrite;
use crate::step::Step;

verus! {

/// How much of a buffer of `len` bytes has been written.
#[derive(Clone, Copy, Debug)]
pub struct WriteAllProgress {
    /// The number of bytes written so far.
    pub pos: usize,
    /// The number of bytes to write.
    pub len: usize,
}

impl WriteAllProgress {
    /// No more has been written than there is.
    pub open spec fn wf(self) -> bool {
        self.pos <= self.len
    }

    /// Whether `next` and `step` are the progress and the step after a
    /// write of the unwritten rest of the buffer has returned `res`: zero
    /// bytes written is not tried again, and fails with what
    /// `E::write_zero("zero-length write")` gives; any other count moves the
    /// position on.
    pub open spec fn after_write_spec<E: CoreIoError>(
        self,
        res: Poll<usize, E>,
        next: WriteAllProgress,
        step: Step<E>,
    ) -> bool {
        match res {
            Ok(Async::Ready(n)) => if n == 0 {
                &&& next == self
                &&& step matches Step::Fail(e)
                &&& E::write_zero.ensures(("zero-length write",), e)
            } else {
                &&& next == (WriteAllProgress { pos: (self.pos + n) as usize, len: self.len })
                &&& step == Step::<E>::Continue
            },
            Ok(Async::Pending) => next == self && step == Step::<E>::Suspend,
            Err(e) => next == self && step == Step::Fail(e),
        }
    }

    /// A writer that takes nothing while bytes are left ends the operation:
    /// the step is to fail, with an error that
    /// `E::write_zero("zero-length write")` gives, and never to go on.
    pub proof fn lemma_zero_write_is_fatal<E: CoreIoError>(
        self,
        next: WriteAllProgress,
        step: Step<E>,
    )
        requires
            self.after_write_spec::<E>(Ok(Async::Ready(0)), next, step),
        ensures
            step matches Step::Fail(e) && E::write_zero.ensures(("zero-length write",), e),
            !(step is Continue),
            next == self,
    {
    }

    /// A writer that is not ready suspends the operation at once and leaves
    /// the progress as it is, so that the next poll goes on from there.
    pub proof fn lemma_pending_suspends<E: CoreIoError>(
        self,
        next: WriteAllProgress,
        step: Step<E>,
    )
        requires
            self.after_write_spec::<E>(Ok(Async::Pending), next, step),
        ensures
            step is Suspend,
            next == self,
    {
    }

    /// Nothing written yet, `len` bytes to write.
    pub fn new(len: usize) -> (p: WriteAllProgress)
        ensures
            p == (WriteAllProgress { pos: 0, len }),
    {
        WriteAllProgress { pos: 0, len }
    }

    /// Whether everything has been written.
    pub fn is_done(&self) -> (b: bool)
        ensures
            b == (self.pos >= self.len),
    {
        self.pos >= self.len
    }

    /// Takes in the outcome of a write of the unwritten rest of the buffer.
    pub fn after_write<E: CoreIoError>(&mut self, res: Poll<usize, E>) -> (s: Step<E>)
        requires
            old(self).wf(),
            res matches Ok(Async::Ready(n)) ==> n <= old(self).len - old(self).pos,
        ensures
            old(self).after_write_spec(res, *final(self), s),
    {
        match res {
            Ok(Async::Ready(n)) => {
                if n == 0 {
                    Step::Fail(E::write_zero("zero-length write"))
                } else {
                    self.pos = self.pos + n;
                    Step::Continue
                }
            },
            Ok(Async::Pending) => Step::Suspend,
            Err(e) => Step::Fail(e),
        }
    }
}

/// Whether the error `e` is what a write of the rest `rest` makes of the
/// operation: the write failed with `e`, or it took zero bytes and `e` is
/// what `write_zero("zero-length write")` gives.
pub open spec fn write_failed_with<A: CoreAsyncWrite>(rest: Seq<u8>, e: A::Error) -> bool {
    crate::io::write_returned::<A>(rest, Err::<Async<usize>, A::Error>(e)) || (
    crate::io::write_returned::<A>(rest, Ok::<Async<usize>, A::Error>(Async::Ready(0)))
        && A::Error::write_zero.ensures(("zero-length write",), e))
}

/// How one poll of a write-all has ended.
pub enum WriteAllEnd<A: CoreAsyncWrite> {
    /// Everything is written: the writer.
    Done(A),
    /// A write was not ready: the writer and the number of bytes written
    /// so far.
    Waiting(A, nat),
    /// The operation has failed with this error.
    Failed(A::Error),
}

/// The number of bytes that a write took which returned `res`.
pub open spec fn write_took<E>(res: Poll<usize, E>) -> nat {
    match res {
        Ok(Async::Ready(n)) => n as nat,
        _ => 0,
    }
}

/// The number of bytes written after the first `k` writes of a run that
/// began with `pos0` bytes written, where write `j` returned `results[j]`.
pub open spec fn written_after<E>(pos0: nat, results: Seq<Poll<usize, E>>, k: int) -> nat
    decreases k,
{
    if k <= 0 {
        pos0
    } else {
        written_after(pos0, results, k - 1) + write_took(results[k - 1])
    }
}

/// A write that is added to a run changes nothing of what was written after
/// the writes before it.
pub proof fn lemma_written_after_push<E>(
    pos0: nat,
    results: Seq<Poll<usize, E>>,
    res: Poll<usize, E>,
    k: int,
)
    requires
        k <= results.len(),
    ensures
        written_after(pos0, results.push(res), k) == written_after(pos0, results, k),
    decreases k,
{
    if k > 0 {
        lemma_written_after_push(pos0, results, res, k - 1);
    }
}

/// Whether the writes listed are writes that a write-all makes one after the
/// other from the buffer `whole`, of which `pos0` bytes were written before:
/// write `k` found the writer as `befores[k]`, left it as `afters[k]`, was
/// handed the bytes `handed[k]` and returned `results[k]`.
///
/// The first write finds the writer as `first`, each further write finds it
/// as the write before left it, and the last write leaves it as `last`. Each
/// write is handed the whole rest of the buffer behind what is written so
/// far, and that rest is not empty. Every write but the last took some
/// bytes and left a rest. After all of them `pos1` bytes are written.
#[verifier::opaque]
pub open spec fn write_all_writes<A: CoreAsyncWrite>(
    first: A,
    last: A,
    befores: Seq<A>,
    afters: Seq<A>,
    handed: Seq<Seq<u8>>,
    results: Seq<Poll<usize, A::Error>>,
    whole: Seq<u8>,
    pos0: nat,
    pos1: nat,
) -> bool {
    let n = results.len() as int;
    &&& befores.len() == n
    &&& afters.len() == n
    &&& handed.len() == n
    &&& n == 0 ==> first == last
    &&& n > 0 ==> befores[0] == first && afters[n - 1] == last
    &&& forall|k: int| 0 < k < n ==> #[trigger] befores[k] == afters[k - 1]
    &&& forall|k: int|
        0 <= k < n ==> written_after(pos0, results, k) < whole.len() && #[trigger] handed[k]
            == whole.subrange(written_after(pos0, results, k) as int, whole.len() as int)
    &&& forall|k: int|
        0 <= k < n - 1 ==> (#[trigger] results[k] matches Ok(Async::Ready(m)) && 0 < m
            < handed[k].len())
    &&& pos1 == written_after(pos0, results, n)
}

/// Whether one poll of a write-all that ended as `end` is the run of the
/// writes listed, as in [`write_all_writes`].
///
/// With nothing left to write there is no write, and the poll is done with
/// the writer as it was. Else the last write decides: if it took the whole
/// rest the poll is done, with the writer as that write left it; if it was
/// pending the poll waits; if it failed the poll fails with the same error;
/// and if it took zero bytes the poll fails with what
/// `write_zero("zero-length write")` gives.
pub open spec fn write_all_run<A: CoreAsyncWrite>(
    first: A,
    befores: Seq<A>,
    afters: Seq<A>,
    handed: Seq<Seq<u8>>,
    results: Seq<Poll<usize, A::Error>>,
    whole: Seq<u8>,
    pos0: nat,
    end: WriteAllEnd<A>,
) -> bool {
    let n = results.len() as int;
    match end {
        WriteAllEnd::Done(a) => {
            &&& write_all_writes(
                first,
                a,
                befores,
                afters,
                handed,
                results,
                whole,
                pos0,
                whole.len(),
            )
            &&& n > 0 ==> (results[n - 1] matches Ok(Async::Ready(m)) && m == handed[n
                - 1].len())
        },
        WriteAllEnd::Waiting(a, pos) => {
            &&& n > 0
            &&& write_all_writes(first, a, befores, afters, handed, results, whole, pos0, pos)
            &&& results[n - 1] == Ok::<Async<usize>, A::Error>(Async::Pending)
        },
        WriteAllEnd::Failed(e) => {
            &&& n > 0
            &&& exists|a: A, pos: nat| #[trigger]
                write_all_writes(first, a, befores, afters, handed, results, whole, pos0, pos)
            &&& match results[n - 1] {
                Ok(Async::Ready(m)) => m == 0 && A::Error::write_zero.ensures(
                    ("zero-length write",),
                    e,
                ),
                Ok(Async::Pending) => false,
                Err(e2) => e2 == e,
            }
        },
    }
}

/// Writes that took some bytes and left a rest, followed by one more write
/// of the rest, are writes of a write-all again.
pub proof fn lemma_write_all_push<A: CoreAsyncWrite>(
    first: A,
    before: A,
    after: A,
    befores: Seq<A>,
    afters: Seq<A>,
    handed: Seq<Seq<u8>>,
    results: Seq<Poll<usize, A::Error>>,
    res: Poll<usize, A::Error>,
    whole: Seq<u8>,
    pos0: nat,
    pos1: nat,
)
    requires
        write_all_writes(first, before, befores, afters, handed, results, whole, pos0, pos1),
        forall|k: int|
            0 <= k < results.len() ==> (#[trigger] results[k] matches Ok(Async::Ready(m)) && 0
                < m < handed[k].len()),
        pos1 < whole.len(),
    ensures
        write_all_writes(
            first,
            after,
            befores.push(before),
            afters.push(after),
            handed.push(whole.subrange(pos1 as int, whole.len() as int)),
            results.push(res),
            whole,
            pos0,
            pos1 + write_took(res),
        ),
{
    reveal(write_all_writes);
    let n = results.len() as int;
    let results2 = results.push(res);
    assert forall|k: int| 0 <= k <= n implies written_after(pos0, results2, k) == written_after(
        pos0,
        results,
        k,
    ) by {
        lemma_written_after_push(pos0, results, res, k);
    }
    assert(written_after(pos0, results2, n + 1) == written_after(pos0, results2, n) + write_took(
        results2[n],
    ));
    let befores2 = befores.push(before);
    let afters2 = afters.push(after);
    let handed2 = handed.push(whole.subrange(pos1 as int, whole.len() as int));
    assert forall|k: int| 0 < k < n + 1 implies #[trigger] befores2[k] == afters2[k - 1] by {
        if k < n {
            assert(befores[k] == afters[k - 1]);
        }
    }
    assert forall|k: int| 0 <= k < n + 1 implies written_after(pos0, results2, k) < whole.len()
        && #[trigger] handed2[k] == whole.subrange(
        written_after(pos0, results2, k) as int,
        whole.len() as int,
    ) by {
        if k < n {
            assert(handed[k] == whole.subrange(
                written_after(pos0, results, k) as int,
                whole.len() as int,
            ));
        }
    }
    assert forall|k: int| 0 <= k < n implies (#[trigger] results2[k] matches Ok(
        Async::Ready(m),
    ) && 0 < m < handed2[k].len()) by {
        assert(results[k] matches Ok(Async::Ready(m)) && 0 < m < handed[k].len());
    }
}

struct Writing<A> {
    a: A,
    buf: Vec<u8>,
    progress: WriteAllProgress,
}

/// Writes a whole buffer to a writer, and then hands back both.
///
/// Made by [`write_all`].
pub struct WriteAll<A> {
    state: Option<Writing<A>>,
    sent: Ghost<Seq<u8>>,
}

/// Starts to write all of `buf` to `a`.
pub fn write_all<A: CoreAsyncWrite>(a: A, buf: Vec<u8>) -> (r: WriteAll<A>)
    ensures
        r.active(),
        r.sent() == Seq::<u8>::empty(),
        r.unsent() == buf@,
        r.writer() == a,
{
    let len = buf.len();
    let ghost none = buf@.subrange(0, 0);
    let r = WriteAll {
        state: Some(Writing { a, buf, progress: WriteAllProgress::new(len) }),
        sent: Ghost(none),
    };
    assert(r.unsent() =~= buf@);
    assert(r.sent() =~= Seq::<u8>::empty());
    r
}

impl<A> WriteAll<A> {
    #[verifier::type_invariant]
    spec fn inv(self) -> bool {
        match self.state {
            Some(st) => {
                &&& st.progress.wf()
                &&& st.progress.len == st.buf@.len()
                &&& self.sent@ == st.buf@.subrange(0, st.progress.pos as int)
            },
            None => true,
        }
    }

    /// Whether the operation is still under way: it has neither finished
    /// nor failed.
    pub closed spec fn active(&self) -> bool {
        self.state is Some
    }

    /// Every byte that the writer has taken since the operation began, in
    /// the order in which it went.
    pub closed spec fn sent(&self) -> Seq<u8> {
        self.sent@
    }

    /// The bytes of the buffer that are still to be written. Empty once the
    /// operation is over.
    pub closed spec fn unsent(&self) -> Seq<u8> {
        match self.state {
            Some(st) => st.buf@.subrange(st.progress.pos as int, st.buf@.len() as int),
            None => Seq::empty(),
        }
    }

    /// The writer, while the operation is under way.
    pub closed spec fn writer(&self) -> A
        recommends
            self.active(),
    {
        self.state->0.a
    }

    /// Whether the operation is still under way.
    pub fn is_active(&self) -> (b: bool)
        ensures
            b == self.active(),
    {
        self.state.is_some()
    }
}

impl<A: CoreAsyncWrite> WriteAll<A> {
    /// Writes the unwritten rest of the buffer until nothing is left, the
    /// writer is not ready, or the operation fails.
    ///
    /// An empty rest is done at once, and the writer is not asked. Else the
    /// buffer is handed back, unchanged, only once a write has taken the
    /// last of it. Each write is handed the whole unwritten rest. The poll
    /// is pending only where a write of the rest was; it fails only with the
    /// error of a write, or, where a write of a rest that was not empty took
    /// zero bytes, with what `write_zero("zero-length write")` gives.
    ///
    /// A poll of an operation that is over panics.
    #[verifier::rlimit(50)]
    pub fn poll(&mut self, cx: &mut Context<'_>) -> (r: Poll<(A, Vec<u8>), A::Error>)
        requires
            old(self).active(),
        ensures
            old(self).unsent().len() == 0 ==> r is Ok && r->Ok_0 is Ready,
            old(self).sent().is_prefix_of(final(self).sent()),
            final(self).sent().is_prefix_of(old(self).sent() + old(self).unsent()),
            exists|
                befores: Seq<A>,
                afters: Seq<A>,
                handed: Seq<Seq<u8>>,
                results: Seq<Poll<usize, A::Error>>,
                end: WriteAllEnd<A>,
            |
                #[trigger] write_all_run::<A>(
                    old(self).writer(),
                    befores,
                    afters,
                    handed,
                    results,
                    old(self).sent() + old(self).unsent(),
                    old(self).sent().len(),
                    end,
                ) && (match r {
                    Ok(Async::Ready((a, buf))) => end == WriteAllEnd::Done(a),
                    Ok(Async::Pending) => end == WriteAllEnd::Waiting(
                        final(self).writer(),
                        final(self).sent().len(),
                    ),
                    Err(e) => end == WriteAllEnd::<A>::Failed(e),
                }) && forall|k: int|
                    #[trigger] crate::read_to_end::listed(results, k) ==> exists|
                        w: &mut A,
                        c: &mut Context<'_>,
                        b: &[u8],
                    |
                        A::poll_write_core.ensures((w, c, b), results[k]) && *w == befores[k]
                            && *final(w) == afters[k] && b@ == handed[k],
            r matches Ok(Async::Ready((a, buf))) ==> {
                &&& !final(self).active()
                &&& buf@ == old(self).sent() + old(self).unsent()
                &&& final(self).sent() == buf@
                &&& old(self).unsent().len() == 0 || exists|n: usize|
                    0 < n <= buf@.len() && crate::io::write_returned::<A>(
                        buf@.subrange(buf@.len() - n, buf@.len() as int),
                        Ok::<Async<usize>, A::Error>(Async::Ready(n)),
                    )
            },
            r matches Ok(Async::Pending) ==> {
                &&& final(self).active()
                &&& final(self).unsent().len() > 0
                &&& final(self).sent() + final(self).unsent() == old(self).sent() + old(
                    self,
                ).unsent()
                &&& crate::io::write_returned::<A>(
                    final(self).unsent(),
                    Ok::<Async<usize>, A::Error>(Async::Pending),
                )
            },
            r matches Err(e) ==> {
                &&& !final(self).active()
                &&& final(self).sent().len() < (old(self).sent() + old(self).unsent()).len()
                &&& write_failed_with::<A>(
                    (old(self).sent() + old(self).unsent()).subrange(
                        final(self).sent().len() as int,
                        (old(self).sent() + old(self).unsent()).len() as int,
                    ),
                    e,
                )
            },
    {
        proof {
            use_type_invariant(&*self);
        }
        let mut slot: Option<Writing<A>> = None;
        core::mem::swap(&mut self.state, &mut slot);
        let mut st = slot.unwrap();
        let ghost whole = st.buf@;
        let ghost pos0 = st.progress.pos;
        let ghost first = st.a;
        let ghost mut last: Option<usize> = None;
        let ghost mut befores: Seq<A> = Seq::empty();
        let ghost mut afters: Seq<A> = Seq::empty();
        let ghost mut handed_all: Seq<Seq<u8>> = Seq::empty();
        let ghost mut results: Seq<Poll<usize, A::Error>> = Seq::empty();
        assert(whole =~= old(self).sent() + old(self).unsent());
        proof {
            reveal(write_all_writes);
        }
        while !st.progress.is_done()
            invariant
                st.progress.wf(),
                st.progress.len == st.buf@.len(),
                st.buf@ == whole,
                pos0 <= st.progress.pos,
                pos0 == old(self).sent().len(),
                first == old(self).writer(),
                whole == old(self).sent() + old(self).unsent(),
                self.sent@ == old(self).sent(),
                self.state is None,
                last is None ==> st.progress.pos == pos0,
                last matches Some(n) ==> 0 < n <= st.progress.pos && crate::io::write_returned::<
                    A,
                >(
                    whole.subrange(st.progress.pos - n, whole.len() as int),
                    Ok::<Async<usize>, A::Error>(Async::Ready(n)),
                ),
                last is None <==> results.len() == 0,
                last matches Some(n) ==> results.len() > 0 && results[results.len() - 1]
                    == Ok::<Async<usize>, A::Error>(Async::Ready(n)) && handed_all[results.len()
                    - 1] == whole.subrange(st.progress.pos - n, whole.len() as int),
                write_all_writes::<A>(
                    first,
                    st.a,
                    befores,
                    afters,
                    handed_all,
                    results,
                    whole,
                    pos0 as nat,
                    st.progress.pos as nat,
                ),
                befores.len() == results.len(),
                afters.len() == results.len(),
                handed_all.len() == results.len(),
                forall|k: int|
                    0 <= k < results.len() - 1 ==> (#[trigger] results[k] matches Ok(
                        Async::Ready(m),
                    ) && 0 < m < handed_all[k].len()),
                results.len() > 0 && st.progress.pos < st.progress.len ==> (results[results.len()
                    - 1] matches Ok(Async::Ready(m)) && 0 < m < handed_all[results.len()
                    - 1].len()),
                forall|k: int|
                    #[trigger] crate::read_to_end::listed(results, k) ==> exists|
                        w: &mut A,
                        c: &mut Context<'_>,
                        b: &[u8],
                    |
                        A::poll_write_core.ensures((w, c, b), results[k]) && *w == befores[k]
                            && *final(w) == afters[k] && b@ == handed_all[k],
            decreases st.progress.len - st.progress.pos,
        {
            let ghost a_before = st.a;
            let ghost pos_before = st.progress.pos;
            let rest = vstd::slice::slice_subrange(
                st.buf.as_slice(),
                st.progress.pos,
                st.buf.len(),
            );
            let res = st.a.poll_write_core(cx, rest);
            let ghost a_after = st.a;
            let ghost outcome = res;
            let ghost handed = whole.subrange(st.progress.pos as int, whole.len() as int);
            assert(crate::io::write_returned::<A>(handed, outcome));
            assert(exists|w: &mut A, c: &mut Context<'_>, b: &[u8]|
                A::poll_write_core.ensures((w, c, b), outcome) && *w == a_before && *final(w)
                    == a_after && b@ == handed);
            proof {
                assert forall|k: int| 0 <= k < results.len() implies (#[trigger] results[k] matches Ok(
                    Async::Ready(m),
                ) && 0 < m < handed_all[k].len()) by {
                    if k == results.len() - 1 {
                    }
                }
                lemma_write_all_push::<A>(
                    first,
                    a_before,
                    a_after,
                    befores,
                    afters,
                    handed_all,
                    results,
                    outcome,
                    whole,
                    pos0 as nat,
                    pos_before as nat,
                );
                let k = results.len() as int;
                let old_results = results;
                let old_befores = befores;
                let old_afters = afters;
                let old_handed = handed_all;
                befores = befores.push(a_before);
                afters = afters.push(a_after);
                handed_all = handed_all.push(handed);
                results = results.push(outcome);
                assert forall|j: int| #[trigger]
                    crate::read_to_end::listed(results, j) implies exists|
                    w: &mut A,
                    c: &mut Context<'_>,
                    b: &[u8],
                |
                    A::poll_write_core.ensures((w, c, b), results[j]) && *w == befores[j]
                        && *final(w) == afters[j] && b@ == handed_all[j] by {
                    if j < k {
                        assert(crate::read_to_end::listed(old_results, j));
                        assert(results[j] == old_results[j]);
                        assert(befores[j] == old_befores[j]);
                        assert(afters[j] == old_afters[j]);
                        assert(handed_all[j] == old_handed[j]);
                    } else {
                        assert(results[j] == outcome);
                        assert(befores[j] == a_before);
                        assert(afters[j] == a_after);
                        assert(handed_all[j] == handed);
                    }
                }
            }
            match st.progress.after_write(res) {
                Step::Continue => {
                    proof {
                        if let Ok(Async::Ready(n)) = outcome {
                            last = Some(n);
                        }
                    }
                },
                Step::Suspend => {
                    self.sent = Ghost(st.buf@.subrange(0, st.progress.pos as int));
                    self.state = Some(st);
                    assert(self.unsent() =~= handed);
                    assert(self.sent() + self.unsent() =~= whole);
                    assert(old(self).sent() =~= whole.subrange(0, pos0 as int));
                    assert(write_all_run::<A>(
                        first,
                        befores,
                        afters,
                        handed_all,
                        results,
                        whole,
                        pos0 as nat,
                        WriteAllEnd::Waiting(self.writer(), self.sent().len()),
                    ));
                    return Ok(Async::Pending);
                },
                Step::Fail(e) => {
                    self.sent = Ghost(st.buf@.subrange(0, st.progress.pos as int));
                    assert(old(self).sent() =~= whole.subrange(0, pos0 as int));
                    let ghost e0 = e;
                    assert(write_failed_with::<A>(handed, e0));
                    assert(write_all_run::<A>(
                        first,
                        befores,
                        afters,
                        handed_all,
                        results,
                        whole,
                        pos0 as nat,
                        WriteAllEnd::Failed(e0),
                    ));
                    let out: Poll<(A, Vec<u8>), A::Error> = Err(e);
                    assert(out matches Err(e2) ==> e2 == e0);
                    assert(out matches Err(e2) ==> write_failed_with::<A>(handed, e2));
                    return out;
                },
            }
        }
        self.sent = Ghost(st.buf@);
        assert(st.buf@.subrange(0, st.progress.pos as int) =~= st.buf@);
        assert(old(self).sent() =~= whole.subrange(0, pos0 as int));
        assert(write_all_run::<A>(
            first,
            befores,
            afters,
            handed_all,
            results,
            whole,
            pos0 as nat,
            WriteAllEnd::Done(st.a),
        ));
        Ok(Async::Ready((st.a, st.buf)))
    }
}

} // verus!
