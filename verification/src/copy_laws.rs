//! What holds of a copy over all the calls it makes, in one poll or in
//! many.

use vstd::prelude::*;
use crate::copy_into::{CopyCall, CopyModel};

verus! {

/// The positions of the copy lie in order within its buffer.
pub open spec fn model_wf<R, W>(m: CopyModel<R, W>) -> bool {
    m.progress.pos <= m.progress.cap <= m.buf.len()
}

/// The bytes that sit in the buffer of the copy, read and not yet written.
pub open spec fn buffered<R, W>(m: CopyModel<R, W>) -> Seq<u8> {
    m.buf.subrange(m.progress.pos as int, m.progress.cap as int)
}

/// The bytes that `call` took from the reader: what a read that gave a
/// count left at the head of the buffer, and nothing for any other call.
pub open spec fn read_by<R, W, E>(call: CopyCall<R, W, E>) -> Seq<u8> {
    match call {
        CopyCall::Read(before, after, res, left) => crate::read_to_end::read_gave(res, left),
        _ => Seq::empty(),
    }
}

/// The bytes that `call` gave to the writer: the head of what a write was
/// handed, as long as the count it returned, and nothing for any other
/// call.
pub open spec fn written_by<R, W, E>(call: CopyCall<R, W, E>) -> Seq<u8> {
    match call {
        CopyCall::Write(before, after, handed, res) => crate::read_to_end::read_gave(
            res,
            handed,
        ),
        _ => Seq::empty(),
    }
}

/// The bytes that the first `k` of the calls listed took from the reader,
/// in order.
pub open spec fn read_in<R, W, E>(calls: Seq<CopyCall<R, W, E>>, k: int) -> Seq<u8>
    decreases k,
{
    if k <= 0 {
        Seq::empty()
    } else {
        read_in(calls, k - 1) + read_by(calls[k - 1])
    }
}

/// The bytes that the first `k` of the calls listed gave to the writer, in
/// order.
pub open spec fn written_in<R, W, E>(calls: Seq<CopyCall<R, W, E>>, k: int) -> Seq<u8>
    decreases k,
{
    if k <= 0 {
        Seq::empty()
    } else {
        written_in(calls, k - 1) + written_by(calls[k - 1])
    }
}

/// Whether the calls listed are calls that a copy which began as `m0` makes
/// one after the other, in one poll or in several, and leave it as `m1`:
/// each call is the one that the copy makes as the calls before left it.
pub open spec fn copy_steps<R, W, E>(
    m0: CopyModel<R, W>,
    calls: Seq<CopyCall<R, W, E>>,
    m1: CopyModel<R, W>,
) -> bool {
    &&& forall|k: int|
        0 <= k < calls.len() ==> crate::copy_into::copy_fits(
            crate::copy_into::copy_after(m0, calls, k),
            #[trigger] calls[k],
        )
    &&& m1 == crate::copy_into::copy_after(m0, calls, calls.len() as int)
}

/// The calls of one poll are calls of a copy in the sense of
/// [`copy_steps`].
pub proof fn lemma_calls_are_steps<R, W, E>(
    m0: CopyModel<R, W>,
    calls: Seq<CopyCall<R, W, E>>,
    m1: CopyModel<R, W>,
)
    requires
        crate::copy_into::copy_calls(m0, calls, m1),
    ensures
        copy_steps(m0, calls, m1),
{
    reveal(crate::copy_into::copy_calls);
}

/// One call moves bytes and loses none: what sat in the buffer before and
/// what the call read is what the call wrote and what sits in the buffer
/// after. The count grows by the number of bytes written, modulo 2^64.
pub proof fn lemma_step_conserves<R, W, E>(m: CopyModel<R, W>, call: CopyCall<R, W, E>)
    requires
        model_wf(m),
        crate::copy_into::copy_fits(m, call),
    ensures
        model_wf(crate::copy_into::copy_step(m, call)),
        buffered(m) + read_by(call) == written_by(call) + buffered(
            crate::copy_into::copy_step(m, call),
        ),
        crate::copy_into::copy_step(m, call).progress.amt as int == (m.progress.amt
            + written_by(call).len()) % 0x1_0000_0000_0000_0000,
{
    reveal(crate::copy_into::copy_fits);
    reveal(crate::copy_into::copy_step);
    let m2 = crate::copy_into::copy_step(m, call);
    assert(buffered(m) + read_by(call) =~= written_by(call) + buffered(m2));
}

/// The first `k` calls of a copy move bytes and lose none, as in
/// [`lemma_step_conserves`].
pub proof fn lemma_steps_conserve<R, W, E>(
    m0: CopyModel<R, W>,
    calls: Seq<CopyCall<R, W, E>>,
    k: int,
)
    requires
        model_wf(m0),
        0 <= k <= calls.len(),
        forall|j: int|
            0 <= j < calls.len() ==> crate::copy_into::copy_fits(
                crate::copy_into::copy_after(m0, calls, j),
                #[trigger] calls[j],
            ),
    ensures
        model_wf(crate::copy_into::copy_after(m0, calls, k)),
        buffered(m0) + read_in(calls, k) == written_in(calls, k) + buffered(
            crate::copy_into::copy_after(m0, calls, k),
        ),
        crate::copy_into::copy_after(m0, calls, k).progress.amt as int == (m0.progress.amt
            + written_in(calls, k).len()) % 0x1_0000_0000_0000_0000,
    decreases k,
{
    if k == 0 {
        assert(buffered(m0) + read_in(calls, 0) =~= written_in(calls, 0) + buffered(m0));
    } else {
        lemma_steps_conserve(m0, calls, k - 1);
        let m = crate::copy_into::copy_after(m0, calls, k - 1);
        lemma_step_conserves(m, calls[k - 1]);
        let m2 = crate::copy_into::copy_after(m0, calls, k);
        assert(m2 == crate::copy_into::copy_step(m, calls[k - 1]));
        assert(buffered(m0) + read_in(calls, k) =~= (buffered(m0) + read_in(calls, k - 1))
            + read_by(calls[k - 1]));
        assert((written_in(calls, k - 1) + buffered(m)) + read_by(calls[k - 1]) =~= written_in(
            calls,
            k - 1,
        ) + (buffered(m) + read_by(calls[k - 1])));
        assert(written_in(calls, k - 1) + (written_by(calls[k - 1]) + buffered(m2))
            =~= written_in(calls, k) + buffered(m2));
    }
}

/// A copy moves every byte once and in order. Over all the calls that a
/// copy makes, in one poll or in several, what sat in the buffer at the
/// start followed by everything the reads gave is everything the writes
/// took followed by what sits in the buffer at the end; and the count has
/// grown by the number of bytes written, modulo 2^64.
pub proof fn lemma_copy_moves_every_byte_once<R, W, E>(
    m0: CopyModel<R, W>,
    calls: Seq<CopyCall<R, W, E>>,
    m1: CopyModel<R, W>,
)
    requires
        model_wf(m0),
        copy_steps(m0, calls, m1),
    ensures
        model_wf(m1),
        buffered(m0) + read_in(calls, calls.len() as int) == written_in(
            calls,
            calls.len() as int,
        ) + buffered(m1),
        m1.progress.amt as int == (m0.progress.amt + written_in(
            calls,
            calls.len() as int,
        ).len()) % 0x1_0000_0000_0000_0000,
{
    lemma_steps_conserve(m0, calls, calls.len() as int);
}

/// A copy that began with an empty buffer and a count of zero, and that has
/// come to where it flushes, has written exactly the bytes that it read, in
/// the same order, and counts their number, modulo 2^64.
pub proof fn lemma_finished_copy_wrote_what_it_read<R, W, E>(
    m0: CopyModel<R, W>,
    calls: Seq<CopyCall<R, W, E>>,
    m1: CopyModel<R, W>,
)
    requires
        m0.progress.pos == 0,
        m0.progress.cap == 0,
        m0.progress.amt == 0,
        copy_steps(m0, calls, m1),
        m1.progress.action() == crate::copy_into::CopyAction::Flush,
    ensures
        written_in(calls, calls.len() as int) == read_in(calls, calls.len() as int),
        m1.progress.amt == crate::copy_into::copy_count(
            read_in(calls, calls.len() as int).len(),
        ),
{
    lemma_copy_moves_every_byte_once(m0, calls, m1);
    assert(buffered(m0) =~= Seq::<u8>::empty());
    assert(buffered(m1) =~= Seq::<u8>::empty());
    assert(buffered(m0) + read_in(calls, calls.len() as int) =~= read_in(
        calls,
        calls.len() as int,
    ));
    assert(written_in(calls, calls.len() as int) + buffered(m1) =~= written_in(
        calls,
        calls.len() as int,
    ));
}

/// The copy after the calls of one list and then those of another is the
/// copy after the two lists joined.
pub proof fn lemma_copy_after_concat<R, W, E>(
    m0: CopyModel<R, W>,
    a: Seq<CopyCall<R, W, E>>,
    b: Seq<CopyCall<R, W, E>>,
    k: int,
)
    requires
        0 <= k <= b.len(),
    ensures
        crate::copy_into::copy_after(m0, a + b, a.len() + k) == crate::copy_into::copy_after(
            crate::copy_into::copy_after(m0, a, a.len() as int),
            b,
            k,
        ),
        read_in(a + b, a.len() + k) == read_in(a, a.len() as int) + read_in(b, k),
        written_in(a + b, a.len() + k) == written_in(a, a.len() as int) + written_in(b, k),
    decreases k,
{
    if k == 0 {
        lemma_prefix_of_concat(m0, a, b, a.len() as int);
        assert(read_in(a, a.len() as int) + read_in(b, 0) =~= read_in(a, a.len() as int));
        assert(written_in(a, a.len() as int) + written_in(b, 0) =~= written_in(
            a,
            a.len() as int,
        ));
    } else {
        lemma_copy_after_concat(m0, a, b, k - 1);
        assert((a + b)[a.len() + k - 1] == b[k - 1]);
        assert(read_in(a, a.len() as int) + (read_in(b, k - 1) + read_by(b[k - 1])) =~= (read_in(
            a,
            a.len() as int,
        ) + read_in(b, k - 1)) + read_by(b[k - 1]));
        assert(written_in(a, a.len() as int) + (written_in(b, k - 1) + written_by(b[k - 1]))
            =~= (written_in(a, a.len() as int) + written_in(b, k - 1)) + written_by(b[k - 1]));
    }
}

/// Calls that are joined to a list change nothing of the copy after the
/// first `j` calls of the list, nor of what those calls read and wrote.
pub proof fn lemma_prefix_of_concat<R, W, E>(
    m0: CopyModel<R, W>,
    a: Seq<CopyCall<R, W, E>>,
    b: Seq<CopyCall<R, W, E>>,
    j: int,
)
    requires
        j <= a.len(),
    ensures
        crate::copy_into::copy_after(m0, a + b, j) == crate::copy_into::copy_after(m0, a, j),
        read_in(a + b, j) == read_in(a, j),
        written_in(a + b, j) == written_in(a, j),
    decreases j,
{
    if j > 0 {
        lemma_prefix_of_concat(m0, a, b, j - 1);
        assert((a + b)[j - 1] == a[j - 1]);
    }
}

/// The calls of one poll after another are calls of the one copy: where a
/// copy that began as `m0` came to `m1` by the calls `a`, and from there to
/// `m2` by the calls `b`, it came from `m0` to `m2` by `a` and then `b`,
/// and read and wrote what the two read and wrote, in that order.
pub proof fn lemma_steps_concat<R, W, E>(
    m0: CopyModel<R, W>,
    a: Seq<CopyCall<R, W, E>>,
    m1: CopyModel<R, W>,
    b: Seq<CopyCall<R, W, E>>,
    m2: CopyModel<R, W>,
)
    requires
        copy_steps(m0, a, m1),
        copy_steps(m1, b, m2),
    ensures
        copy_steps(m0, a + b, m2),
        read_in(a + b, (a + b).len() as int) == read_in(a, a.len() as int) + read_in(
            b,
            b.len() as int,
        ),
        written_in(a + b, (a + b).len() as int) == written_in(a, a.len() as int) + written_in(
            b,
            b.len() as int,
        ),
{
    lemma_copy_after_concat(m0, a, b, b.len() as int);
    assert forall|k: int| 0 <= k < (a + b).len() implies crate::copy_into::copy_fits(
        crate::copy_into::copy_after(m0, a + b, k),
        #[trigger] (a + b)[k],
    ) by {
        if k < a.len() {
            lemma_prefix_of_concat(m0, a, b, k);
            assert((a + b)[k] == a[k]);
        } else {
            lemma_copy_after_concat(m0, a, b, k - a.len());
            assert((a + b)[k] == b[k - a.len()]);
        }
    }
}

/// A call that was not ready leaves the copy in its place: where it stands,
/// the count and the bytes in the buffer are as they were, so the next poll
/// makes the same kind of call again.
pub proof fn lemma_pending_call_keeps_place<R, W, E>(m: CopyModel<R, W>, call: CopyCall<R, W, E>)
    requires
        model_wf(m),
        crate::copy_into::copy_fits(m, call),
        crate::copy_into::copy_call_pending(call),
    ensures
        crate::copy_into::copy_step(m, call).progress == m.progress,
        buffered(crate::copy_into::copy_step(m, call)) == buffered(m),
        !crate::copy_into::copy_goes_on(call),
{
    reveal(crate::copy_into::copy_fits);
    reveal(crate::copy_into::copy_step);
    reveal(crate::copy_into::copy_goes_on);
    assert(buffered(crate::copy_into::copy_step(m, call)) =~= buffered(m));
}

} // verus!
