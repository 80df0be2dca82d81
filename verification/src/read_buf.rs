//! A cursor over a fixed region of memory that is filled and initialized
//! step by step.

use vstd::prelude::*;

verus! {

/// What a [`ReadBuf`] stands for: the bytes of the region and the two
/// offsets into it.
///
/// The bytes in `[0, filled)` are data; those in `[filled, initialized)` have
/// been written at some point and may be read, but mean nothing yet; those in
/// `[initialized, mem.len())` are not to be read.
pub struct ReadBufView {
    /// The bytes of the whole region.
    pub mem: Seq<u8>,
    /// The length of the filled prefix.
    pub filled: nat,
    /// The length of the initialized prefix.
    pub initialized: nat,
}

/// One operation on a cursor, as a value.
pub enum CursorOp {
    /// Zero the bytes from the initialized mark up to the given offset.
    InitializeUnfilledTo(nat),
    /// Declare the bytes up to the given offset initialized.
    AssumeInit(nat),
    /// Move the filled mark forward by the given count.
    AddFilled(nat),
    /// Put the filled mark at the given offset.
    SetFilled(nat),
    /// Copy the given bytes in at the filled mark and move it past them.
    Append(Seq<u8>),
    /// Put the filled mark back at the start.
    Clear,
    /// Overwrite the region from the given offset on with the given bytes,
    /// as a write through one of the mutable views does.
    Write(nat, Seq<u8>),
}

impl ReadBufView {
    /// The offsets are nested: `filled <= initialized <= capacity`.
    pub open spec fn wf(self) -> bool {
        self.filled <= self.initialized <= self.mem.len()
    }

    /// The size of the whole region.
    pub open spec fn capacity(self) -> nat {
        self.mem.len()
    }

    /// The bytes that hold data.
    pub open spec fn filled_bytes(self) -> Seq<u8> {
        self.mem.subrange(0, self.filled as int)
    }

    /// The bytes that may be read, the filled ones included.
    pub open spec fn initialized_bytes(self) -> Seq<u8> {
        self.mem.subrange(0, self.initialized as int)
    }

    /// Everything behind the filled mark.
    pub open spec fn unfilled_bytes(self) -> Seq<u8> {
        self.mem.subrange(self.filled as int, self.mem.len() as int)
    }

    /// Everything behind the initialized mark.
    pub open spec fn uninitialized_bytes(self) -> Seq<u8> {
        self.mem.subrange(self.initialized as int, self.mem.len() as int)
    }

    /// The bytes that may be read but hold no data yet.
    pub open spec fn spare_bytes(self) -> Seq<u8> {
        self.mem.subrange(self.filled as int, self.initialized as int)
    }

    /// How many bytes can still be filled.
    pub open spec fn remaining(self) -> nat {
        (self.mem.len() - self.filled) as nat
    }

    /// The cursor after the bytes in `[initialized, n)` have been zeroed and
    /// the initialized mark has moved to `max(initialized, n)`.
    pub open spec fn zeroed_to(self, n: nat) -> ReadBufView {
        ReadBufView {
            mem: Seq::new(
                self.mem.len(),
                |i: int|
                    if self.initialized <= i < n {
                        0u8
                    } else {
                        self.mem[i]
                    },
            ),
            filled: self.filled,
            initialized: if n > self.initialized {
                n
            } else {
                self.initialized
            },
        }
    }

    /// The cursor after the initialized mark has moved to
    /// `max(initialized, n)`, with no byte touched.
    pub open spec fn assumed_init(self, n: nat) -> ReadBufView {
        ReadBufView {
            mem: self.mem,
            filled: self.filled,
            initialized: if n > self.initialized {
                n
            } else {
                self.initialized
            },
        }
    }

    /// The cursor with the filled mark at `n`.
    pub open spec fn with_filled(self, n: nat) -> ReadBufView {
        ReadBufView { mem: self.mem, filled: n, initialized: self.initialized }
    }

    /// The cursor after `bytes` have been copied in at the filled mark: the
    /// filled mark moves past them, and the initialized mark with it where it
    /// was behind.
    pub open spec fn appended(self, bytes: Seq<u8>) -> ReadBufView {
        let end: nat = (self.filled + bytes.len()) as nat;
        ReadBufView {
            mem: self.written(self.filled, bytes).mem,
            filled: end,
            initialized: if end > self.initialized {
                end
            } else {
                self.initialized
            },
        }
    }

    /// The cursor after the bytes from `at` on have been replaced by `bytes`.
    pub open spec fn written(self, at: nat, bytes: Seq<u8>) -> ReadBufView {
        ReadBufView {
            mem: self.mem.subrange(0, at as int) + bytes + self.mem.subrange(
                (at + bytes.len()) as int,
                self.mem.len() as int,
            ),
            filled: self.filled,
            initialized: self.initialized,
        }
    }

    /// Whether `op` may be applied to this cursor.
    pub open spec fn admits(self, op: CursorOp) -> bool {
        match op {
            CursorOp::InitializeUnfilledTo(n) => n <= self.mem.len(),
            CursorOp::AssumeInit(n) => n <= self.mem.len(),
            CursorOp::AddFilled(n) => self.filled + n <= self.initialized,
            CursorOp::SetFilled(n) => n <= self.initialized,
            CursorOp::Append(bytes) => bytes.len() <= self.remaining(),
            CursorOp::Clear => true,
            CursorOp::Write(at, bytes) => at + bytes.len() <= self.mem.len(),
        }
    }

    /// The cursor after `op`.
    pub open spec fn apply(self, op: CursorOp) -> ReadBufView {
        match op {
            CursorOp::InitializeUnfilledTo(n) => self.zeroed_to(n),
            CursorOp::AssumeInit(n) => self.assumed_init(n),
            CursorOp::AddFilled(n) => self.with_filled((self.filled + n) as nat),
            CursorOp::SetFilled(n) => self.with_filled(n),
            CursorOp::Append(bytes) => self.appended(bytes),
            CursorOp::Clear => self.with_filled(0),
            CursorOp::Write(at, bytes) => self.written(at, bytes),
        }
    }

    /// Whether each operation of `ops` may be applied in turn, starting from
    /// this cursor.
    pub open spec fn admits_all(self, ops: Seq<CursorOp>) -> bool
        decreases ops.len(),
    {
        if ops.len() == 0 {
            true
        } else {
            self.admits(ops[0]) && self.apply(ops[0]).admits_all(ops.drop_first())
        }
    }

    /// The cursor after the operations of `ops`, applied in turn.
    pub open spec fn apply_all(self, ops: Seq<CursorOp>) -> ReadBufView
        decreases ops.len(),
    {
        if ops.len() == 0 {
            self
        } else {
            self.apply(ops[0]).apply_all(ops.drop_first())
        }
    }

    /// One admitted operation keeps the offsets nested, leaves the capacity
    /// as it was and never moves the initialized mark back.
    pub proof fn lemma_apply_keeps_order(self, op: CursorOp)
        requires
            self.wf(),
            self.admits(op),
        ensures
            self.apply(op).wf(),
            self.apply(op).capacity() == self.capacity(),
            self.apply(op).initialized >= self.initialized,
    {
    }

    /// Applying one sequence after another is the same as applying the two
    /// joined, and the joined sequence is admitted where the first is and
    /// the second is after it.
    pub proof fn lemma_apply_all_concat(self, a: Seq<CursorOp>, b: Seq<CursorOp>)
        ensures
            self.apply_all(a + b) == self.apply_all(a).apply_all(b),
            self.admits_all(a + b) == (self.admits_all(a) && self.apply_all(a).admits_all(b)),
        decreases a.len(),
    {
        if a.len() == 0 {
        } else {
            assert((a + b).drop_first() =~= a.drop_first() + b);
            self.apply(a[0]).lemma_apply_all_concat(a.drop_first(), b);
        }
    }

    /// Any sequence of admitted operations keeps the offsets nested, leaves
    /// the capacity as it was and never moves the initialized mark back.
    pub proof fn lemma_apply_all_keeps_order(self, ops: Seq<CursorOp>)
        requires
            self.wf(),
            self.admits_all(ops),
        ensures
            self.apply_all(ops).wf(),
            self.apply_all(ops).capacity() == self.capacity(),
            self.apply_all(ops).initialized >= self.initialized,
        decreases ops.len(),
    {
        if ops.len() > 0 {
            self.lemma_apply_keeps_order(ops[0]);
            self.apply(ops[0]).lemma_apply_all_keeps_order(ops.drop_first());
        }
    }

    /// Along any sequence of admitted operations, the offsets are nested
    /// after every single one of them, the capacity is what it was at the
    /// start, and the initialized mark after `k` operations is at least
    /// where it was after `j <= k` of them.
    pub proof fn lemma_order_after_every_call(self, ops: Seq<CursorOp>, j: int, k: int)
        requires
            self.wf(),
            self.admits_all(ops),
            0 <= j <= k <= ops.len(),
        ensures
            self.apply_all(ops.take(k)).wf(),
            self.apply_all(ops.take(k)).capacity() == self.capacity(),
            self.apply_all(ops.take(j)).initialized <= self.apply_all(ops.take(k)).initialized,
    {
        assert(ops =~= ops.take(k) + ops.skip(k));
        self.lemma_apply_all_concat(ops.take(k), ops.skip(k));
        self.lemma_apply_all_keeps_order(ops.take(k));
        assert(ops.take(k) =~= ops.take(j) + ops.subrange(j, k));
        self.lemma_apply_all_concat(ops.take(j), ops.subrange(j, k));
        self.lemma_apply_all_keeps_order(ops.take(j));
        self.apply_all(ops.take(j)).lemma_apply_all_keeps_order(ops.subrange(j, k));
    }

    /// Zeroing up to the same offset a second time changes nothing.
    pub proof fn lemma_zeroed_to_idempotent(self, n: nat)
        requires
            self.wf(),
            n <= self.capacity(),
        ensures
            self.zeroed_to(n).zeroed_to(n) == self.zeroed_to(n),
    {
        assert(self.zeroed_to(n).zeroed_to(n).mem =~= self.zeroed_to(n).mem);
    }

    /// Zeroing touches no byte that was initialized before, and none at or
    /// behind the offset it zeroes up to.
    pub proof fn lemma_zeroed_to_spares_initialized(self, n: nat)
        requires
            self.wf(),
            n <= self.capacity(),
        ensures
            self.zeroed_to(n).mem.subrange(0, self.initialized as int)
                == self.initialized_bytes(),
            forall|i: int|
                n <= i < self.capacity() ==> self.zeroed_to(n).mem[i] == self.mem[i],
            n <= self.initialized ==> self.zeroed_to(n) == self,
    {
        if n <= self.initialized {
            assert(self.zeroed_to(n).mem =~= self.mem);
        }
    }
}

/// A cursor over a borrowed region of memory that is filled and initialized
/// step by step.
///
/// It tracks three parts of the region: a prefix that holds data, a stretch
/// behind it that has been initialized but holds no data yet, and a rest that
/// has not been initialized. The filled prefix always lies inside the
/// initialized one.
#[derive(Debug)]
pub struct ReadBuf<'a> {
    /// The region.
    pub buf: &'a mut [u8],
    /// The length of the filled prefix.
    pub filled: usize,
    /// The length of the initialized prefix.
    pub initialized: usize,
}

impl<'a> View for ReadBuf<'a> {
    type V = ReadBufView;

    open spec fn view(&self) -> ReadBufView {
        ReadBufView {
            mem: self.buf@,
            filled: self.filled as nat,
            initialized: self.initialized as nat,
        }
    }
}

impl<'a> ReadBuf<'a> {
    /// The offsets are nested: `filled <= initialized <= capacity`.
    pub open spec fn wf(&self) -> bool {
        self@.wf()
    }

    /// A cursor over a region that is initialized as a whole.
    pub fn new(buf: &'a mut [u8]) -> (r: ReadBuf<'a>)
        ensures
            r.wf(),
            r@ == (ReadBufView { mem: old(buf)@, filled: 0, initialized: old(buf)@.len() }),
            final(r.buf)@ == final(buf)@,
    {
        let length = buf.len();
        ReadBuf { buf, filled: 0, initialized: length }
    }

    /// A cursor over a region of which nothing counts as initialized.
    ///
    /// Use `assume_init` where a part of the region is known to be
    /// initialized already.
    pub fn uninit(buf: &'a mut [u8]) -> (r: ReadBuf<'a>)
        ensures
            r.wf(),
            r@ == (ReadBufView { mem: old(buf)@, filled: 0, initialized: 0 }),
            final(r.buf)@ == final(buf)@,
    {
        ReadBuf { buf, filled: 0, initialized: 0 }
    }

    /// The size of the whole region.
    pub fn len(&self) -> (n: usize)
        ensures
            n == self@.capacity(),
    {
        self.buf.len()
    }

    /// The filled part of the region.
    pub fn filled(&self) -> (r: &[u8])
        requires
            self.wf(),
        ensures
            r@ == self@.filled_bytes(),
    {
        vstd::slice::slice_subrange(self.buf, 0, self.filled)
    }

    /// The filled part of the region, to be changed in place.
    pub fn filled_mut(&mut self) -> (r: &mut [u8])
        requires
            old(self).wf(),
        ensures
            r@ == old(self)@.filled_bytes(),
            final(self)@.filled == old(self)@.filled,
            final(self)@.initialized == old(self)@.initialized,
            final(self)@.mem == final(r)@ + old(self)@.unfilled_bytes(),
            final(r)@.len() == r@.len() ==> final(self)@ == old(self)@.written(0, final(r)@),
            final(final(self).buf)@ == final(old(self).buf)@,
    {
        let (head, _tail) = self.buf.split_at_mut(self.filled);
        head
    }

    /// The initialized part of the region, the filled part included.
    pub fn initialized(&self) -> (r: &[u8])
        requires
            self.wf(),
        ensures
            r@ == self@.initialized_bytes(),
    {
        vstd::slice::slice_subrange(self.buf, 0, self.initialized)
    }

    /// The initialized part of the region, the filled part included, to be
    /// changed in place.
    pub fn initialized_mut(&mut self) -> (r: &mut [u8])
        requires
            old(self).wf(),
        ensures
            r@ == old(self)@.initialized_bytes(),
            final(self)@.filled == old(self)@.filled,
            final(self)@.initialized == old(self)@.initialized,
            final(self)@.mem == final(r)@ + old(self)@.uninitialized_bytes(),
            final(r)@.len() == r@.len() ==> final(self)@ == old(self)@.written(0, final(r)@),
            final(final(self).buf)@ == final(old(self).buf)@,
    {
        let (head, _tail) = self.buf.split_at_mut(self.initialized);
        head
    }

    /// Everything behind the filled mark, whether it has been initialized or
    /// not, to be written to.
    ///
    /// A caller that writes bytes here and wants them to count tells the
    /// cursor so with `assume_init` and `add_filled`.
    pub fn unfilled_mut(&mut self) -> (r: &mut [u8])
        requires
            old(self).wf(),
        ensures
            r@ == old(self)@.unfilled_bytes(),
            final(self)@.filled == old(self)@.filled,
            final(self)@.initialized == old(self)@.initialized,
            final(self)@.mem == old(self)@.filled_bytes() + final(r)@,
            final(r)@.len() == r@.len() ==> final(self)@ == old(self)@.written(
                old(self)@.filled,
                final(r)@,
            ),
            final(final(self).buf)@ == final(old(self).buf)@,
    {
        let (_head, tail) = self.buf.split_at_mut(self.filled);
        tail
    }

    /// Everything behind the filled mark, initialized as a whole first.
    ///
    /// The cursor remembers what has been initialized, so only the first use
    /// costs anything.
    pub fn initialize_unfilled(&mut self) -> (r: &mut [u8])
        requires
            old(self).wf(),
        ensures
            r@ == old(self)@.zeroed_to(old(self)@.capacity()).unfilled_bytes(),
            final(self)@.filled == old(self)@.filled,
            final(self)@.initialized == old(self)@.capacity(),
            final(self)@.mem == old(self)@.filled_bytes() + final(r)@,
            final(r)@.len() == r@.len() ==> final(self)@ == old(self)@.zeroed_to(
                old(self)@.capacity(),
            ).written(old(self)@.filled, final(r)@),
            final(final(self).buf)@ == final(old(self).buf)@,
    {
        let n = self.len();
        let r = self.initialize_unfilled_to(n);
        r
    }

    /// Zeroes the bytes in `[initialized, n)`, moves the initialized mark to
    /// `max(initialized, n)`, and hands out the stretch between the filled
    /// mark and the new initialized mark.
    ///
    /// No byte that was initialized before is touched.
    pub fn initialize_unfilled_to(&mut self, n: usize) -> (r: &mut [u8])
        requires
            old(self).wf(),
            n <= old(self)@.capacity(),
        ensures
            r@ == old(self)@.zeroed_to(n as nat).spare_bytes(),
            final(self)@.filled == old(self)@.filled,
            final(self)@.initialized == old(self)@.zeroed_to(n as nat).initialized,
            final(self)@.mem == old(self)@.zeroed_to(n as nat).filled_bytes() + final(r)@ + old(
                self,
            )@.zeroed_to(n as nat).uninitialized_bytes(),
            final(r)@.len() == r@.len() ==> final(self)@ == old(self)@.zeroed_to(
                n as nat,
            ).written(old(self)@.filled, final(r)@),
            final(final(self).buf)@ == final(old(self).buf)@,
    {
        let mut i: usize = self.initialized;
        while i < n
            invariant
                old(self).initialized <= i,
                i <= n || i == old(self).initialized,
                n <= self.buf@.len(),
                self.buf@.len() == old(self).buf@.len(),
                self.filled == old(self).filled,
                self.initialized == old(self).initialized,
                forall|j: int|
                    0 <= j < self.buf@.len() ==> self.buf@[j] == if old(self).initialized <= j
                        < i {
                        0u8
                    } else {
                        old(self).buf@[j]
                    },
                final(self.buf)@ == final(old(self).buf)@,
            decreases n - i,
        {
            self.buf[i] = 0;
            i += 1;
        }
        if n > self.initialized {
            self.initialized = n;
        }
        let ghost v = old(self)@.zeroed_to(n as nat);
        let (head, _rest) = self.buf.split_at_mut(self.initialized);
        let (_data, spare) = head.split_at_mut(self.filled);
        proof {
            assert(_data@ =~= v.filled_bytes());
            assert(_rest@ =~= v.uninitialized_bytes());
        }
        spare
    }

    /// How many bytes can still be filled.
    pub fn remaining(&self) -> (n: usize)
        requires
            self.wf(),
        ensures
            n == self@.remaining(),
    {
        self.len() - self.filled
    }

    /// Empties the filled part. What has been initialized stays so, and no
    /// byte changes.
    pub fn clear(&mut self)
        ensures
            final(self)@ == old(self)@.with_filled(0),
            final(final(self).buf)@ == final(old(self).buf)@,
    {
        self.filled = 0;
    }

    /// Moves the filled mark forward by `n`. The initialized mark stays.
    pub fn add_filled(&mut self, n: usize)
        requires
            old(self)@.filled + n <= old(self)@.initialized,
        ensures
            final(self)@ == old(self)@.with_filled((old(self)@.filled + n) as nat),
            final(final(self).buf)@ == final(old(self).buf)@,
    {
        self.filled += n;
    }

    /// Puts the filled mark at `n`, which may lie before or behind where it
    /// was. The initialized mark stays.
    pub fn set_filled(&mut self, n: usize)
        requires
            n <= old(self)@.initialized,
        ensures
            final(self)@ == old(self)@.with_filled(n as nat),
            final(final(self).buf)@ == final(old(self).buf)@,
    {
        self.filled = n;
    }

    /// Declares the first `n` bytes of the region initialized, without
    /// touching them. Where more than `n` bytes are initialized already,
    /// nothing changes.
    ///
    /// The caller vouches that the bytes have been written, by a read that
    /// went straight into `unfilled_mut`, say: the cursor will hand them out
    /// as readable from now on.
    pub fn assume_init(&mut self, n: usize)
        requires
            n <= old(self)@.capacity(),
        ensures
            final(self)@ == old(self)@.assumed_init(n as nat),
            final(final(self).buf)@ == final(old(self).buf)@,
    {
        if n > self.initialized {
            self.initialized = n;
        }
    }

    /// Copies `buf` in at the filled mark and moves the mark past it; the
    /// initialized mark moves along where it was behind.
    pub fn append(&mut self, buf: &[u8])
        requires
            old(self).wf(),
            buf@.len() <= old(self)@.remaining(),
        ensures
            final(self)@ == old(self)@.appended(buf@),
            final(final(self).buf)@ == final(old(self).buf)@,
    {
        let n = buf.len();
        let start = self.filled;
        let cap = self.buf.len();
        let mut i: usize = 0;
        while i < n
            invariant
                i <= n,
                n == buf@.len(),
                start == old(self).filled,
                start + n <= cap,
                cap == self.buf@.len(),
                self.buf@.len() == old(self).buf@.len(),
                self.filled == old(self).filled,
                self.initialized == old(self).initialized,
                forall|j: int|
                    0 <= j < self.buf@.len() ==> self.buf@[j] == if start <= j < start + i {
                        buf@[j - start]
                    } else {
                        old(self).buf@[j]
                    },
                final(self.buf)@ == final(old(self).buf)@,
            decreases n - i,
        {
            self.buf[start + i] = buf[i];
            i += 1;
        }
        self.filled = start + n;
        if self.filled > self.initialized {
            self.initialized = self.filled;
        }
        assert(self.buf@ =~= old(self)@.appended(buf@).mem);
    }
}

} // verus!
