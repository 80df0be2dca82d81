//! Whether a buffer has to be zeroed before a reader sees it.

use vstd::prelude::*;

verus! {

/// Decides whether buffers handed to a reader are zeroed first.
#[derive(Debug)]
pub struct Initializer(bool);

impl Initializer {
    /// Whether this initializer zeroes buffers.
    pub closed spec fn zeroes(&self) -> bool {
        self.0
    }

    /// An initializer that zeroes buffers.
    pub fn zeroing() -> (r: Initializer)
        ensures
            r.zeroes(),
    {
        Initializer(true)
    }

    /// An initializer that leaves buffers as they are.
    ///
    /// Only a reader that never reads from the buffer it is given, and that
    /// reports exactly the number of bytes it wrote at the head of the
    /// buffer, may hand this out: its callers will treat the bytes it
    /// reports as read and no others as meaningful.
    pub fn nop() -> (r: Initializer)
        ensures
            !r.zeroes(),
    {
        Initializer(false)
    }

    /// Whether a buffer should be zeroed.
    pub fn should_initialize(&self) -> (b: bool)
        ensures
            b == self.zeroes(),
    {
        self.0
    }

    /// Zeroes `buf` if this initializer asks for it, and leaves it alone
    /// otherwise.
    pub fn initialize(&self, buf: &mut [u8])
        ensures
            final(buf)@.len() == old(buf)@.len(),
            self.zeroes() ==> final(buf)@ == Seq::new(old(buf)@.len(), |i: int| 0u8),
            !self.zeroes() ==> final(buf)@ == old(buf)@,
    {
        if self.should_initialize() {
            let n = buf.len();
            let mut i: usize = 0;
            while i < n
                invariant
                    i <= n,
                    n == buf@.len(),
                    buf@.len() == old(buf)@.len(),
                    forall|j: int| 0 <= j < i ==> buf@[j] == 0u8,
                decreases n - i,
            {
                buf[i] = 0;
                i += 1;
            }
        }
    }
}

} // verus!
