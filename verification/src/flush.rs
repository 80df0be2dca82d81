//! Flushing a writer.

use vstd::prelude::*;
use futures_core::{Async, Poll};
use futures_core::task::Context;
use crate::io::CoreAsyncWrite;
use crate::step::Step;

verus! {

/// Flushes a writer and then hands it back.
///
/// Made by [`flush`].
#[derive(Debug)]
pub struct Flush<A> {
    a: Option<A>,
}

/// Starts to flush `a`.
pub fn flush<A: CoreAsyncWrite>(a: A) -> (r: Flush<A>)
    ensures
        r.active(),
        r.writer() == a,
{
    Flush { a: Some(a) }
}

impl<A> Flush<A> {
    /// Whether the operation is still under way: it has neither finished
    /// nor failed.
    pub closed spec fn active(&self) -> bool {
        self.a is Some
    }

    /// The writer, while the operation is under way.
    pub closed spec fn writer(&self) -> A
        recommends
            self.active(),
    {
        self.a->0
    }

    /// Whether the operation is still under way.
    pub fn is_active(&self) -> (b: bool)
        ensures
            b == self.active(),
    {
        self.a.is_some()
    }
}

impl<A: CoreAsyncWrite> Flush<A> {
    /// Asks the writer once to flush.
    ///
    /// The outcome is that of this one call. Where the writer is ready it is
    /// handed back as the call left it, and the operation is over; an error
    /// of the writer is handed back as it is, the operation is over too, and
    /// the writer is gone; where the writer is not ready the operation stays
    /// under way.
    ///
    /// A poll of an operation that is over panics.
    pub fn poll(&mut self, cx: &mut Context<'_>) -> (r: Poll<A, A::Error>)
        requires
            old(self).active(),
        ensures
            final(self).active() <==> r == Ok::<Async<A>, A::Error>(Async::Pending),
            exists|w: &mut A, c: &mut Context<'_>, res: Poll<(), A::Error>|
                A::poll_flush_core.ensures((w, c), res) && *w == old(self).writer() && (match res {
                    Ok(Async::Ready(_)) => r == Ok::<Async<A>, A::Error>(Async::Ready(*final(w))),
                    Ok(Async::Pending) => r == Ok::<Async<A>, A::Error>(Async::Pending)
                        && final(self).writer() == *final(w),
                    Err(e) => r == Err::<Async<A>, A::Error>(e),
                }),
    {
        let mut a = self.a.take().unwrap();
        match Step::of_unit(a.poll_flush_core(cx)) {
            Step::Continue => Ok(Async::Ready(a)),
            Step::Suspend => {
                self.a = Some(a);
                Ok(Async::Pending)
            },
            Step::Fail(e) => Err(e),
        }
    }
}

} // verus!
