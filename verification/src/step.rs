//! What a combinator does with the outcome of one call to its reader or
//! writer.

use vstd::prelude::*;
use futures_core::{Async, Poll};

verus! {

/// What a combinator does once a call that it made has returned.
#[derive(Debug)]
pub enum Step<E> {
    /// The call made progress: go on with the next one.
    Continue,
    /// The callee was not ready and has the task woken later: return
    /// `Ok(Async::Pending)` and keep the state as it is.
    Suspend,
    /// The operation has failed: return this error.
    Fail(E),
}

impl<E> Step<E> {
    /// The step after a call that moves no bytes, a flush or a close, has
    /// returned `res`: ready means go on, an error means fail.
    pub open spec fn of_unit_spec(res: Poll<(), E>) -> Step<E> {
        match res {
            Ok(Async::Ready(_)) => Step::Continue,
            Ok(Async::Pending) => Step::Suspend,
            Err(e) => Step::Fail(e),
        }
    }

    /// Takes in the outcome of a flush or a close.
    pub fn of_unit(res: Poll<(), E>) -> (s: Step<E>)
        ensures
            s == Self::of_unit_spec(res),
    {
        match res {
            Ok(Async::Ready(_)) => Step::Continue,
            Ok(Async::Pending) => Step::Suspend,
            Err(e) => Step::Fail(e),
        }
    }
}

} // verus!
