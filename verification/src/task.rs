//! Waking the task that a poll runs in.

use vstd::prelude::*;
use futures_core::task::{Context, Waker};

verus! {

/// `futures_core::task::Waker`, the handle that wakes one task.
#[verifier::external_type_specification]
#[verifier::external_body]
pub struct ExWaker(Waker);

/// `Context::waker`: the waker of the task that `cx` belongs to.
#[verifier::external_body]
fn context_waker<'a, 'b>(cx: &'a Context<'b>) -> &'a Waker {
    cx.waker()
}

/// `Waker::wake`: tells the executor that the task should be polled again.
/// The call runs the executor's own code, which may panic.
#[verifier::external_body]
fn waker_wake(waker: &Waker) {
    waker.wake()
}

/// Has the task of `cx` polled again soon. A combinator that returns
/// `Ok(Async::Pending)` on its own account, with no callee that was not
/// ready, calls this first, so that the task does not sleep for ever. The
/// waker belongs to the executor: if it panics, the panic passes through.
pub(crate) fn wake_task(cx: &mut Context<'_>) {
    waker_wake(context_waker(cx));
}

} // verus!
