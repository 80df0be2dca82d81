//! Splitting one resource that reads and writes into a read half and a
//! write half.

use vstd::prelude::*;
use std::sync::{Arc, Mutex, MutexGuard, TryLockError};
use futures_core::{Async, Poll};
use futures_core::task::Context;
use iovec::IoVec;
use crate::io::{CoreAsyncRead, CoreAsyncWrite};
use crate::task::wake_task;

verus! {

/// `std::sync::Mutex`, the cell that lets one thread at a time at the
/// resource.
#[verifier::external_type_specification]
#[verifier::external_body]
#[verifier::reject_recursive_types(T)]
pub struct ExMutex<T: ?Sized>(Mutex<T>);

/// `std::sync::MutexGuard`, which stands for a held lock and releases it
/// when it goes out of scope.
#[verifier::external_type_specification]
#[verifier::external_body]
#[verifier::reject_recursive_types(T)]
pub struct ExMutexGuard<'a, T: ?Sized + 'a>(MutexGuard<'a, T>);

/// `Mutex::new`: a fresh, unlocked cell around `t`.
#[verifier::external_body]
fn mutex_new<T>(t: T) -> Mutex<T> {
    Mutex::new(t)
}

/// `Arc::clone`: a second handle that points to the same cell as `a`.
#[verifier::external_body]
fn arc_clone<T>(a: &Arc<Mutex<T>>) -> (r: Arc<Mutex<T>>)
    ensures
        r == *a,
{
    a.clone()
}

/// What one attempt to take a lock came to.
#[derive(Debug)]
pub enum LockAttempt<G> {
    /// The lock was free and is now held.
    Acquired(G),
    /// The lock was free and is now held; a former holder panicked while it
    /// held it.
    Poisoned(G),
    /// Another handle holds the lock.
    WouldBlock,
}

/// `Mutex::try_lock`: one attempt to take the lock without waiting, with the
/// three outcomes that std tells apart. Which of them comes depends on what
/// other threads do, so nothing is promised.
#[verifier::external_body]
fn mutex_try_lock<'a, T>(m: &'a Mutex<T>) -> LockAttempt<MutexGuard<'a, T>> {
    match m.try_lock() {
        Ok(guard) => LockAttempt::Acquired(guard),
        Err(TryLockError::Poisoned(poisoned)) => LockAttempt::Poisoned(poisoned.into_inner()),
        Err(TryLockError::WouldBlock) => LockAttempt::WouldBlock,
    }
}

/// `<MutexGuard as DerefMut>::deref_mut`: the resource behind a held lock.
#[verifier::external_body]
fn guard_resource<'a, 'b, T>(guard: &'a mut MutexGuard<'b, T>) -> &'a mut T {
    &mut **guard
}

/// What an attempt to take the lock comes to for a handle. With the lock in
/// hand the handle is ready to go on with it, also where a former holder
/// panicked: the resource is as that holder left it, and the other half is
/// not shut out for ever. Without the lock the handle is pending, and the
/// task of `cx` is woken so that it tries again; a panic of the waker
/// passes through.
pub fn lock_outcome<G>(got: LockAttempt<G>, cx: &mut Context<'_>) -> (r: Async<G>)
    ensures
        r == (match got {
            LockAttempt::Acquired(guard) => Async::Ready(guard),
            LockAttempt::Poisoned(guard) => Async::Ready(guard),
            LockAttempt::WouldBlock => Async::Pending,
        }),
{
    match got {
        LockAttempt::Acquired(guard) => Async::Ready(guard),
        LockAttempt::Poisoned(guard) => Async::Ready(guard),
        LockAttempt::WouldBlock => {
            wake_task(cx);
            Async::Pending
        },
    }
}

/// Reads from the resource with the lock attempt `got`. With the lock in hand, also one
/// that a former holder left poisoned, the resource behind it is asked
/// once, and the outcome of that read is handed back as it is; the lock is
/// let go when the call returns. Without the lock the resource is not
/// touched: the call is pending, and the task of `cx` is woken so that it
/// tries again.
pub fn read_with_lock<'a, T: CoreAsyncRead>(
    got: LockAttempt<MutexGuard<'a, T>>,
    cx: &mut Context<'_>, buf: &mut [u8],
) -> (r: Poll<usize, T::Error>)
    ensures
        got is WouldBlock ==> r == Ok::<Async<usize>, T::Error>(Async::Pending)
            && final(buf)@ == old(buf)@,
        !(got is WouldBlock) ==> exists|resource: &mut T, c: &mut Context<'_>, b: &mut [u8]|
            T::poll_read_core.ensures((resource, c, b), r) && b@ == old(buf)@ && final(b)@ == final(buf)@,
{
    match lock_outcome(got, cx) {
        Async::Ready(mut guard) => guard_resource(&mut guard).poll_read_core(cx, buf),
        Async::Pending => Ok(Async::Pending),
    }
}

/// Reads from the resource into the segments with the lock attempt `got`. With the lock in hand, also one
/// that a former holder left poisoned, the resource behind it is asked
/// once, and the outcome of that vectored read is handed back as it is; the lock is
/// let go when the call returns. Without the lock the resource is not
/// touched: the call is pending, and the task of `cx` is woken so that it
/// tries again.
pub fn vectored_read_with_lock<'a, T: CoreAsyncRead>(
    got: LockAttempt<MutexGuard<'a, T>>,
    cx: &mut Context<'_>, vec: &mut [&mut IoVec],
) -> (r: Poll<usize, T::Error>)
    ensures
        got is WouldBlock ==> r == Ok::<Async<usize>, T::Error>(Async::Pending)
            && final(vec)@ == old(vec)@,
        !(got is WouldBlock) ==> exists|resource: &mut T, c: &mut Context<'_>, v: &mut [&mut IoVec]|
            T::poll_vectored_read_core.ensures((resource, c, v), r) && v@ == old(vec)@ && final(v)@
                == final(vec)@,
{
    match lock_outcome(got, cx) {
        Async::Ready(mut guard) => guard_resource(&mut guard).poll_vectored_read_core(cx, vec),
        Async::Pending => Ok(Async::Pending),
    }
}

/// Writes to the resource with the lock attempt `got`. With the lock in hand, also one
/// that a former holder left poisoned, the resource behind it is asked
/// once, and the outcome of that write is handed back as it is; the lock is
/// let go when the call returns. Without the lock the resource is not
/// touched: the call is pending, and the task of `cx` is woken so that it
/// tries again.
pub fn write_with_lock<'a, T: CoreAsyncWrite>(
    got: LockAttempt<MutexGuard<'a, T>>,
    cx: &mut Context<'_>, buf: &[u8],
) -> (r: Poll<usize, T::Error>)
    ensures
        got is WouldBlock ==> r == Ok::<Async<usize>, T::Error>(Async::Pending),
        !(got is WouldBlock) ==> exists|resource: &mut T, c: &mut Context<'_>|
            T::poll_write_core.ensures((resource, c, buf), r),
{
    match lock_outcome(got, cx) {
        Async::Ready(mut guard) => guard_resource(&mut guard).poll_write_core(cx, buf),
        Async::Pending => Ok(Async::Pending),
    }
}

/// Writes the segments to the resource with the lock attempt `got`. With the lock in hand, also one
/// that a former holder left poisoned, the resource behind it is asked
/// once, and the outcome of that vectored write is handed back as it is; the lock is
/// let go when the call returns. Without the lock the resource is not
/// touched: the call is pending, and the task of `cx` is woken so that it
/// tries again.
pub fn vectored_write_with_lock<'a, T: CoreAsyncWrite>(
    got: LockAttempt<MutexGuard<'a, T>>,
    cx: &mut Context<'_>, vec: &[&IoVec],
) -> (r: Poll<usize, T::Error>)
    ensures
        got is WouldBlock ==> r == Ok::<Async<usize>, T::Error>(Async::Pending),
        !(got is WouldBlock) ==> exists|resource: &mut T, c: &mut Context<'_>|
            T::poll_vectored_write_core.ensures((resource, c, vec), r),
{
    match lock_outcome(got, cx) {
        Async::Ready(mut guard) => guard_resource(&mut guard).poll_vectored_write_core(cx, vec),
        Async::Pending => Ok(Async::Pending),
    }
}

/// Flushes the resource with the lock attempt `got`. With the lock in hand, also one
/// that a former holder left poisoned, the resource behind it is asked
/// once, and the outcome of that flush is handed back as it is; the lock is
/// let go when the call returns. Without the lock the resource is not
/// touched: the call is pending, and the task of `cx` is woken so that it
/// tries again.
pub fn flush_with_lock<'a, T: CoreAsyncWrite>(
    got: LockAttempt<MutexGuard<'a, T>>,
    cx: &mut Context<'_>,
) -> (r: Poll<(), T::Error>)
    ensures
        got is WouldBlock ==> r == Ok::<Async<()>, T::Error>(Async::Pending),
        !(got is WouldBlock) ==> exists|resource: &mut T, c: &mut Context<'_>|
            T::poll_flush_core.ensures((resource, c), r),
{
    match lock_outcome(got, cx) {
        Async::Ready(mut guard) => guard_resource(&mut guard).poll_flush_core(cx),
        Async::Pending => Ok(Async::Pending),
    }
}

/// Closes the resource with the lock attempt `got`. With the lock in hand, also one
/// that a former holder left poisoned, the resource behind it is asked
/// once, and the outcome of that close is handed back as it is; the lock is
/// let go when the call returns. Without the lock the resource is not
/// touched: the call is pending, and the task of `cx` is woken so that it
/// tries again.
pub fn close_with_lock<'a, T: CoreAsyncWrite>(
    got: LockAttempt<MutexGuard<'a, T>>,
    cx: &mut Context<'_>,
) -> (r: Poll<(), T::Error>)
    ensures
        got is WouldBlock ==> r == Ok::<Async<()>, T::Error>(Async::Pending),
        !(got is WouldBlock) ==> exists|resource: &mut T, c: &mut Context<'_>|
            T::poll_close_core.ensures((resource, c), r),
{
    match lock_outcome(got, cx) {
        Async::Ready(mut guard) => guard_resource(&mut guard).poll_close_core(cx),
        Async::Pending => Ok(Async::Pending),
    }
}

/// The half of a split resource that reads.
#[verifier::reject_recursive_types(T)]
#[derive(Debug)]
pub struct ReadHalf<T> {
    handle: Arc<Mutex<T>>,
}

/// The half of a split resource that writes.
#[verifier::reject_recursive_types(T)]
#[derive(Debug)]
pub struct WriteHalf<T> {
    handle: Arc<Mutex<T>>,
}

/// Splits `t` into a half that reads and a half that writes. Both reach the
/// one resource through a lock, which a half holds for the length of one
/// call and no longer; the resource lives until both halves are gone.
pub fn split<T: CoreAsyncRead + CoreAsyncWrite>(t: T) -> (r: (ReadHalf<T>, WriteHalf<T>))
    ensures
        r.0.shares_cell_with(&r.1),
{
    let a = Arc::new(mutex_new(t));
    let b = arc_clone(&a);
    (ReadHalf { handle: a }, WriteHalf { handle: b })
}

impl<T> ReadHalf<T> {
    /// Whether this half and `other` reach their resource through one and
    /// the same cell, so that a call through one of them keeps the other
    /// out for as long as it lasts.
    pub closed spec fn shares_cell_with(&self, other: &WriteHalf<T>) -> bool {
        self.handle == other.handle
    }
}

impl<T: CoreAsyncRead> CoreAsyncRead for ReadHalf<T> {
    type Error = T::Error;

    /// Reads from the resource if the lock is free. If the other half holds
    /// it, the call is pending and the task is woken to try again.
    fn poll_read_core(&mut self, cx: &mut Context<'_>, buf: &mut [u8]) -> (r: Poll<
        usize,
        Self::Error,
    >)
        ensures
            (r == Ok::<Async<usize>, T::Error>(Async::Pending) && final(buf)@ == old(buf)@)
                || exists|resource: &mut T, c: &mut Context<'_>, b: &mut [u8]|
                T::poll_read_core.ensures((resource, c, b), r) && b@ == old(buf)@ && final(b)@
                    == final(buf)@,
    {
        read_with_lock(mutex_try_lock(&self.handle), cx, buf)
    }

    /// Reads from the resource into the segments if the lock is free. If the
    /// other half holds it, the call is pending and the task is woken to try
    /// again.
    fn poll_vectored_read_core(&mut self, cx: &mut Context<'_>, vec: &mut [&mut IoVec]) -> (r:
        Poll<usize, Self::Error>)
        ensures
            (r == Ok::<Async<usize>, T::Error>(Async::Pending) && final(vec)@ == old(vec)@)
                || exists|resource: &mut T, c: &mut Context<'_>, v: &mut [&mut IoVec]|
                T::poll_vectored_read_core.ensures((resource, c, v), r) && v@ == old(vec)@
                    && final(v)@ == final(vec)@,
    {
        vectored_read_with_lock(mutex_try_lock(&self.handle), cx, vec)
    }
}

impl<T: CoreAsyncWrite> CoreAsyncWrite for WriteHalf<T> {
    type Error = T::Error;

    /// Writes to the resource if the lock is free. If the other half holds
    /// it, the call is pending and the task is woken to try again.
    fn poll_write_core(&mut self, cx: &mut Context<'_>, buf: &[u8]) -> (r: Poll<
        usize,
        Self::Error,
    >)
        ensures
            r == Ok::<Async<usize>, T::Error>(Async::Pending) || exists|
                resource: &mut T,
                c: &mut Context<'_>,
            | T::poll_write_core.ensures((resource, c, buf), r),
    {
        write_with_lock(mutex_try_lock(&self.handle), cx, buf)
    }

    /// Writes the segments to the resource if the lock is free. If the other
    /// half holds it, the call is pending and the task is woken to try
    /// again.
    fn poll_vectored_write_core(&mut self, cx: &mut Context<'_>, vec: &[&IoVec]) -> (r: Poll<
        usize,
        Self::Error,
    >)
        ensures
            r == Ok::<Async<usize>, T::Error>(Async::Pending) || exists|
                resource: &mut T,
                c: &mut Context<'_>,
            | T::poll_vectored_write_core.ensures((resource, c, vec), r),
    {
        vectored_write_with_lock(mutex_try_lock(&self.handle), cx, vec)
    }

    /// Flushes the resource if the lock is free: the outcome is then what
    /// the flush of the resource gave. If the other half holds the lock, the
    /// call is pending and the task is woken to try again.
    fn poll_flush_core(&mut self, cx: &mut Context<'_>) -> (r: Poll<(), Self::Error>)
        ensures
            r == Ok::<Async<()>, T::Error>(Async::Pending) || exists|
                resource: &mut T,
                c: &mut Context<'_>,
            | T::poll_flush_core.ensures((resource, c), r),
    {
        flush_with_lock(mutex_try_lock(&self.handle), cx)
    }

    /// Closes the resource if the lock is free: the outcome is then what
    /// the close of the resource gave. If the other half holds the lock, the
    /// call is pending and the task is woken to try again.
    fn poll_close_core(&mut self, cx: &mut Context<'_>) -> (r: Poll<(), Self::Error>)
        ensures
            r == Ok::<Async<()>, T::Error>(Async::Pending) || exists|
                resource: &mut T,
                c: &mut Context<'_>,
            | T::poll_close_core.ensures((resource, c), r),
    {
        close_with_lock(mutex_try_lock(&self.handle), cx)
    }
}

} // verus!
