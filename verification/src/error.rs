//! The minimal set of errors that the combinators need to be able to raise.

use vstd::prelude::*;

verus! {

/// The errors an I/O error type must be able to express so that the
/// combinators can be built on top of it.
///
/// Both constructors only build a value. Where a contract of this crate
/// speaks of an error that one of them has built, it does so through what
/// the constructor itself promises: `E::write_zero.ensures((msg,), e)` says
/// that `e` is an error that `E::write_zero(msg)` may return.
pub trait CoreIoError: Sized {
    /// A write reported zero bytes written although bytes remained to be
    /// written.
    fn write_zero(msg: &'static str) -> Self;

    /// The stream ended before the number of bytes that was required had
    /// been read.
    fn unexpected_eof(msg: &'static str) -> Self;
}

/// The smallest error type that satisfies [`CoreIoError`], for resources
/// that cannot fail in any other way.
#[derive(Debug, Copy, Clone)]
pub enum MinimalIoError {
    /// A write reported zero bytes written although bytes remained to be
    /// written.
    WriteZero(&'static str),
    /// The stream ended before the number of bytes that was required had
    /// been read.
    UnexpectedEof(&'static str),
}

impl CoreIoError for MinimalIoError {
    fn write_zero(msg: &'static str) -> (e: Self)
        ensures
            e == MinimalIoError::WriteZero(msg),
    {
        MinimalIoError::WriteZero(msg)
    }

    fn unexpected_eof(msg: &'static str) -> (e: Self)
        ensures
            e == MinimalIoError::UnexpectedEof(msg),
    {
        MinimalIoError::UnexpectedEof(msg)
    }
}

} // verus!
