//! A readiness-driven, non-blocking byte-stream I/O core.
//!
//! The crate holds the poll-based reader and writer contracts, a buffer
//! cursor that tracks how much of a region has been initialized and how much
//! has been filled, and the combinators that drive a reader or writer until
//! an operation has finished.

pub mod close;
pub mod copy_into;
pub mod copy_laws;
pub mod error;
pub mod ext;
pub mod flush;
pub mod initializer;
pub mod io;
pub mod read;
pub mod read_buf;
pub mod read_exact;
pub mod read_to_end;
pub mod split;
pub mod step;
pub mod task;
pub mod write_all;

pub use crate::error::{CoreIoError, MinimalIoError};
pub use crate::initializer::Initializer;
pub use crate::io::{CoreAsyncRead, CoreAsyncWrite};
pub use crate::read_buf::{CursorOp, ReadBuf, ReadBufView};
pub use crate::read_exact::{read_exact, ReadExact, ReadExactProgress};
pub use crate::step::Step;
pub use crate::copy_into::{copy_into, CopyAction, CopyInto, CopyProgress};
pub use crate::close::{close, Close};
pub use crate::flush::{flush, Flush};
pub use crate::read::{read, Read};
pub use crate::read_to_end::{
    poll_read_buf, poll_read_buf_with, read_to_end_internal, read_to_end_step, ReadToEnd,
    ReadToEndStep,
};
pub use crate::split::{
    close_with_lock, flush_with_lock, lock_outcome, read_with_lock, split,
    vectored_read_with_lock, vectored_write_with_lock, write_with_lock, LockAttempt, ReadHalf,
    WriteHalf,
};
pub use crate::write_all::{write_all, WriteAll, WriteAllProgress};
pub use crate::ext::{AsyncReadExt, AsyncWriteExt};
