//! The combinators as methods of every reader and writer.

use vstd::prelude::*;
use crate::close::Close;
use crate::copy_into::{CopyInto, CopyModel, CopyProgress};
use crate::flush::Flush;
use crate::io::{CoreAsyncRead, CoreAsyncWrite};
use crate::read::Read;
use crate::read_exact::ReadExact;
use crate::read_to_end::{ReadToEnd, READ_TO_END_GROWTH};
use crate::split::{ReadHalf, WriteHalf};
use crate::write_all::WriteAll;

verus! {

/// The size of the buffer that `copy_into` copies through.
pub const COPY_BUFFER_SIZE: usize = 2048;

/// Adds the reading combinators to every reader.
pub trait AsyncReadExt: CoreAsyncRead {
    /// Copies all the bytes that this reader yields into `writer`, through a
    /// buffer of `COPY_BUFFER_SIZE` bytes.
    ///
    /// The copy is over once the reader is at its end and all bytes have
    /// been written to the writer and flushed. It resolves to the number of
    /// bytes copied.
    fn copy_into<W>(self, writer: W) -> (r: CopyInto<Self, W>) where
        W: CoreAsyncWrite,
        Self: Sized,

        ensures
            r.active(),
            r.received() == Seq::<u8>::empty(),
            r.sent() == Seq::<u8>::empty(),
            r.pending() == Seq::<u8>::empty(),
            !r.reader_ended(),
            r.model() == (CopyModel {
                reader: self,
                writer,
                buf: Seq::new(COPY_BUFFER_SIZE as nat, |i: int| 0u8),
                progress: CopyProgress { read_done: false, pos: 0, cap: 0, amt: 0 },
            }),
    {
        let mut buf: Vec<u8> = Vec::new();
        buf.resize(COPY_BUFFER_SIZE, 0u8);
        assert(buf@ =~= Seq::new(COPY_BUFFER_SIZE as nat, |i: int| 0u8));
        self.copy_into_with_buffer(writer, buf)
    }

    /// Copies all the bytes that this reader yields into `writer`, through
    /// `buf`.
    fn copy_into_with_buffer<W>(self, writer: W, buf: Vec<u8>) -> (r: CopyInto<Self, W>) where
        W: CoreAsyncWrite,
        Self: Sized,

        ensures
            r.active(),
            r.received() == Seq::<u8>::empty(),
            r.sent() == Seq::<u8>::empty(),
            r.pending() == Seq::<u8>::empty(),
            !r.reader_ended(),
            r.model() == (CopyModel {
                reader: self,
                writer,
                buf: buf@,
                progress: CopyProgress { read_done: false, pos: 0, cap: 0, amt: 0 },
            }),
    {
        crate::copy_into::copy_into(self, writer, buf)
    }

    /// Reads once into `buf`, as many bytes as are at hand. Resolves to the
    /// reader, the buffer and the number of bytes read.
    fn read(self, buf: Vec<u8>) -> (r: Read<Self>) where Self: Sized
        ensures
            r.active(),
            r.buffer() == buf@,
            r.reader() == self,
    {
        crate::read::read(self, buf)
    }

    /// Reads until `buf` is full, and fails if the stream ends sooner.
    /// Resolves to the reader and the buffer.
    fn read_exact(self, buf: Vec<u8>) -> (r: ReadExact<Self>) where Self: Sized
        ensures
            r.active(),
            r.capacity() == buf@.len(),
            r.data() == Seq::<u8>::empty(),
            r.reader() == self,
    {
        crate::read_exact::read_exact(self, buf)
    }

    /// Reads all that this reader yields, up to the end of its stream, and
    /// appends it to `buf`. Resolves to the number of bytes appended.
    fn read_to_end<'a>(&'a mut self, buf: &'a mut Vec<u8>) -> (r: ReadToEnd<'a, Self>)
        ensures
            r.pollable(),
            r.start_len == old(buf)@.len(),
            r.buf@ == old(buf)@,
            r.scratch@.len() == READ_TO_END_GROWTH,
            r.initialized == 0,
            &*r.reader == &*old(self),
            final(r.buf)@ == final(buf)@,
            &*final(r.reader) == &*final(self),
    {
        ReadToEnd::new(self, buf)
    }

    /// Splits this object, which reads and writes, into a half that reads
    /// and a half that writes.
    fn split(self) -> (r: (ReadHalf<Self>, WriteHalf<Self>)) where Self: CoreAsyncWrite + Sized
        ensures
            r.0.shares_cell_with(&r.1),
    {
        crate::split::split(self)
    }
}

impl<T: CoreAsyncRead + ?Sized> AsyncReadExt for T {

}

/// Adds the writing combinators to every writer.
pub trait AsyncWriteExt: CoreAsyncWrite {
    /// Flushes this writer. Resolves to the writer.
    fn flush(self) -> (r: Flush<Self>) where Self: Sized
        ensures
            r.active(),
            r.writer() == self,
    {
        crate::flush::flush(self)
    }

    /// Closes this writer. Resolves to the writer.
    fn close(self) -> (r: Close<Self>) where Self: Sized
        ensures
            r.active(),
            r.writer() == self,
    {
        crate::close::close(self)
    }

    /// Writes all of `buf` to this writer. Resolves to the writer and the
    /// buffer.
    fn write_all(self, buf: Vec<u8>) -> (r: WriteAll<Self>) where Self: Sized
        ensures
            r.active(),
            r.sent() == Seq::<u8>::empty(),
            r.unsent() == buf@,
            r.writer() == self,
    {
        crate::write_all::write_all(self, buf)
    }
}

impl<T: CoreAsyncWrite + ?Sized> AsyncWriteExt for T {

}

} // verus!
