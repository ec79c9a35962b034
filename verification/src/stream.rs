//! The stream variants: readers, writers, appenders as tagged sums over the
//! two backends. A stream is opened against the backend the policy picked,
//! and every later call is dispatched to that same backend: the tag never
//! changes after open. The wrappers add routing and nothing else.

use vstd::prelude::*;
use crate::errors::BackendError;

verus! {

/// A sequential reader over in-memory bytes with an absolute-seek cursor.
pub struct MemReader {
    pub data: Vec<u8>,
    pub pos: usize,
}

/// The cursor never passes the end.
pub open spec fn reader_wf(r: MemReader) -> bool {
    r.pos <= r.data@.len()
}

/// How one `read` call steps a reader: `out` is the next `count` bytes,
/// clamped to the end, and the cursor advances past them.
pub open spec fn spec_read_step(r0: MemReader, r1: MemReader, count: usize, out: Seq<u8>) -> bool {
    let end = if r0.pos + count <= r0.data@.len() {
        r0.pos + count
    } else {
        r0.data@.len() as int
    };
    &&& r1.data == r0.data
    &&& r1.pos == end
    &&& out == r0.data@.subrange(r0.pos as int, end)
}

impl MemReader {
    pub fn new(data: Vec<u8>) -> (r: MemReader)
        ensures
            reader_wf(r),
            r.data == data,
            r.pos == 0,
    {
        MemReader { data, pos: 0 }
    }

    /// Read up to `count` bytes from the cursor.
    pub fn read(&mut self, count: usize) -> (out: Vec<u8>)
        requires
            reader_wf(*old(self)),
        ensures
            reader_wf(*final(self)),
            spec_read_step(*old(self), *final(self), count, out@),
    {
        let len: usize = self.data.len();
        let end: usize = if count <= len - self.pos {
            self.pos + count
        } else {
            len
        };
        let mut out: Vec<u8> = Vec::new();
        let mut i: usize = self.pos;
        proof {
            assert(out@ =~= self.data@.subrange(self.pos as int, self.pos as int));
        }
        while i < end
            invariant
                self.pos <= i <= end <= self.data@.len(),
                out@ == self.data@.subrange(self.pos as int, i as int),
            decreases end - i,
        {
            let b = self.data[i];
            out.push(b);
            proof {
                assert(out@ =~= self.data@.subrange(self.pos as int, i + 1));
            }
            i = i + 1;
        }
        self.pos = end;
        out
    }

    /// Absolute seek; a position past the end is refused, not clamped.
    pub fn seek(&mut self, pos: u64) -> (r: Result<u64, BackendError>)
        requires
            reader_wf(*old(self)),
        ensures
            reader_wf(*final(self)),
            final(self).data == old(self).data,
            pos <= old(self).data@.len() ==> r == Ok::<u64, BackendError>(pos) && final(self).pos
                == pos,
            pos > old(self).data@.len() ==> r == Err::<u64, BackendError>(BackendError::Other)
                && final(self).pos == old(self).pos,
    {
        if pos <= self.data.len() as u64 {
            self.pos = pos as usize;
            Ok(pos)
        } else {
            Err(BackendError::Other)
        }
    }

    /// The whole remainder as one chunk; nothing once the end is reached.
    pub fn next_chunk(&mut self) -> (r: Option<Vec<u8>>)
        requires
            reader_wf(*old(self)),
        ensures
            reader_wf(*final(self)),
            final(self).data == old(self).data,
            final(self).pos == final(self).data@.len(),
            old(self).pos == old(self).data@.len() ==> r is None,
            old(self).pos < old(self).data@.len() ==> (r matches Some(chunk) && chunk@ == old(
                self,
            ).data@.subrange(old(self).pos as int, old(self).data@.len() as int)),
    {
        let len: usize = self.data.len();
        if self.pos == len {
            None
        } else {
            let chunk = self.read(len - self.pos);
            Some(chunk)
        }
    }
}

/// A buffering writer: bytes accumulate until `close`; `abort` discards
/// them. Closing twice is refused but never panics.
pub struct MemWriter {
    pub buf: Vec<u8>,
    pub closed: bool,
}

impl MemWriter {
    pub fn new() -> (r: MemWriter)
        ensures
            r.buf@.len() == 0,
            !r.closed,
    {
        MemWriter { buf: Vec::new(), closed: false }
    }

    /// Append a chunk; a closed writer refuses it.
    pub fn write(&mut self, bytes: Vec<u8>) -> (r: Result<(), BackendError>)
        ensures
            final(self).closed == old(self).closed,
            old(self).closed ==> r is Err && final(self).buf == old(self).buf,
            !old(self).closed ==> r is Ok && final(self).buf@ == old(self).buf@ + bytes@,
    {
        if self.closed {
            Err(BackendError::Other)
        } else {
            let mut tail = bytes;
            self.buf.append(&mut tail);
            Ok(())
        }
    }

    /// Discard everything buffered and close.
    pub fn abort(&mut self) -> (r: Result<(), BackendError>)
        ensures
            final(self).closed,
            final(self).buf@.len() == 0,
            r is Ok,
    {
        self.buf.clear();
        self.closed = true;
        Ok(())
    }

    /// Close the writer, keeping the buffer for the embedder to flush. A
    /// second close is not required to succeed: it reports an error and
    /// leaves the writer as it was; it cannot panic.
    pub fn close(&mut self) -> (r: Result<(), BackendError>)
        ensures
            final(self).closed,
            final(self).buf == old(self).buf,
            (r is Ok) <==> !old(self).closed,
    {
        if self.closed {
            Err(BackendError::Other)
        } else {
            self.closed = true;
            Ok(())
        }
    }
}

/// A reader routed at open time to one backend.
pub enum OverlayReader {
    Base(MemReader),
    Overlay(MemReader),
}

impl OverlayReader {
    /// The tag chosen at open time.
    pub open spec fn is_base(&self) -> bool {
        self is Base
    }

    /// The underlying reader, whichever side it is on.
    pub open spec fn spec_inner(&self) -> MemReader {
        match self {
            OverlayReader::Base(r) => *r,
            OverlayReader::Overlay(r) => *r,
        }
    }

    /// Dispatch a read to the backend this reader was opened against; the
    /// routing never changes.
    pub fn read(&mut self, count: usize) -> (out: Vec<u8>)
        requires
            reader_wf(old(self).spec_inner()),
        ensures
            final(self).is_base() == old(self).is_base(),
            reader_wf(final(self).spec_inner()),
            spec_read_step(old(self).spec_inner(), final(self).spec_inner(), count, out@),
    {
        match self {
            OverlayReader::Base(r) => r.read(count),
            OverlayReader::Overlay(r) => r.read(count),
        }
    }

    /// Dispatch an absolute seek.
    pub fn seek(&mut self, pos: u64) -> (r: Result<u64, BackendError>)
        requires
            reader_wf(old(self).spec_inner()),
        ensures
            final(self).is_base() == old(self).is_base(),
            reader_wf(final(self).spec_inner()),
            final(self).spec_inner().data == old(self).spec_inner().data,
            pos <= old(self).spec_inner().data@.len() ==> r == Ok::<u64, BackendError>(pos)
                && final(self).spec_inner().pos == pos,
            pos > old(self).spec_inner().data@.len() ==> r == Err::<u64, BackendError>(
                BackendError::Other,
            ) && final(self).spec_inner().pos == old(self).spec_inner().pos,
    {
        match self {
            OverlayReader::Base(r) => r.seek(pos),
            OverlayReader::Overlay(r) => r.seek(pos),
        }
    }
}

/// A writer routed at open time to one backend.
pub enum OverlayWriter {
    Base(MemWriter),
    Overlay(MemWriter),
}

impl OverlayWriter {
    pub open spec fn is_base(&self) -> bool {
        self is Base
    }

    pub open spec fn spec_inner(&self) -> MemWriter {
        match self {
            OverlayWriter::Base(w) => *w,
            OverlayWriter::Overlay(w) => *w,
        }
    }

    /// Dispatch a chunk to the backend this writer was opened against.
    pub fn write(&mut self, bytes: Vec<u8>) -> (r: Result<(), BackendError>)
        ensures
            final(self).is_base() == old(self).is_base(),
            final(self).spec_inner().closed == old(self).spec_inner().closed,
            old(self).spec_inner().closed ==> r is Err && final(self).spec_inner().buf == old(
                self,
            ).spec_inner().buf,
            !old(self).spec_inner().closed ==> r is Ok && final(self).spec_inner().buf@ == old(
                self,
            ).spec_inner().buf@ + bytes@,
    {
        match self {
            OverlayWriter::Base(w) => w.write(bytes),
            OverlayWriter::Overlay(w) => w.write(bytes),
        }
    }

    /// Dispatch an abort.
    pub fn abort(&mut self) -> (r: Result<(), BackendError>)
        ensures
            final(self).is_base() == old(self).is_base(),
            final(self).spec_inner().closed,
            final(self).spec_inner().buf@.len() == 0,
            r is Ok,
    {
        match self {
            OverlayWriter::Base(w) => w.abort(),
            OverlayWriter::Overlay(w) => w.abort(),
        }
    }

    /// Dispatch a close. Closing twice reports an error; it cannot panic
    /// or block.
    pub fn close(&mut self) -> (r: Result<(), BackendError>)
        ensures
            final(self).is_base() == old(self).is_base(),
            final(self).spec_inner().closed,
            final(self).spec_inner().buf == old(self).spec_inner().buf,
            (r is Ok) <==> !old(self).spec_inner().closed,
    {
        match self {
            OverlayWriter::Base(w) => w.close(),
            OverlayWriter::Overlay(w) => w.close(),
        }
    }
}

/// An appender routed at open time to one backend: chunks accumulate in
/// order until `close`.
pub enum OverlayAppender {
    Base(MemWriter),
    Overlay(MemWriter),
}

impl OverlayAppender {
    pub open spec fn is_base(&self) -> bool {
        self is Base
    }

    pub open spec fn spec_inner(&self) -> MemWriter {
        match self {
            OverlayAppender::Base(w) => *w,
            OverlayAppender::Overlay(w) => *w,
        }
    }

    /// Dispatch an appended chunk.
    pub fn append(&mut self, bytes: Vec<u8>) -> (r: Result<(), BackendError>)
        ensures
            final(self).is_base() == old(self).is_base(),
            final(self).spec_inner().closed == old(self).spec_inner().closed,
            old(self).spec_inner().closed ==> r is Err && final(self).spec_inner().buf == old(
                self,
            ).spec_inner().buf,
            !old(self).spec_inner().closed ==> r is Ok && final(self).spec_inner().buf@ == old(
                self,
            ).spec_inner().buf@ + bytes@,
    {
        match self {
            OverlayAppender::Base(w) => w.write(bytes),
            OverlayAppender::Overlay(w) => w.write(bytes),
        }
    }

    /// Dispatch a close; a second close reports an error and cannot panic.
    pub fn close(&mut self) -> (r: Result<(), BackendError>)
        ensures
            final(self).is_base() == old(self).is_base(),
            final(self).spec_inner().closed,
            final(self).spec_inner().buf == old(self).spec_inner().buf,
            (r is Ok) <==> !old(self).spec_inner().closed,
    {
        match self {
            OverlayAppender::Base(w) => w.close(),
            OverlayAppender::Overlay(w) => w.close(),
        }
    }
}

} // verus!
