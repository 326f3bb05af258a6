//! The user-space copy loop: its transfer buffer, its chunking and its
//! per-iteration decisions, together with an exact ghost account of the
//! bytes moved.
//!
//! A copy call repeatedly reads up to one buffer of source bytes and
//! writes exactly the bytes read to the destination, until the requested
//! length has been moved or an error surfaces. The loop state and every
//! decision live here; the blocking reads and writes themselves are the
//! caller's, performed between steps on the driver.

use vstd::prelude::*;
use crate::errors::CopyError;
use crate::ranges::{overlay, range_copy};

verus! {

/// Transfer-buffer capacity: one typical disk block.
pub const BLKSIZE: usize = 4096;

/// Produce a transfer buffer of capacity [`BLKSIZE`]. Every byte used is
/// overwritten by a read before it is written out, so the initial
/// contents carry no meaning; a consumer must never look past the length
/// returned by the most recent fill.
pub fn get_buffer() -> (b: Vec<u8>)
    ensures
        b@.len() == BLKSIZE,
{
    let mut b: Vec<u8> = Vec::new();
    let mut i: usize = 0;
    while i < BLKSIZE
        invariant
            i <= BLKSIZE,
            b@.len() == i,
        decreases BLKSIZE - i,
    {
        b.push(0);
        i = i + 1;
    }
    b
}

/// The size of the next transfer: the bytes still owed, capped at one
/// buffer.
pub open spec fn chunk_size(nbytes: int, written: int) -> int {
    if nbytes - written < BLKSIZE {
        nbytes - written
    } else {
        BLKSIZE as int
    }
}

/// What a read from the source reported.
#[derive(Clone, Copy, Debug, PartialEq, Eq, Structural)]
pub enum ReadEvent {
    /// The read delivered this many bytes; zero means end-of-file.
    Data(usize),
    /// The read was interrupted by a signal before moving any data.
    Interrupted,
    /// The read failed with this OS error code.
    Failed(i32),
}

/// What the loop does with a read report.
#[derive(Clone, Copy, Debug, PartialEq, Eq, Structural)]
pub enum ReadStep {
    /// Write exactly this many bytes from the buffer, then advance.
    Copy(usize),
    /// Re-issue the same read; no data was lost.
    Retry,
    /// Abort the copy with this error.
    Fail(CopyError),
}

/// The sequential loop's decision on a read report: end-of-file before
/// the requested length is a premature source end and is never retried; a
/// short but nonzero read is accepted; a signal interruption re-issues
/// the read; any other failure surfaces as the underlying OS error.
pub open spec fn read_decision(ev: ReadEvent) -> ReadStep {
    match ev {
        ReadEvent::Data(n) => if n == 0 {
            ReadStep::Fail(CopyError::SourceExhausted)
        } else {
            ReadStep::Copy(n)
        },
        ReadEvent::Interrupted => ReadStep::Retry,
        ReadEvent::Failed(code) => ReadStep::Fail(CopyError::Os(code)),
    }
}

/// Decide what the sequential copy loop does after a read.
pub fn sequential_read_step(ev: ReadEvent) -> (r: ReadStep)
    ensures
        r == read_decision(ev),
{
    match ev {
        ReadEvent::Data(n) => if n == 0 {
            ReadStep::Fail(CopyError::SourceExhausted)
        } else {
            ReadStep::Copy(n)
        },
        ReadEvent::Interrupted => ReadStep::Retry,
        ReadEvent::Failed(code) => ReadStep::Fail(CopyError::Os(code)),
    }
}

/// The loop's decision on the byte count a read returned: zero bytes
/// before the requested length is a premature source end; any nonzero
/// count, short or full, is copied.
pub fn read_check(rlen: usize) -> (r: Result<usize, CopyError>)
    ensures
        rlen == 0 ==> r == Err::<usize, CopyError>(CopyError::SourceExhausted),
        rlen > 0 ==> r == Ok::<usize, CopyError>(rlen),
{
    if rlen == 0 {
        Err(CopyError::SourceExhausted)
    } else {
        Ok(rlen)
    }
}

/// What a stream write of the bytes just read reported.
#[derive(Clone, Copy, Debug, PartialEq, Eq, Structural)]
pub enum WriteEvent {
    /// All bytes handed to the write were stored.
    Done,
    /// The write failed with this OS error code.
    Failed(i32),
}

/// The sequential loop's decision on a write report: a failed stream
/// write aborts the copy as a destination write failure, never a retry;
/// a completed write lets the loop advance.
pub fn sequential_write_step(ev: WriteEvent) -> (r: Result<(), CopyError>)
    ensures
        ev matches WriteEvent::Done ==> r == Ok::<(), CopyError>(()),
        ev matches WriteEvent::Failed(code) ==> r == Err::<(), CopyError>(
            CopyError::WriteFailed(code),
        ),
{
    match ev {
        WriteEvent::Done => Ok(()),
        WriteEvent::Failed(code) => Err(CopyError::WriteFailed(code)),
    }
}

/// The loop's decision on a write's byte count: storing
/// fewer bytes than were read is an incomplete destination write and is
/// not retried; storing at least the bytes read succeeds.
pub fn write_check(rlen: usize, wlen: usize) -> (r: Result<usize, CopyError>)
    ensures
        wlen < rlen ==> r == Err::<usize, CopyError>(CopyError::WriteIncomplete),
        wlen >= rlen ==> r == Ok::<usize, CopyError>(wlen),
{
    if wlen < rlen {
        Err(CopyError::WriteIncomplete)
    } else {
        Ok(wlen)
    }
}

/// State of one sequential copy call: how many of the requested bytes
/// have been moved, and, as a ghost account, exactly which bytes. The
/// bytes read from the source and the bytes handed to the destination
/// are one and the same sequence: a step only ever writes the bytes it
/// has just read.
pub struct CopyBytes {
    /// The requested length.
    pub nbytes: usize,
    /// How many bytes have been moved so far.
    pub written: usize,
    /// Exactly the bytes moved so far, in order.
    pub copied: Ghost<Seq<u8>>,
}

impl CopyBytes {
    /// The driver's invariant: the count never passes the request, and
    /// the ghost account holds one byte per counted byte.
    pub open spec fn wf(&self) -> bool {
        &&& self.written <= self.nbytes
        &&& self.copied@.len() == self.written
    }

    /// Begin a copy of `nbytes` bytes; nothing has been moved yet.
    pub fn new(nbytes: usize) -> (r: Self)
        ensures
            r.wf(),
            r.nbytes == nbytes,
            r.written == 0,
            r.copied@ == Seq::<u8>::empty(),
    {
        CopyBytes { nbytes, written: 0, copied: Ghost(Seq::empty()) }
    }

    /// Whether the requested length has been fully moved.
    pub fn done(&self) -> (r: bool)
        ensures
            r == (self.written >= self.nbytes),
    {
        self.written >= self.nbytes
    }

    /// How many bytes the next read should request.
    pub fn next_chunk(&self) -> (r: usize)
        requires
            self.written < self.nbytes,
        ensures
            r == chunk_size(self.nbytes as int, self.written as int),
            0 < r <= BLKSIZE,
            r <= self.nbytes - self.written,
    {
        let remaining = self.nbytes - self.written;
        if remaining < BLKSIZE {
            remaining
        } else {
            BLKSIZE
        }
    }

    /// Record one completed step: `rlen` bytes were read into the front
    /// of `buf` and exactly those bytes were written to the destination.
    pub fn advance(&mut self, buf: &Vec<u8>, rlen: usize)
        requires
            old(self).wf(),
            0 < rlen <= buf@.len(),
            rlen <= old(self).nbytes - old(self).written,
        ensures
            final(self).wf(),
            final(self).nbytes == old(self).nbytes,
            final(self).written == old(self).written + rlen,
            final(self).copied@ == old(self).copied@ + buf@.take(rlen as int),
    {
        let ghost new_copied = self.copied@ + buf@.take(rlen as int);
        self.written = self.written + rlen;
        self.copied = Ghost(new_copied);
    }
}

/// After a completed sequential copy, the destination received exactly
/// the bytes read from the source — the one recorded sequence — and their
/// count is exactly the requested length: the first `nbytes` bytes of
/// source and destination agree, byte for byte.
pub proof fn lemma_copy_bytes_exact(c: CopyBytes)
    requires
        c.wf(),
        c.written >= c.nbytes,
    ensures
        c.written == c.nbytes,
        c.copied@.len() == c.nbytes,
{
}

/// State of one range copy call: as [`CopyBytes`], but every read and
/// write is positioned at `off` plus the bytes moved so far, so the call
/// never touches the descriptors' shared stream cursors.
pub struct CopyRange {
    /// The requested length.
    pub nbytes: usize,
    /// The starting offset in both files.
    pub off: usize,
    /// How many bytes have been moved so far.
    pub written: usize,
    /// Exactly the bytes moved so far; byte `i` of this sequence sits at
    /// file offset `off + i` in both files.
    pub copied: Ghost<Seq<u8>>,
}

impl CopyRange {
    /// The driver's invariant: the count never passes the request, every
    /// position touched fits in `usize`, and the ghost account holds one
    /// byte per counted byte.
    pub open spec fn wf(&self) -> bool {
        &&& self.written <= self.nbytes
        &&& self.off + self.nbytes <= usize::MAX
        &&& self.copied@.len() == self.written
    }

    /// Begin a copy of `nbytes` bytes at offset `off` of both files.
    pub fn new(nbytes: usize, off: usize) -> (r: Self)
        requires
            off + nbytes <= usize::MAX,
        ensures
            r.wf(),
            r.nbytes == nbytes,
            r.off == off,
            r.written == 0,
            r.copied@ == Seq::<u8>::empty(),
    {
        CopyRange { nbytes, off, written: 0, copied: Ghost(Seq::empty()) }
    }

    /// Whether the requested length has been fully moved.
    pub fn done(&self) -> (r: bool)
        ensures
            r == (self.written >= self.nbytes),
    {
        self.written >= self.nbytes
    }

    /// How many bytes the next positioned read should request.
    pub fn next_chunk(&self) -> (r: usize)
        requires
            self.written < self.nbytes,
        ensures
            r == chunk_size(self.nbytes as int, self.written as int),
            0 < r <= BLKSIZE,
            r <= self.nbytes - self.written,
    {
        let remaining = self.nbytes - self.written;
        if remaining < BLKSIZE {
            remaining
        } else {
            BLKSIZE
        }
    }

    /// The file offset at which the next read and write are positioned.
    pub fn position(&self) -> (r: usize)
        requires
            self.wf(),
        ensures
            r == self.off + self.written,
    {
        self.off + self.written
    }

    /// Record one completed step: `rlen` bytes were read into the front
    /// of `buf` from the current position and exactly those bytes were
    /// written to the destination at the same position.
    pub fn advance(&mut self, buf: &Vec<u8>, rlen: usize)
        requires
            old(self).wf(),
            0 < rlen <= buf@.len(),
            rlen <= old(self).nbytes - old(self).written,
        ensures
            final(self).wf(),
            final(self).nbytes == old(self).nbytes,
            final(self).off == old(self).off,
            final(self).written == old(self).written + rlen,
            final(self).copied@ == old(self).copied@ + buf@.take(rlen as int),
    {
        let ghost new_copied = self.copied@ + buf@.take(rlen as int);
        self.written = self.written + rlen;
        self.copied = Ghost(new_copied);
    }
}

/// After a completed range copy, the byte ranges `[off, off + nbytes)` of
/// source and destination hold the one recorded sequence, whose length is
/// exactly the requested length.
pub proof fn lemma_copy_range_exact(c: CopyRange)
    requires
        c.wf(),
        c.written >= c.nbytes,
    ensures
        c.written == c.nbytes,
        c.copied@.len() == c.nbytes,
{
}

/// When the source delivered the requested range faithfully — the
/// recorded bytes are the source image's bytes of `[off, off + nbytes)` —
/// a completed range copy's effect on the destination image is exactly
/// one range copy of the model: the source range overlaid at the same
/// offsets, everything else untouched.
pub proof fn lemma_copy_range_effect(c: CopyRange, dest: Seq<u8>, src: Seq<u8>)
    requires
        c.wf(),
        c.written >= c.nbytes,
        dest.len() == src.len(),
        c.off + c.nbytes <= src.len(),
        c.copied@ == src.subrange(c.off as int, c.off + c.nbytes),
    ensures
        overlay(dest, c.off as int, c.copied@) == range_copy(
            dest,
            src,
            c.off as int,
            c.nbytes as int,
        ),
{
}

} // verus!
