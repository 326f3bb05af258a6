//! The copy primitives run against in-memory byte images.
//!
//! These functions execute the very loop of the copy primitives —
//! chunking through the transfer buffer, premature-end detection, exact
//! byte accounting — with a `Vec<u8>` standing for each file's bytes, and
//! are verified end to end against the image model of [`crate::ranges`]:
//! on success the destination image carries exactly the requested source
//! range, and a premature source end surfaces before any byte beyond the
//! ones actually read touches the destination.

use vstd::prelude::*;
use crate::copier::{BLKSIZE, CopyBytes, CopyRange, get_buffer, read_check};
use crate::errors::CopyError;
use crate::ranges::{
    available_from, lemma_overlay_empty, lemma_overlay_extend, overlay, range_copy,
};

verus! {

/// Fill the front of `buf` by a positioned read of up to `chunk` bytes
/// from the image `src` at offset `pos`: the read delivers what is there,
/// up to end-of-file, and zero bytes at or past it.
pub fn read_range(src: &Vec<u8>, pos: usize, chunk: usize, buf: &mut Vec<u8>) -> (rlen: usize)
    requires
        chunk <= old(buf)@.len(),
    ensures
        final(buf)@.len() == old(buf)@.len(),
        rlen == if pos >= src@.len() {
            0int
        } else if src@.len() - pos < chunk {
            src@.len() - pos
        } else {
            chunk as int
        },
        pos <= src@.len() ==> final(buf)@.take(rlen as int) == src@.subrange(
            pos as int,
            pos + rlen,
        ),
{
    if pos >= src.len() {
        proof {
            if pos <= src@.len() {
                assert(buf@.take(0) =~= src@.subrange(pos as int, pos as int));
            }
        }
        return 0;
    }
    let n = if src.len() - pos < chunk {
        src.len() - pos
    } else {
        chunk
    };
    let mut i: usize = 0;
    while i < n
        invariant
            i <= n,
            src@.len() <= usize::MAX,
            n <= src@.len() - pos,
            n <= buf@.len(),
            buf@.len() == old(buf)@.len(),
            forall|k: int| 0 <= k < i ==> buf@[k] == src@[pos + k],
        decreases n - i,
    {
        let b = src[pos + i];
        buf.set(i, b);
        i = i + 1;
    }
    assert(buf@.take(n as int) =~= src@.subrange(pos as int, pos + n));
    n
}

/// Store the first `rlen` bytes of `data` into the image `dest` by a
/// positioned write at offset `off`: afterwards the image is the old one
/// with those bytes overlaid there.
pub fn write_range(dest: &mut Vec<u8>, off: usize, data: &Vec<u8>, rlen: usize)
    requires
        rlen <= data@.len(),
        off + rlen <= old(dest)@.len(),
    ensures
        final(dest)@ == overlay(old(dest)@, off as int, data@.take(rlen as int)),
{
    proof {
        assert(dest@.len() == dest.len());
    }
    let mut i: usize = 0;
    while i < rlen
        invariant
            i <= rlen,
            rlen <= data@.len(),
            dest@.len() <= usize::MAX,
            off + rlen <= dest@.len(),
            dest@.len() == old(dest)@.len(),
            forall|k: int| off <= k < off + i ==> dest@[k] == data@[k - off],
            forall|k: int|
                0 <= k < dest@.len() && !(off <= k < off + i) ==> dest@[k] == old(dest)@[k],
        decreases rlen - i,
    {
        let b = data[i];
        dest.set(off + i, b);
        i = i + 1;
    }
    assert(dest@ =~= overlay(old(dest)@, off as int, data@.take(rlen as int)));
}

/// Copy exactly `nbytes` bytes at offset `off` from the image `src` into
/// the image `dest`, positioned read by positioned write through the
/// transfer buffer. On success the result is `nbytes` and `dest` carries
/// the source range `[off, off + nbytes)` at the same offsets; when the
/// source ends before `nbytes` bytes could be read, the copy fails with
/// `CopyError::SourceExhausted`, and `dest` has received exactly the
/// bytes that were available — never more. The destination must be
/// sized at least to the touched range `[off, off + nbytes)`; bytes
/// outside it are never modified.
pub fn copy_range_mem(src: &Vec<u8>, dest: &mut Vec<u8>, nbytes: usize, off: usize) -> (r: Result<
    u64,
    CopyError,
>)
    requires
        off + nbytes <= old(dest)@.len(),
    ensures
        final(dest)@.len() == old(dest)@.len(),
        off + nbytes <= src@.len() ==> r == Ok::<u64, CopyError>(nbytes as u64) && final(dest)@
            == range_copy(old(dest)@, src@, off as int, nbytes as int),
        nbytes > 0 && off + nbytes > src@.len() ==> r == Err::<u64, CopyError>(
            CopyError::SourceExhausted,
        ) && final(dest)@ == overlay(old(dest)@, off as int, available_from(src@, off as int)),
        nbytes == 0 ==> r == Ok::<u64, CopyError>(0) && final(dest)@ == old(dest)@,
{
    proof {
        assert(dest@.len() == dest.len());
    }
    let mut c = CopyRange::new(nbytes, off);
    let mut buf = get_buffer();
    proof {
        lemma_overlay_empty(old(dest)@, off as int);
    }
    while c.written < c.nbytes
        invariant
            c.wf(),
            c.nbytes == nbytes,
            c.off == off,
            buf@.len() == BLKSIZE,
            dest@.len() == old(dest)@.len(),
            off + nbytes <= dest@.len(),
            c.written > 0 ==> off + c.written <= src@.len() && c.copied@ == src@.subrange(
                off as int,
                off + c.written,
            ),
            c.written == 0 ==> c.copied@ == Seq::<u8>::empty(),
            dest@ == overlay(old(dest)@, off as int, c.copied@),
        decreases c.nbytes - c.written,
    {
        let chunk = c.next_chunk();
        let pos = c.position();
        let rlen = read_range(src, pos, chunk, &mut buf);
        match read_check(rlen) {
            Err(e) => {
                proof {
                    if c.written > 0 {
                        assert(off + c.written == src@.len());
                        assert(c.copied@ =~= available_from(src@, off as int));
                    } else {
                        assert(off >= src@.len());
                        assert(c.copied@ =~= available_from(src@, off as int));
                    }
                }
                return Err(e);
            },
            Ok(_) => {},
        }
        write_range(dest, pos, &buf, rlen);
        proof {
            lemma_overlay_extend(old(dest)@, off as int, c.copied@, buf@.take(rlen as int));
            assert(c.copied@ + buf@.take(rlen as int) =~= src@.subrange(
                off as int,
                off + c.written + rlen,
            ));
        }
        c.advance(&buf, rlen);
    }
    proof {
        if off + nbytes <= src@.len() {
            assert(c.copied@ =~= src@.subrange(off as int, off + nbytes));
        }
    }
    Ok(c.written as u64)
}

/// Copy exactly `nbytes` bytes from the image `src` into the image
/// `dest`, both taken from their start — the stream-cursor primitive run
/// against fresh descriptors. Success and failure behave exactly as in
/// [`copy_range_mem`] at offset zero; the destination must be sized at
/// least to the request, and bytes past it are never modified.
pub fn copy_bytes_mem(src: &Vec<u8>, dest: &mut Vec<u8>, nbytes: usize) -> (r: Result<
    u64,
    CopyError,
>)
    requires
        nbytes <= old(dest)@.len(),
    ensures
        final(dest)@.len() == old(dest)@.len(),
        nbytes <= src@.len() ==> r == Ok::<u64, CopyError>(nbytes as u64) && final(dest)@
            == overlay(old(dest)@, 0, src@.take(nbytes as int)),
        nbytes > src@.len() ==> r == Err::<u64, CopyError>(CopyError::SourceExhausted)
            && final(dest)@ == overlay(old(dest)@, 0, src@),
{
    let mut c = CopyBytes::new(nbytes);
    let mut buf = get_buffer();
    proof {
        lemma_overlay_empty(old(dest)@, 0);
        assert(Seq::<u8>::empty() =~= src@.take(0));
    }
    while c.written < c.nbytes
        invariant
            c.wf(),
            c.nbytes == nbytes,
            buf@.len() == BLKSIZE,
            dest@.len() == old(dest)@.len(),
            nbytes <= dest@.len(),
            c.written <= src@.len(),
            c.copied@ == src@.take(c.written as int),
            dest@ == overlay(old(dest)@, 0, c.copied@),
        decreases c.nbytes - c.written,
    {
        let chunk = c.next_chunk();
        let pos = c.written;
        let rlen = read_range(src, pos, chunk, &mut buf);
        match read_check(rlen) {
            Err(e) => {
                proof {
                    assert(c.written == src@.len());
                    assert(c.copied@ =~= src@);
                }
                return Err(e);
            },
            Ok(_) => {},
        }
        write_range(dest, pos, &buf, rlen);
        proof {
            lemma_overlay_extend(old(dest)@, 0, c.copied@, buf@.take(rlen as int));
            assert(c.copied@ + buf@.take(rlen as int) =~= src@.take(c.written + rlen));
        }
        c.advance(&buf, rlen);
    }
    Ok(c.written as u64)
}

} // verus!
