//! The byte-image model of positioned range copies, and the laws that
//! make disjoint-range parallel copying sound.
//!
//! A file's content is modelled as a `Seq<u8>`. A completed range copy
//! overlays the source bytes of `[off, off + len)` onto the destination
//! image at the same offsets; a whole copy plan is a sequence of such
//! ranges applied in order. The laws below state that the outcome of a
//! plan depends only on which offsets its ranges cover — not on the order
//! the ranges run in — and that a plan covering the whole file rebuilds
//! the source exactly. An external scheduler may therefore run the ranges
//! of a plan in any order, or in parallel on disjoint ranges, without
//! changing the resulting bytes.

use vstd::prelude::*;

verus! {

/// `dest` with `bytes` placed at offset `off`; offsets outside
/// `[off, off + bytes.len())` keep their old value.
pub open spec fn overlay(dest: Seq<u8>, off: int, bytes: Seq<u8>) -> Seq<u8> {
    Seq::new(
        dest.len(),
        |i: int|
            if off <= i < off + bytes.len() {
                bytes[i - off]
            } else {
                dest[i]
            },
    )
}

/// The destination image after one completed range copy of
/// `[off, off + len)` from `src`.
pub open spec fn range_copy(dest: Seq<u8>, src: Seq<u8>, off: int, len: int) -> Seq<u8> {
    overlay(dest, off, src.subrange(off, off + len))
}

/// The bytes a source of image `src` can still deliver from offset
/// `off`: everything up to end-of-file, nothing when `off` is past it.
pub open spec fn available_from(src: Seq<u8>, off: int) -> Seq<u8> {
    if off <= src.len() {
        src.subrange(off, src.len() as int)
    } else {
        Seq::empty()
    }
}

/// Overlaying nothing changes nothing.
pub proof fn lemma_overlay_empty(dest: Seq<u8>, off: int)
    ensures
        overlay(dest, off, Seq::<u8>::empty()) == dest,
{
    assert(overlay(dest, off, Seq::<u8>::empty()) =~= dest);
}

/// Two adjacent overlays fuse: placing `b1` at `off` and then `b2` right
/// after it is placing `b1 + b2` at `off`.
pub proof fn lemma_overlay_extend(dest: Seq<u8>, off: int, b1: Seq<u8>, b2: Seq<u8>)
    requires
        0 <= off,
        off + b1.len() + b2.len() <= dest.len(),
    ensures
        overlay(overlay(dest, off, b1), off + b1.len(), b2) == overlay(dest, off, b1 + b2),
{
    assert(overlay(overlay(dest, off, b1), off + b1.len(), b2) =~= overlay(dest, off, b1 + b2));
}

/// After a sequential copy of `n` bytes into the front of a destination,
/// comparing the first `n` bytes of both images byte for byte yields
/// equality, whatever the destination held before.
pub proof fn lemma_copied_prefix_matches(dest: Seq<u8>, src: Seq<u8>, n: int)
    requires
        0 <= n <= src.len(),
        n <= dest.len(),
    ensures
        overlay(dest, 0, src.take(n)).take(n) == src.take(n),
{
    assert(overlay(dest, 0, src.take(n)).take(n) =~= src.take(n));
}

/// A range `(offset, length)` lies within a source of `src_len` bytes.
pub open spec fn part_ok(src_len: int, part: (int, int)) -> bool {
    0 <= part.0 && 0 <= part.1 && part.0 + part.1 <= src_len
}

/// Every range of the plan lies within the source.
pub open spec fn parts_ok(src_len: int, parts: Seq<(int, int)>) -> bool {
    forall|j: int| 0 <= j < parts.len() ==> part_ok(src_len, #[trigger] parts[j])
}

/// The destination image after the plan's range copies run in order.
pub open spec fn apply_range_copies(dest: Seq<u8>, src: Seq<u8>, parts: Seq<(int, int)>) -> Seq<
    u8,
>
    decreases parts.len(),
{
    if parts.len() == 0 {
        dest
    } else {
        range_copy(
            apply_range_copies(dest, src, parts.drop_last()),
            src,
            parts.last().0,
            parts.last().1,
        )
    }
}

/// Offset `i` falls inside some range of the plan.
pub open spec fn covered(parts: Seq<(int, int)>, i: int) -> bool {
    exists|j: int|
        0 <= j < parts.len() && (#[trigger] parts[j]).0 <= i < parts[j].0 + parts[j].1
}

/// A range copy never changes the destination's length.
pub proof fn lemma_apply_len(dest: Seq<u8>, src: Seq<u8>, parts: Seq<(int, int)>)
    ensures
        apply_range_copies(dest, src, parts).len() == dest.len(),
    decreases parts.len(),
{
    if parts.len() > 0 {
        lemma_apply_len(dest, src, parts.drop_last());
    }
}

/// At every offset some range of the plan covers, the plan leaves the
/// source's byte — whatever order the ranges ran in, and even if ranges
/// overlapped, since every range writes source bytes at source offsets.
pub proof fn lemma_apply_covered(dest: Seq<u8>, src: Seq<u8>, parts: Seq<(int, int)>, i: int)
    requires
        dest.len() == src.len(),
        parts_ok(src.len() as int, parts),
        0 <= i < src.len(),
        covered(parts, i),
    ensures
        apply_range_copies(dest, src, parts)[i] == src[i],
    decreases parts.len(),
{
    let last = parts.last();
    let rest = parts.drop_last();
    lemma_apply_len(dest, src, rest);
    if last.0 <= i < last.0 + last.1 {
        assert(src.subrange(last.0, last.0 + last.1)[i - last.0] == src[i]);
    } else {
        let j = choose|j: int|
            0 <= j < parts.len() && (#[trigger] parts[j]).0 <= i < parts[j].0 + parts[j].1;
        assert(j < parts.len() - 1);
        assert(rest[j] == parts[j]);
        assert(covered(rest, i));
        lemma_apply_covered(dest, src, rest, i);
    }
}

/// At every offset no range of the plan covers, the plan leaves the
/// destination's original byte.
pub proof fn lemma_apply_uncovered(dest: Seq<u8>, src: Seq<u8>, parts: Seq<(int, int)>, i: int)
    requires
        dest.len() == src.len(),
        parts_ok(src.len() as int, parts),
        0 <= i < dest.len(),
        !covered(parts, i),
    ensures
        apply_range_copies(dest, src, parts)[i] == dest[i],
    decreases parts.len(),
{
    if parts.len() > 0 {
        let last = parts.last();
        let rest = parts.drop_last();
        lemma_apply_len(dest, src, rest);
        assert(parts[parts.len() - 1] == last);
        assert(!(last.0 <= i < last.0 + last.1));
        assert(forall|j: int|
            0 <= j < rest.len() ==> #[trigger] rest[j] == parts[j]);
        assert(!covered(rest, i));
        lemma_apply_uncovered(dest, src, rest, i);
    }
}

/// Two plans that cover exactly the same offsets produce the same
/// destination image. In particular, reordering the ranges of a plan —
/// including running disjoint ranges concurrently, which realises some
/// order of their writes — never changes the outcome.
pub proof fn lemma_coverage_determines_result(
    dest: Seq<u8>,
    src: Seq<u8>,
    parts1: Seq<(int, int)>,
    parts2: Seq<(int, int)>,
)
    requires
        dest.len() == src.len(),
        parts_ok(src.len() as int, parts1),
        parts_ok(src.len() as int, parts2),
        forall|i: int| 0 <= i < src.len() ==> (covered(parts1, i) <==> covered(parts2, i)),
    ensures
        apply_range_copies(dest, src, parts1) == apply_range_copies(dest, src, parts2),
{
    lemma_apply_len(dest, src, parts1);
    lemma_apply_len(dest, src, parts2);
    assert forall|i: int| 0 <= i < dest.len() implies apply_range_copies(dest, src, parts1)[i]
        == apply_range_copies(dest, src, parts2)[i] by {
        if covered(parts1, i) {
            lemma_apply_covered(dest, src, parts1, i);
            lemma_apply_covered(dest, src, parts2, i);
        } else {
            lemma_apply_uncovered(dest, src, parts1, i);
            lemma_apply_uncovered(dest, src, parts2, i);
        }
    }
    assert(apply_range_copies(dest, src, parts1) =~= apply_range_copies(dest, src, parts2));
}

/// A plan that covers every offset of the file rebuilds the source
/// exactly, whatever order its ranges ran in.
pub proof fn lemma_full_cover_reconstructs(dest: Seq<u8>, src: Seq<u8>, parts: Seq<(int, int)>)
    requires
        dest.len() == src.len(),
        parts_ok(src.len() as int, parts),
        forall|i: int| 0 <= i < src.len() ==> covered(parts, i),
    ensures
        apply_range_copies(dest, src, parts) == src,
{
    lemma_apply_len(dest, src, parts);
    assert forall|i: int| 0 <= i < src.len() implies apply_range_copies(dest, src, parts)[i]
        == src[i] by {
        lemma_apply_covered(dest, src, parts, i);
    }
    assert(apply_range_copies(dest, src, parts) =~= src);
}

/// A plan of two ranges is the second range copied after the first.
pub proof fn lemma_apply_two(dest: Seq<u8>, src: Seq<u8>, a: (int, int), b: (int, int))
    ensures
        apply_range_copies(dest, src, seq![a, b]) == range_copy(
            range_copy(dest, src, a.0, a.1),
            src,
            b.0,
            b.1,
        ),
{
    let p = seq![a, b];
    assert(p.last() == b);
    assert(p.drop_last() =~= seq![a]);
    assert(seq![a].last() == a);
    assert(seq![a].drop_last() =~= Seq::<(int, int)>::empty());
    assert(apply_range_copies(dest, src, Seq::<(int, int)>::empty()) == dest);
    assert(apply_range_copies(dest, src, seq![a]) == range_copy(dest, src, a.0, a.1));
}

/// Copying two disjoint ranges composes in either order to the same
/// destination image: the disjoint-range safety seam that lets an
/// external scheduler run range copies of one file pair in parallel.
pub proof fn lemma_disjoint_ranges_commute(
    dest: Seq<u8>,
    src: Seq<u8>,
    off1: int,
    len1: int,
    off2: int,
    len2: int,
)
    requires
        dest.len() == src.len(),
        part_ok(src.len() as int, (off1, len1)),
        part_ok(src.len() as int, (off2, len2)),
        off1 + len1 <= off2 || off2 + len2 <= off1,
    ensures
        range_copy(range_copy(dest, src, off1, len1), src, off2, len2) == range_copy(
            range_copy(dest, src, off2, len2),
            src,
            off1,
            len1,
        ),
{
    let p1 = seq![(off1, len1), (off2, len2)];
    let p2 = seq![(off2, len2), (off1, len1)];
    lemma_apply_two(dest, src, (off1, len1), (off2, len2));
    lemma_apply_two(dest, src, (off2, len2), (off1, len1));
    assert forall|i: int| 0 <= i < src.len() implies (covered(p1, i) <==> covered(p2, i)) by {
        assert(p1[0] == (off1, len1) && p1[1] == (off2, len2));
        assert(p2[0] == (off2, len2) && p2[1] == (off1, len1));
    }
    lemma_coverage_determines_result(dest, src, p1, p2);
}

/// Copying the two halves of a file as separate range copies — in either
/// order, hence also concurrently — rebuilds the source exactly.
pub proof fn lemma_halves_reconstruct(dest: Seq<u8>, src: Seq<u8>, half: int)
    requires
        dest.len() == src.len(),
        0 <= half,
        src.len() == 2 * half,
    ensures
        range_copy(range_copy(dest, src, 0, half), src, half, half) == src,
        range_copy(range_copy(dest, src, half, half), src, 0, half) == src,
{
    let p1 = seq![(0int, half), (half, half)];
    let p2 = seq![(half, half), (0int, half)];
    lemma_apply_two(dest, src, (0int, half), (half, half));
    lemma_apply_two(dest, src, (half, half), (0int, half));
    assert forall|i: int| 0 <= i < src.len() implies covered(p1, i) by {
        if i < half {
            assert(p1[0].0 <= i < p1[0].0 + p1[0].1);
        } else {
            assert(p1[1].0 <= i < p1[1].0 + p1[1].1);
        }
    }
    assert forall|i: int| 0 <= i < src.len() implies covered(p2, i) by {
        if i < half {
            assert(p2[1].0 <= i < p2[1].0 + p2[1].1);
        } else {
            assert(p2[0].0 <= i < p2[0].0 + p2[0].1);
        }
    }
    assert(parts_ok(src.len() as int, p1));
    assert(parts_ok(src.len() as int, p2));
    lemma_full_cover_reconstructs(dest, src, p1);
    lemma_full_cover_reconstructs(dest, src, p2);
}

/// The four equal quarters of a file cover every offset, so a plan made
/// of them — in any order, the reverse included — rebuilds the source.
pub proof fn lemma_quarters_reconstruct(dest: Seq<u8>, src: Seq<u8>, q: int, parts: Seq<(int, int)>)
    requires
        dest.len() == src.len(),
        0 <= q,
        src.len() == 4 * q,
        parts_ok(src.len() as int, parts),
        parts.contains((0, q)),
        parts.contains((q, q)),
        parts.contains((2 * q, q)),
        parts.contains((3 * q, q)),
    ensures
        apply_range_copies(dest, src, parts) == src,
{
    assert forall|i: int| 0 <= i < src.len() implies covered(parts, i) by {
        if i < q {
            let j = choose|j: int| 0 <= j < parts.len() && parts[j] == (0int, q);
            assert(parts[j].0 <= i < parts[j].0 + parts[j].1);
        } else if i < 2 * q {
            let j = choose|j: int| 0 <= j < parts.len() && parts[j] == (q, q);
            assert(parts[j].0 <= i < parts[j].0 + parts[j].1);
        } else if i < 3 * q {
            let j = choose|j: int| 0 <= j < parts.len() && parts[j] == (2 * q, q);
            assert(parts[j].0 <= i < parts[j].0 + parts[j].1);
        } else {
            let j = choose|j: int| 0 <= j < parts.len() && parts[j] == (3 * q, q);
            assert(parts[j].0 <= i < parts[j].0 + parts[j].1);
        }
    }
    lemma_full_cover_reconstructs(dest, src, parts);
}

} // verus!
