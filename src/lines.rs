//! What the line index of a byte sequence is, as a mathematical sequence.
use vstd::prelude::*;

verus! {

/// The newline terminator.
pub const NEWLINE: u8 = 10;

/// The entries discovered by scanning `b` from position `i`, where the line
/// under way started at `start`. A terminator at `i` closes `(start, i)`; at
/// the end of the bytes, a line that holds at least one byte is closed at the
/// length of `b`.
pub open spec fn scan_lines(b: Seq<u8>, start: int, i: int) -> Seq<(usize, usize)>
    decreases b.len() - i,
{
    if i >= b.len() {
        if start < b.len() {
            seq![(start as usize, b.len() as usize)]
        } else {
            seq![]
        }
    } else if b[i] == NEWLINE {
        seq![(start as usize, i as usize)] + scan_lines(b, i + 1, i + 1)
    } else {
        scan_lines(b, start, i + 1)
    }
}

/// Every line of `b`, in order, as `(start, end)` byte offsets.
pub open spec fn all_lines(b: Seq<u8>) -> Seq<(usize, usize)> {
    scan_lines(b, 0, 0)
}

/// A scan from `start` yields no more entries than bytes remain.
pub proof fn lemma_scan_len(b: Seq<u8>, start: int, i: int)
    requires
        0 <= start <= i <= b.len(),
    ensures
        scan_lines(b, start, i).len() <= b.len() - start,
    decreases b.len() - i,
{
    if i < b.len() {
        if b[i] == NEWLINE {
            lemma_scan_len(b, i + 1, i + 1);
        } else {
            lemma_scan_len(b, start, i + 1);
        }
    }
}

/// A scan that starts before the end of the bytes yields at least one entry.
pub proof fn lemma_scan_nonempty(b: Seq<u8>, start: int, i: int)
    requires
        0 <= start <= i <= b.len(),
        start < b.len(),
    ensures
        scan_lines(b, start, i).len() > 0,
    decreases b.len() - i,
{
    if i < b.len() && b[i] != NEWLINE {
        lemma_scan_nonempty(b, start, i + 1);
    }
}

/// Bytes without any terminator hold exactly one line, which spans them all.
pub proof fn lemma_no_terminator(b: Seq<u8>)
    requires
        b.len() >= 1,
        forall|k: int| 0 <= k < b.len() ==> b[k] != NEWLINE,
    ensures
        all_lines(b) == seq![(0usize, b.len() as usize)],
{
    lemma_no_terminator_from(b, 0);
}

proof fn lemma_no_terminator_from(b: Seq<u8>, i: int)
    requires
        0 <= i <= b.len(),
        b.len() >= 1,
        forall|k: int| 0 <= k < b.len() ==> b[k] != NEWLINE,
    ensures
        scan_lines(b, 0, i) == seq![(0usize, b.len() as usize)],
    decreases b.len() - i,
{
    if i < b.len() {
        lemma_no_terminator_from(b, i + 1);
    }
}

/// Each entry of a scan starts no later than it ends, and ends within the bytes.
pub proof fn lemma_entries_ordered(b: Seq<u8>, start: int, i: int)
    requires
        0 <= start <= i <= b.len(),
        b.len() <= usize::MAX,
    ensures
        forall|k: int|
            0 <= k < scan_lines(b, start, i).len() ==> {
                let e = #[trigger] scan_lines(b, start, i)[k];
                e.0 <= e.1 <= b.len()
            },
    decreases b.len() - i,
{
    if i < b.len() {
        if b[i] == NEWLINE {
            lemma_entries_ordered(b, i + 1, i + 1);
            let rest = scan_lines(b, i + 1, i + 1);
            assert(scan_lines(b, start, i) == seq![(start as usize, i as usize)] + rest);
            assert forall|k: int| 0 <= k < scan_lines(b, start, i).len() implies {
                let e = #[trigger] scan_lines(b, start, i)[k];
                e.0 <= e.1 <= b.len()
            } by {
                if k > 0 {
                    assert(scan_lines(b, start, i)[k] == rest[k - 1]);
                } else {
                    assert(scan_lines(b, start, i)[k] == (start as usize, i as usize));
                }
            }
        } else {
            lemma_entries_ordered(b, start, i + 1);
            assert(scan_lines(b, start, i) == scan_lines(b, start, i + 1));
        }
    } else if start < b.len() {
        assert(scan_lines(b, start, i) == seq![(start as usize, b.len() as usize)]);
    }
}

} // verus!
