//! The paged reader: lazily discovers lines and serves viewports over them.
use vstd::prelude::*;
use vstd::string::StringExecFns;
use crate::lines::{all_lines, scan_lines, lemma_scan_len, lemma_scan_nonempty, lemma_entries_ordered, NEWLINE};
use crate::source::{mapped_bytes, mapped_slice};
use crate::text::{decode_lossy, replace_tabs, tabs_as_spaces, lossy_text, joined};

verus! {

/// How many entries the index holds after asking for `target` rows, when it
/// held `known` of the `total` lines: nothing is scanned while `target` rows are
/// known; otherwise the scan looks ahead for twice the missing count (at most
/// `u64::MAX`), or stops at the end of the bytes.
pub open spec fn discovered_len(total: int, known: int, target: int) -> int {
    if known >= target {
        known
    } else {
        let ahead = if 2 * (target - known) > u64::MAX { u64::MAX as int } else { 2 * (target - known) };
        if known + ahead < total { known + ahead } else { total }
    }
}

/// `row_offset + rows`, clamped to `u64::MAX`.
pub open spec fn rows_end(row_offset: u64, rows: u16) -> int {
    if row_offset + rows > u64::MAX { u64::MAX as int } else { row_offset + rows }
}

/// The entries of `lines` in `[row_offset, row_offset + rows)`, as far as they exist.
pub open spec fn page_rows(lines: Seq<(usize, usize)>, row_offset: int, rows: int) -> Seq<(usize, usize)> {
    if row_offset >= lines.len() {
        seq![]
    } else if row_offset + rows < lines.len() {
        lines.subrange(row_offset, row_offset + rows)
    } else {
        lines.subrange(row_offset, lines.len() as int)
    }
}

/// The byte range of an entry `(start, end)` that a viewport shows when it
/// skips `co` columns and shows `cr`: never past `end`.
pub open spec fn column_window(entry: (usize, usize), co: int, cr: int) -> (int, int) {
    let s = entry.0 as int;
    let e = entry.1 as int;
    let ws = if s + co < e { s + co } else { e };
    let we = if s + co + cr < e { s + co + cr } else { e };
    (ws, we)
}

/// The text shown for one entry.
pub open spec fn row_text(b: Seq<u8>, entry: (usize, usize), co: int, cr: int) -> Seq<char> {
    let w = column_window(entry, co, cr);
    tabs_as_spaces(lossy_text(b.subrange(w.0, w.1)))
}

/// The texts shown for each of the entries.
pub open spec fn row_texts(b: Seq<u8>, entries: Seq<(usize, usize)>, co: int, cr: int) -> Seq<Seq<char>> {
    entries.map_values(|e: (usize, usize)| row_text(b, e, co, cr))
}

/// The rendered page: the texts of the entries joined by the row separator.
pub open spec fn page_text(b: Seq<u8>, entries: Seq<(usize, usize)>, co: int, cr: int) -> Seq<char> {
    joined(row_texts(b, entries, co, cr))
}

/// Whether some entry keeps at least one byte in view after skipping `co` columns.
pub open spec fn shows_text(entries: Seq<(usize, usize)>, co: int, cr: int) -> bool {
    exists|k: int| 0 <= k < entries.len() && #[trigger] column_window(entries[k], co, cr).0 < column_window(entries[k], co, cr).1
}

/// Discovery is idempotent: once rows were asked for, asking again for as
/// many or fewer changes nothing, and the first request kept every entry that
/// was known before it.
pub proof fn lemma_rediscovery_keeps_index(
    r0: &PagedReader,
    r1: &PagedReader,
    r2: &PagedReader,
    n: int,
    m: int,
)
    requires
        r0.wf(),
        PagedReader::discovered(r0, r1, n),
        PagedReader::discovered(r1, r2, m),
        m <= n <= u64::MAX,
    ensures
        r0.index().is_prefix_of(r1.index()),
        r2.index() == r1.index(),
{
    let lines = all_lines(r0.bytes());
    let k0 = r0.index().len() as int;
    let k1 = r1.index().len() as int;
    assert(k0 <= k1);
    assert(r1.index().take(k0) =~= r0.index());
    let d = discovered_len(lines.len() as int, k0, n);
    assert(k0 <= d <= lines.len());
    assert(k1 == d);
    assert(d >= n || d == lines.len());
    assert(r2.index() =~= r1.index());
}

/// A viewport that shows no character after skipping `co` columns shows none
/// after skipping more.
pub proof fn lemma_no_text_further_right(entries: Seq<(usize, usize)>, co: int, co2: int, cr: int)
    requires
        0 <= co <= co2,
        0 <= cr,
        !shows_text(entries, co, cr),
    ensures
        !shows_text(entries, co2, cr),
{
    if shows_text(entries, co2, cr) {
        let k = choose|k: int| 0 <= k < entries.len()
            && #[trigger] column_window(entries[k], co2, cr).0 < column_window(entries[k], co2, cr).1;
        assert(column_window(entries[k], co, cr).0 < column_window(entries[k], co, cr).1);
    }
}

/// Serves viewports over a byte source, discovering its lines only as far as
/// the viewports reach.
pub struct PagedReader {
    /// Start-end row indexes, in row order. A row ends at its EOL byte, or at
    /// the end of the source.
    rows_indexes: Vec<(usize, usize)>,
    /// Where the scan for further rows resumes.
    scan_from: usize,
    mmap: memmap::Mmap,
}

impl PagedReader {
    /// The byte source.
    pub closed spec fn bytes(&self) -> Seq<u8> {
        mapped_bytes(self.mmap)
    }

    /// The line index discovered so far.
    pub closed spec fn index(&self) -> Seq<(usize, usize)> {
        self.rows_indexes@
    }

    /// The scan position accounts for every line not yet discovered.
    pub closed spec fn resume_ok(&self) -> bool {
        &&& self.scan_from <= self.bytes().len()
        &&& all_lines(self.bytes()) == self.index() + scan_lines(self.bytes(), self.scan_from as int, self.scan_from as int)
    }

    /// The index is a prefix of all the lines of the source.
    pub open spec fn wf(&self) -> bool {
        &&& self.bytes().len() <= usize::MAX
        &&& self.index().len() <= all_lines(self.bytes()).len()
        &&& self.index() == all_lines(self.bytes()).take(self.index().len() as int)
        &&& self.resume_ok()
    }

    /// `new` is `old` after discovery was asked for `target` rows.
    pub open spec fn discovered(old: &PagedReader, new: &PagedReader, target: int) -> bool {
        let lines = all_lines(old.bytes());
        &&& new.wf()
        &&& new.bytes() == old.bytes()
        &&& new.index() == lines.take(discovered_len(lines.len() as int, old.index().len() as int, target))
    }

    pub fn new(mmap: memmap::Mmap) -> (r: PagedReader)
        ensures
            r.wf(),
            r.bytes() == mapped_bytes(mmap),
            r.index() == Seq::<(usize, usize)>::empty(),
    {
        // Taking the mapping's length bounds it by `usize::MAX`.
        let _len = mapped_slice(&mmap).len();
        let r = PagedReader { rows_indexes: Vec::new(), scan_from: 0, mmap };
        proof {
            assert(r.index() + scan_lines(r.bytes(), 0, 0) =~= all_lines(r.bytes()));
            assert(r.index() =~= all_lines(r.bytes()).take(0));
        }
        r
    }

    /// Scans onward from where the last scan stopped, for twice the rows still
    /// missing up to `to_row`, or up to the end of the source.
    fn fetch_missing_rows_indexes(&mut self, to_row: u64)
        requires
            old(self).wf(),
            old(self).index().len() < to_row,
        ensures
            PagedReader::discovered(old(self), final(self), to_row as int),
    {
        let ghost b = self.bytes();
        let ghost old_index = self.index();
        let data = mapped_slice(&self.mmap);
        let len = data.len();
        let missing: u64 = to_row - self.rows_indexes.len() as u64;
        let limit: u64 = match missing.checked_mul(2) {
            Some(v) => v,
            None => u64::MAX,
        };
        let mut res: Vec<(usize, usize)> = Vec::new();
        let mut found: u64 = 0;
        let mut last: usize = self.scan_from;
        let mut i: usize = self.scan_from;
        while i < len && found < limit
            invariant
                data@ == b,
                len == b.len(),
                last <= i <= len,
                found <= limit,
                found == res@.len(),
                found >= limit ==> last == i,
                all_lines(b) == old_index + res@ + scan_lines(b, last as int, i as int),
            decreases len - i,
        {
            if data[i] == NEWLINE {
                proof {
                    assert(scan_lines(b, last as int, i as int)
                        == seq![(last, i)] + scan_lines(b, i + 1, i + 1));
                    assert(old_index + res@.push((last, i)) + scan_lines(b, i + 1, i + 1)
                        =~= old_index + res@ + scan_lines(b, last as int, i as int));
                }
                res.push((last, i));
                last = i + 1;
                found = found + 1;
            } else {
                assert(scan_lines(b, last as int, i as int) == scan_lines(b, last as int, i + 1));
            }
            i = i + 1;
        }
        if i == len {
            if last < len {
                proof {
                    assert(scan_lines(b, last as int, i as int) == seq![(last, len)]);
                    assert(scan_lines(b, len as int, len as int) =~= Seq::<(usize, usize)>::empty());
                    assert(old_index + res@.push((last, len)) + scan_lines(b, len as int, len as int)
                        =~= old_index + res@ + scan_lines(b, last as int, i as int));
                }
                res.push((last, len));
            } else {
                assert(old_index + res@ + scan_lines(b, len as int, len as int)
                    =~= old_index + res@ + scan_lines(b, last as int, i as int));
            }
            self.scan_from = len;
        } else {
            self.scan_from = last;
        }
        self.rows_indexes.append(&mut res);
        proof {
            let lines = all_lines(b);
            let n = self.index().len() as int;
            lemma_scan_len(b, 0, 0);
            assert(lines == self.index() + scan_lines(b, self.scan_from as int, self.scan_from as int));
            assert(lines.take(n) =~= self.index());
            if i == len {
                assert(scan_lines(b, len as int, len as int) =~= Seq::<(usize, usize)>::empty());
                assert(lines =~= self.index());
            }
        }
    }

    /// Makes sure that at least `target` rows are known, unless the source
    /// holds fewer; entries already known are kept as they are.
    pub fn ensure_rows_known(&mut self, target: u64)
        requires
            old(self).wf(),
        ensures
            PagedReader::discovered(old(self), final(self), target as int),
            old(self).index().is_prefix_of(final(self).index()),
            final(self).index().len() >= target || final(self).index() == all_lines(final(self).bytes()),
    {
        let known = self.rows_indexes.len() as u64;
        if known < target && !self.is_fully_scanned() {
            self.fetch_missing_rows_indexes(target);
        }
    }

    /// The index entries of the rows `[row_offset, row_offset + rows)`, as far
    /// as the source holds them; discovers them first where needed.
    pub fn get_rows_indexes(&mut self, rows: u16, row_offset: u64) -> (r: Vec<(usize, usize)>)
        requires
            old(self).wf(),
        ensures
            PagedReader::discovered(old(self), final(self), rows_end(row_offset, rows)),
            r@ == page_rows(all_lines(old(self).bytes()), row_offset as int, rows as int),
            r@.len() <= rows,
    {
        let ghost b = self.bytes();
        let to_row = row_offset.saturating_add(rows as u64);
        self.ensure_rows_known(to_row);
        let len = self.rows_indexes.len();
        let mut out: Vec<(usize, usize)> = Vec::new();
        proof {
            let lines = all_lines(b);
            lemma_scan_len(b, 0, 0);
            if self.index().len() < lines.len() {
                assert(self.index().len() >= to_row);
            }
        }
        if row_offset < len as u64 {
            let from = row_offset as usize;
            let to = if len - from > rows as usize { from + rows as usize } else { len };
            let mut k: usize = from;
            while k < to
                invariant
                    from <= k <= to <= len,
                    len == self.rows_indexes@.len(),
                    out@ == self.rows_indexes@.subrange(from as int, k as int),
                decreases to - k,
            {
                out.push(self.rows_indexes[k]);
                k = k + 1;
                assert(out@ =~= self.rows_indexes@.subrange(from as int, k as int));
            }
            proof {
                let lines = all_lines(b);
                assert(self.index() == lines.take(len as int));
                assert(out@ =~= page_rows(lines, row_offset as int, rows as int));
            }
        } else {
            proof {
                let lines = all_lines(b);
                assert(out@ =~= page_rows(lines, row_offset as int, rows as int));
            }
        }
        out
    }

    /// Renders the viewport whose top-left corner is `(row_offset,
    /// column_offset)` and which is `rows_to_read` rows high and
    /// `columns_to_read` columns wide. Returns the text, the number of rows
    /// served, and `columns_to_read` if some row showed a character, else 0.
    pub fn read_file_paged(
        &mut self,
        row_offset: u64,
        column_offset: u64,
        rows_to_read: u16,
        columns_to_read: u16,
    ) -> (r: (String, usize, usize))
        requires
            old(self).wf(),
        ensures
            PagedReader::discovered(old(self), final(self), rows_end(row_offset, rows_to_read)),
            ({
                let sel = page_rows(all_lines(old(self).bytes()), row_offset as int, rows_to_read as int);
                &&& r.0@ == page_text(old(self).bytes(), sel, column_offset as int, columns_to_read as int)
                &&& r.1 == sel.len()
                &&& r.2 == if shows_text(sel, column_offset as int, columns_to_read as int) {
                    columns_to_read as usize
                } else {
                    0
                }
            }),
            r.1 <= rows_to_read,
    {
        let ghost b = self.bytes();
        let ghost co = column_offset as int;
        let ghost cr = columns_to_read as int;
        let indexes = self.get_rows_indexes(rows_to_read, row_offset);
        let ghost sel = indexes@;
        proof {
            let lines = all_lines(b);
            lemma_entries_ordered(b, 0, 0);
            assert forall|k: int| 0 <= k < sel.len() implies (#[trigger] sel[k]).0 <= sel[k].1 <= b.len() by {
                assert(sel[k] == lines[row_offset + k]);
            }
        }
        let data = mapped_slice(&self.mmap);
        let n = indexes.len();
        let mut res = String::new();
        let mut has_text = false;
        let mut i: usize = 0;
        while i < n
            invariant
                data@ == b,
                b.len() <= usize::MAX,
                co == column_offset as int,
                cr == columns_to_read as int,
                indexes@ == sel,
                n == sel.len(),
                i <= n,
                forall|k: int| 0 <= k < sel.len() ==> (#[trigger] sel[k]).0 <= sel[k].1 <= b.len(),
                res@ == joined(row_texts(b, sel.take(i as int), co, cr)),
                has_text == shows_text(sel.take(i as int), co, cr),
            decreases n - i,
        {
            let (start_row, end_row) = indexes[i];
            let ghost entry = sel[i as int];
            let width = end_row - start_row;
            let (ws, we) = if column_offset >= width as u64 {
                (end_row, end_row)
            } else {
                let ws = start_row + column_offset as usize;
                if (columns_to_read as usize) < end_row - ws {
                    (ws, ws + columns_to_read as usize)
                } else {
                    (ws, end_row)
                }
            };
            let row = &data[ws..we];
            let decoded = decode_lossy(row);
            let text = replace_tabs(decoded.as_str());
            let row_has_text = !text.as_str().is_empty();
            proof {
                let prev = sel.take(i as int);
                let next = sel.take(i + 1);
                assert(next.drop_last() =~= prev);
                let rt = row_texts(b, next, co, cr);
                assert(rt.drop_last() =~= row_texts(b, prev, co, cr));
                assert(rt.last() == row_text(b, entry, co, cr));
                assert(row_has_text == (ws < we));
                if ws < we {
                    assert(next[i as int] == entry);
                    assert(shows_text(next, co, cr));
                } else if shows_text(next, co, cr) {
                    let k = choose|k: int| 0 <= k < next.len()
                        && #[trigger] column_window(next[k], co, cr).0 < column_window(next[k], co, cr).1;
                    assert(k != i);
                    assert(next[k] == prev[k]);
                    assert(shows_text(prev, co, cr));
                }
                if shows_text(prev, co, cr) {
                    let k = choose|k: int| 0 <= k < prev.len()
                        && #[trigger] column_window(prev[k], co, cr).0 < column_window(prev[k], co, cr).1;
                    assert(next[k] == prev[k]);
                }
                reveal_strlit("\n\r");
            }
            has_text = has_text || row_has_text;
            if i > 0 {
                res.append("\n\r");
            }
            res.append(text.as_str());
            i = i + 1;
        }
        assert(sel.take(n as int) =~= sel);
        let cols_red = if has_text { columns_to_read as usize } else { 0 };
        (res, n, cols_red)
    }

    /// Whether every line of the source is known.
    pub fn is_fully_scanned(&self) -> (r: bool)
        requires
            self.wf(),
        ensures
            r == (self.index() == all_lines(self.bytes())),
    {
        let len = mapped_slice(&self.mmap).len();
        proof {
            let rest = scan_lines(self.bytes(), self.scan_from as int, self.scan_from as int);
            if self.scan_from < len {
                lemma_scan_nonempty(self.bytes(), self.scan_from as int, self.scan_from as int);
                assert(all_lines(self.bytes()).len() > self.index().len());
            } else {
                assert(rest =~= Seq::<(usize, usize)>::empty());
                assert(all_lines(self.bytes()) =~= self.index());
            }
        }
        self.scan_from >= len
    }

    pub fn cached_rows(&self) -> (r: usize)
        ensures
            r == self.index().len(),
    {
        self.rows_indexes.len()
    }
}

} // verus!
