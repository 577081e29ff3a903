//! The scroll state: the viewport's origin, moved by intents.
use vstd::prelude::*;
use crate::formats::Message;
use crate::lines::all_lines;
use crate::reader::{PagedReader, page_rows, page_text, rows_end, shows_text, column_window, lemma_no_text_further_right};

verus! {

/// `a + b`, clamped to `u64::MAX`.
pub open spec fn add_clamped(a: u64, b: u16) -> u64 {
    if a + b > u64::MAX { u64::MAX } else { (a + b) as u64 }
}

/// `a - b`, clamped to 0.
pub open spec fn sub_clamped(a: u64, b: u16) -> u64 {
    if a < b { 0 } else { (a - b) as u64 }
}

/// The origin `(row, column)` that an intent asks for from `(ro, co)` in a
/// viewport of `rows` by `cols`.
pub open spec fn target_offsets(message: Message, ro: u64, co: u64, rows: u16, cols: u16) -> (u64, u64) {
    match message {
        Message::ScrollDownPage => (add_clamped(ro, rows), co),
        Message::ScrollUpPage => (sub_clamped(ro, rows), co),
        Message::ScrollRightPage => (ro, add_clamped(co, cols)),
        Message::ScrollLeftPage => (ro, sub_clamped(co, cols)),
        Message::Reload => (ro, co),
        Message::Exit => (ro, co),
    }
}

/// Whether `r` is the page of `b` at `(ro, co)`: `None` where no row is
/// there, else the rendered text.
pub open spec fn is_page(b: Seq<u8>, ro: u64, co: u64, rows: u16, cols: u16, r: Option<String>) -> bool {
    let sel = page_rows(all_lines(b), ro as int, rows as int);
    match r {
        Some(t) => sel.len() > 0 && t@ == page_text(b, sel, co as int, cols as int),
        None => sel.len() == 0,
    }
}

/// Whether the page of `b` at `(ro, co)` shows at least one character.
pub open spec fn has_visible_text(b: Seq<u8>, ro: u64, co: u64, rows: u16, cols: u16) -> bool {
    shows_text(page_rows(all_lines(b), ro as int, rows as int), co as int, cols as int)
}

/// Horizontal scrolling saturates: where the page one step to the right shows
/// no character, a move right leaves the origin where it is, and so does every
/// further move right.
pub proof fn lemma_scroll_right_saturates(
    h0: &ScreenMoveHandler,
    h1: &ScreenMoveHandler,
    h2: &ScreenMoveHandler,
    rows: u16,
    cols: u16,
    r1: Option<String>,
    r2: Option<String>,
)
    requires
        h0.wf(),
        !has_visible_text(h0.reader().bytes(), h0.offsets().0, add_clamped(h0.offsets().1, cols), rows, cols),
        ScreenMoveHandler::moved(h0, h1, Message::ScrollRightPage, rows, cols, r1),
        ScreenMoveHandler::moved(h1, h2, Message::ScrollRightPage, rows, cols, r2),
    ensures
        h1.offsets() == h0.offsets(),
        h2.offsets() == h0.offsets(),
        r1 is None,
        r2 is None,
{
}

/// Once the page at some column offset shows no character, the page at any
/// larger column offset shows none either.
pub proof fn lemma_blank_stays_blank(b: Seq<u8>, ro: u64, co: u64, co2: u64, rows: u16, cols: u16)
    requires
        co <= co2,
        !has_visible_text(b, ro, co, rows, cols),
    ensures
        !has_visible_text(b, ro, co2, rows, cols),
{
    lemma_no_text_further_right(page_rows(all_lines(b), ro as int, rows as int), co as int, co2 as int, cols as int);
}

/// The viewport's origin over a paged reader, which it owns.
pub struct ScreenMoveHandler {
    paged_reader: PagedReader,
    row_offset: u64,
    column_offset: u64,
}

impl ScreenMoveHandler {
    pub closed spec fn reader(&self) -> PagedReader {
        self.paged_reader
    }

    /// The viewport's origin, `(row, column)`.
    pub closed spec fn offsets(&self) -> (u64, u64) {
        (self.row_offset, self.column_offset)
    }

    pub open spec fn wf(&self) -> bool {
        self.reader().wf()
    }

    /// `new` is `old` after `message` was handled in a viewport of `rows` by
    /// `cols`, and `r` is what it hands back to be drawn. A move right is kept
    /// only where it brings some character into view; it then shows the new
    /// page, and otherwise nothing.
    pub open spec fn moved(
        old: &ScreenMoveHandler,
        new: &ScreenMoveHandler,
        message: Message,
        rows: u16,
        cols: u16,
        r: Option<String>,
    ) -> bool {
        let b = old.reader().bytes();
        let t = target_offsets(message, old.offsets().0, old.offsets().1, rows, cols);
        &&& PagedReader::discovered(&old.reader(), &new.reader(), rows_end(t.0, rows))
        &&& if message == Message::ScrollRightPage {
            if has_visible_text(b, t.0, t.1, rows, cols) {
                &&& new.offsets() == t
                &&& is_page(b, t.0, t.1, rows, cols, r)
            } else {
                &&& new.offsets() == old.offsets()
                &&& r is None
            }
        } else {
            &&& new.offsets() == t
            &&& is_page(b, t.0, t.1, rows, cols, r)
        }
    }

    pub fn new(paged_reader: PagedReader) -> (r: ScreenMoveHandler)
        requires
            paged_reader.wf(),
        ensures
            r.wf(),
            r.reader() == paged_reader,
            r.offsets() == (0u64, 0u64),
    {
        ScreenMoveHandler { paged_reader, row_offset: 0, column_offset: 0 }
    }

    /// Reads the page at the current origin.
    fn show(&mut self, rows: u16, cols: u16) -> (r: Option<String>)
        requires
            old(self).wf(),
        ensures
            PagedReader::discovered(&old(self).reader(), &final(self).reader(), rows_end(old(self).offsets().0, rows)),
            final(self).offsets() == old(self).offsets(),
            is_page(old(self).reader().bytes(), old(self).offsets().0, old(self).offsets().1, rows, cols, r),
    {
        let (text, rows_red, _cols_red) = self.paged_reader.read_file_paged(
            self.row_offset,
            self.column_offset,
            rows,
            cols,
        );
        if rows_red > 0 {
            Some(text)
        } else {
            None
        }
    }

    /// The first page, at the origin `(0, 0)`.
    pub fn initial_screen(&mut self, rows: u16, cols: u16) -> (r: Option<String>)
        requires
            old(self).wf(),
        ensures
            PagedReader::discovered(&old(self).reader(), &final(self).reader(), rows_end(0, rows)),
            final(self).offsets() == (0u64, 0u64),
            is_page(old(self).reader().bytes(), 0, 0, rows, cols, r),
    {
        self.row_offset = 0;
        self.column_offset = 0;
        self.show(rows, cols)
    }

    /// The page again at the same origin, for new terminal dimensions.
    pub fn reload(&mut self, rows: u16, cols: u16) -> (r: Option<String>)
        requires
            old(self).wf(),
        ensures
            ScreenMoveHandler::moved(old(self), final(self), Message::Reload, rows, cols, r),
    {
        self.show(rows, cols)
    }

    /// Moves the origin one page down.
    pub fn move_down(&mut self, rows: u16, cols: u16) -> (r: Option<String>)
        requires
            old(self).wf(),
        ensures
            ScreenMoveHandler::moved(old(self), final(self), Message::ScrollDownPage, rows, cols, r),
            final(self).offsets().0 >= old(self).offsets().0,
    {
        self.row_offset = self.row_offset.saturating_add(rows as u64);
        self.show(rows, cols)
    }

    /// Moves the origin one page up, stopping at the first row.
    pub fn move_up(&mut self, rows: u16, cols: u16) -> (r: Option<String>)
        requires
            old(self).wf(),
        ensures
            ScreenMoveHandler::moved(old(self), final(self), Message::ScrollUpPage, rows, cols, r),
            final(self).offsets().0 <= old(self).offsets().0,
    {
        self.row_offset = self.row_offset.saturating_sub(rows as u64);
        self.show(rows, cols)
    }

    /// Moves the origin one page left, stopping at the first column.
    pub fn move_left(&mut self, rows: u16, cols: u16) -> (r: Option<String>)
        requires
            old(self).wf(),
        ensures
            ScreenMoveHandler::moved(old(self), final(self), Message::ScrollLeftPage, rows, cols, r),
            final(self).offsets().1 <= old(self).offsets().1,
    {
        self.column_offset = self.column_offset.saturating_sub(cols as u64);
        self.show(rows, cols)
    }

    /// Moves the origin one page right, where that brings a character into view.
    pub fn move_right(&mut self, rows: u16, cols: u16) -> (r: Option<String>)
        requires
            old(self).wf(),
        ensures
            ScreenMoveHandler::moved(old(self), final(self), Message::ScrollRightPage, rows, cols, r),
            final(self).offsets().1 >= old(self).offsets().1,
    {
        let target = self.column_offset.saturating_add(cols as u64);
        let (text, _rows_red, cols_red) = self.paged_reader.read_file_paged(
            self.row_offset,
            target,
            rows,
            cols,
        );
        proof {
            let sel = page_rows(all_lines(old(self).reader().bytes()), self.row_offset as int, rows as int);
            if shows_text(sel, target as int, cols as int) {
                let k = choose|k: int| 0 <= k < sel.len()
                    && #[trigger] column_window(sel[k], target as int, cols as int).0
                        < column_window(sel[k], target as int, cols as int).1;
                assert(cols > 0);
            }
        }
        if cols_red > 0 {
            self.column_offset = target;
            Some(text)
        } else {
            None
        }
    }

    /// Handles one intent: `None` for `Exit`, which ends the pager and leaves
    /// the state as it is; otherwise what the move hands back to be drawn.
    pub fn handle(&mut self, message: Message, rows: u16, cols: u16) -> (r: Option<Option<String>>)
        requires
            old(self).wf(),
        ensures
            message == Message::Exit ==> r is None && *final(self) == *old(self),
            message != Message::Exit ==> (r matches Some(page)
                && ScreenMoveHandler::moved(old(self), final(self), message, rows, cols, page)),
    {
        match message {
            Message::ScrollUpPage => Some(self.move_up(rows, cols)),
            Message::ScrollDownPage => Some(self.move_down(rows, cols)),
            Message::ScrollLeftPage => Some(self.move_left(rows, cols)),
            Message::ScrollRightPage => Some(self.move_right(rows, cols)),
            Message::Reload => Some(self.reload(rows, cols)),
            Message::Exit => None,
        }
    }
    /// The first row in view.
    pub fn row_offset(&self) -> (r: u64)
        ensures
            r == self.offsets().0,
    {
        self.row_offset
    }

    /// The first column in view.
    pub fn column_offset(&self) -> (r: u64)
        ensures
            r == self.offsets().1,
    {
        self.column_offset
    }
}

} // verus!
