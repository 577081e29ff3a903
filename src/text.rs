//! Turning the bytes of one row into the text shown for it, and joining rows.
use vstd::prelude::*;

verus! {

/// The text that lossy UTF-8 decoding makes of some bytes.
pub uninterp spec fn lossy_text(b: Seq<u8>) -> Seq<char>;

/// Relies on `String::from_utf8_lossy`: decodes the bytes, putting U+FFFD in
/// place of each invalid sequence, so that some bytes never give empty text.
#[verifier::external_body]
pub(crate) fn decode_lossy(b: &[u8]) -> (r: String)
    ensures
        r@ == lossy_text(b@),
        (b@.len() == 0) == (r@.len() == 0),
{
    String::from_utf8_lossy(b).into_owned()
}

/// Each horizontal tab replaced by one space.
pub open spec fn tabs_as_spaces(s: Seq<char>) -> Seq<char> {
    s.map_values(|c: char| if c == '\t' { ' ' } else { c })
}

/// Relies on `str::replace`: every `"\t"` becomes `" "`, all else is kept.
#[verifier::external_body]
pub(crate) fn replace_tabs(s: &str) -> (r: String)
    ensures
        r@ == tabs_as_spaces(s@),
{
    s.replace("\t", " ")
}

/// The visual line break put between two rows of a page.
pub open spec fn row_separator() -> Seq<char> {
    seq!['\n', '\r']
}

/// The rows joined by the row separator.
pub open spec fn joined(rows: Seq<Seq<char>>) -> Seq<char>
    decreases rows.len(),
{
    if rows.len() == 0 {
        seq![]
    } else if rows.len() == 1 {
        rows[0]
    } else {
        joined(rows.drop_last()) + row_separator() + rows.last()
    }
}

} // verus!
