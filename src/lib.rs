//! A terminal pager core: lazy line discovery over a memory-mapped byte
//! source, paged rendering of a viewport, and the scroll state that drives it.
use vstd::prelude::*;

pub mod source;
pub mod lines;
pub mod text;
pub mod reader;
pub mod formats;
pub mod screen_move_handler;

verus! {

} // verus!
