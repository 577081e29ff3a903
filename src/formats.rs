//! The intents that drive the pager, and how inputs map to them.
use vstd::prelude::*;

verus! {

/// A navigation or control intent, whatever input produced it.
#[derive(Clone, Copy, Debug, PartialEq, Eq, Structural)]
pub enum Message {
    ScrollUpPage,
    ScrollDownPage,
    ScrollLeftPage,
    ScrollRightPage,
    Reload,
    Exit,
}

/// A key press, as far as the pager tells keys apart.
#[derive(Clone, Copy, Debug, PartialEq, Eq, Structural)]
pub enum KeyPress {
    Char(char),
    Ctrl(char),
    Left,
    Right,
    Up,
    Other,
}

/// An OS signal that the pager listens to.
#[derive(Clone, Copy, Debug, PartialEq, Eq, Structural)]
pub enum SignalKind {
    /// The terminal window changed size.
    Resize,
    Interrupt,
}

/// `q` and Ctrl-C quit; the arrow keys scroll; any other key scrolls down.
pub fn message_for_key(key: KeyPress) -> (r: Message)
    ensures
        r == match key {
            KeyPress::Char(c) => if c == 'q' { Message::Exit } else { Message::ScrollDownPage },
            KeyPress::Ctrl(c) => if c == 'c' { Message::Exit } else { Message::ScrollDownPage },
            KeyPress::Left => Message::ScrollLeftPage,
            KeyPress::Right => Message::ScrollRightPage,
            KeyPress::Up => Message::ScrollUpPage,
            KeyPress::Other => Message::ScrollDownPage,
        },
{
    match key {
        KeyPress::Char(c) if c == 'q' => Message::Exit,
        KeyPress::Ctrl(c) if c == 'c' => Message::Exit,
        KeyPress::Left => Message::ScrollLeftPage,
        KeyPress::Right => Message::ScrollRightPage,
        KeyPress::Up => Message::ScrollUpPage,
        _ => Message::ScrollDownPage,
    }
}

/// A resize asks for the page again; an interrupt ends the pager.
pub fn message_for_signal(signal: SignalKind) -> (r: Message)
    ensures
        r == (match signal {
            SignalKind::Resize => Message::Reload,
            SignalKind::Interrupt => Message::Exit,
        }),
{
    match signal {
        SignalKind::Resize => Message::Reload,
        SignalKind::Interrupt => Message::Exit,
    }
}

/// The terminal's `(columns, rows)`, or 80 by 80 where it could not be had.
pub fn dimensions_or_default(queried: Option<(u16, u16)>) -> (r: (u16, u16))
    ensures
        r == (match queried {
            Some(d) => d,
            None => (80u16, 80u16),
        }),
{
    match queried {
        Some(d) => d,
        None => (80, 80),
    }
}

} // verus!
