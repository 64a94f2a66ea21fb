//! Keyboard handling and scrolling of the process table.
use vstd::prelude::*;

verus! {

/// A key as the terminal reports it.
#[derive(Clone, Copy, Debug, PartialEq, Eq, Structural)]
pub enum Key {
    Char(char),
    Up,
    Down,
    Esc,
    Other,
}

/// What the monitor does in answer to a key.
#[derive(Clone, Copy, Debug, PartialEq, Eq, Structural)]
pub enum KeyAction {
    Quit,
    ScrollDown,
    ScrollUp,
    Refresh,
    ToggleStress,
    Nothing,
}

/// The action for `key`: only presses count; `q`, Esc and Ctrl-C quit, `j`/Down and
/// `k`/Up scroll, `r` refreshes, `t` starts or stops the stress test.
pub open spec fn action_for(key: Key, ctrl: bool, pressed: bool) -> KeyAction {
    if !pressed {
        KeyAction::Nothing
    } else {
        match key {
            Key::Char(c) => {
                if c == 'q' {
                    KeyAction::Quit
                } else if c == 'c' && ctrl {
                    KeyAction::Quit
                } else if c == 'j' {
                    KeyAction::ScrollDown
                } else if c == 'k' {
                    KeyAction::ScrollUp
                } else if c == 'r' {
                    KeyAction::Refresh
                } else if c == 't' {
                    KeyAction::ToggleStress
                } else {
                    KeyAction::Nothing
                }
            },
            Key::Down => KeyAction::ScrollDown,
            Key::Up => KeyAction::ScrollUp,
            Key::Esc => KeyAction::Quit,
            Key::Other => KeyAction::Nothing,
        }
    }
}

/// The action for a key event; `ctrl` tells whether Control was held, `pressed`
/// whether the event is a press (releases and repeats do nothing).
pub fn key_action(key: Key, ctrl: bool, pressed: bool) -> (act: KeyAction)
    ensures
        act == action_for(key, ctrl, pressed),
{
    if !pressed {
        return KeyAction::Nothing;
    }
    match key {
        Key::Char(c) => {
            if c == 'q' {
                KeyAction::Quit
            } else if c == 'c' && ctrl {
                KeyAction::Quit
            } else if c == 'j' {
                KeyAction::ScrollDown
            } else if c == 'k' {
                KeyAction::ScrollUp
            } else if c == 'r' {
                KeyAction::Refresh
            } else if c == 't' {
                KeyAction::ToggleStress
            } else {
                KeyAction::Nothing
            }
        },
        Key::Down => KeyAction::ScrollDown,
        Key::Up => KeyAction::ScrollUp,
        Key::Esc => KeyAction::Quit,
        Key::Other => KeyAction::Nothing,
    }
}

/// The last scroll position for a table of `len` rows: the last row's index (0 when empty).
pub open spec fn max_scroll(len: usize) -> usize {
    if len == 0 { 0 } else { (len - 1) as usize }
}

/// Position after scrolling down: one row further, unless the last row is already at the top.
pub open spec fn scrolled_down(scroll: usize, len: usize) -> usize {
    if scroll < max_scroll(len) { (scroll + 1) as usize } else { scroll }
}

/// Position after scrolling up: one row back, unless at the first row.
pub open spec fn scrolled_up(scroll: usize) -> usize {
    if scroll > 0 { (scroll - 1) as usize } else { scroll }
}

/// Scrolls the process table of `len` rows down by one row.
pub fn scroll_down(scroll: usize, len: usize) -> (next: usize)
    ensures
        next == scrolled_down(scroll, len),
{
    if scroll < len.saturating_sub(1) {
        scroll + 1
    } else {
        scroll
    }
}

/// Scrolls the process table up by one row.
pub fn scroll_up(scroll: usize) -> (next: usize)
    ensures
        next == scrolled_up(scroll),
{
    if scroll > 0 {
        scroll - 1
    } else {
        scroll
    }
}

/// Scrolling keeps the position on a row of the table: from a position on a row,
/// scrolling down or up lands on a row again.
pub proof fn lemma_scroll_stays_in_table(scroll: usize, len: usize)
    requires
        scroll <= max_scroll(len),
    ensures
        scrolled_down(scroll, len) <= max_scroll(len),
        scrolled_up(scroll) <= max_scroll(len),
{
}

/// Scrolling up undoes a scroll down that moved, and scrolling down undoes a
/// scroll up that moved, on a position within the table.
pub proof fn lemma_scroll_round_trip(scroll: usize, len: usize)
    ensures
        scroll < max_scroll(len) ==> scrolled_up(scrolled_down(scroll, len)) == scroll,
        0 < scroll <= max_scroll(len) ==> scrolled_down(scrolled_up(scroll), len) == scroll,
{
}

} // verus!
