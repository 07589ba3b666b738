//! The key map of the terminal UI's normal mode.
use vstd::prelude::*;

verus! {

/// What a key press asks the UI to do.
#[derive(Debug, Clone, Copy, PartialEq, Eq, Structural)]
pub enum Action {
    NextFile,
    PrevFile,
    NextComment,
    PrevComment,
    CursorDown,
    CursorUp,
    CommentLine,
    CommentRange,
    CommentFile,
    CommentOverall,
    SetRangeAnchor,
    EditComment,
    DeleteComment,
    ToggleReviewed,
    ToggleSidebar,
    CycleTheme,
    CycleThemeBack,
    IncreaseContext,
    DecreaseContext,
    ToggleViewMode,
    CloseForm,
    ToggleHelp,
    Quit,
    /// No action.
    NoOp,
}

/// A pressed key, as far as the key map distinguishes keys.
#[derive(Debug, Clone, Copy, PartialEq, Eq, Structural)]
pub enum Key {
    Char(char),
    Down,
    Up,
    Delete,
    Esc,
    /// Any other key.
    Other,
}

/// The action bound to a key in normal mode.
pub open spec fn action_of(key: Key) -> Action {
    match key {
        Key::Char(c) => {
            if c == 'q' {
                Action::Quit
            } else if c == 'n' {
                Action::NextFile
            } else if c == 'p' {
                Action::PrevFile
            } else if c == 'j' {
                Action::NextComment
            } else if c == 'k' {
                Action::PrevComment
            } else if c == 'c' {
                Action::CommentLine
            } else if c == 'v' {
                Action::SetRangeAnchor
            } else if c == 'R' {
                Action::CommentRange
            } else if c == 'F' {
                Action::CommentFile
            } else if c == 'O' {
                Action::CommentOverall
            } else if c == 'e' {
                Action::EditComment
            } else if c == 'x' {
                Action::DeleteComment
            } else if c == 'r' {
                Action::ToggleReviewed
            } else if c == 's' {
                Action::ToggleSidebar
            } else if c == 't' {
                Action::CycleTheme
            } else if c == 'T' {
                Action::CycleThemeBack
            } else if c == '+' || c == '=' {
                Action::IncreaseContext
            } else if c == '-' {
                Action::DecreaseContext
            } else if c == 'd' {
                Action::ToggleViewMode
            } else if c == '?' {
                Action::ToggleHelp
            } else {
                Action::NoOp
            }
        },
        Key::Down => Action::CursorDown,
        Key::Up => Action::CursorUp,
        Key::Delete => Action::DeleteComment,
        Key::Esc => Action::CloseForm,
        Key::Other => Action::NoOp,
    }
}

/// The action bound to a key press in normal mode.
pub fn action_for_key(key: Key) -> (r: Action)
    ensures
        r == action_of(key),
{
    match key {
        Key::Char(c) => {
            if c == 'q' {
                Action::Quit
            } else if c == 'n' {
                Action::NextFile
            } else if c == 'p' {
                Action::PrevFile
            } else if c == 'j' {
                Action::NextComment
            } else if c == 'k' {
                Action::PrevComment
            } else if c == 'c' {
                Action::CommentLine
            } else if c == 'v' {
                Action::SetRangeAnchor
            } else if c == 'R' {
                Action::CommentRange
            } else if c == 'F' {
                Action::CommentFile
            } else if c == 'O' {
                Action::CommentOverall
            } else if c == 'e' {
                Action::EditComment
            } else if c == 'x' {
                Action::DeleteComment
            } else if c == 'r' {
                Action::ToggleReviewed
            } else if c == 's' {
                Action::ToggleSidebar
            } else if c == 't' {
                Action::CycleTheme
            } else if c == 'T' {
                Action::CycleThemeBack
            } else if c == '+' || c == '=' {
                Action::IncreaseContext
            } else if c == '-' {
                Action::DecreaseContext
            } else if c == 'd' {
                Action::ToggleViewMode
            } else if c == '?' {
                Action::ToggleHelp
            } else {
                Action::NoOp
            }
        },
        Key::Down => Action::CursorDown,
        Key::Up => Action::CursorUp,
        Key::Delete => Action::DeleteComment,
        Key::Esc => Action::CloseForm,
        Key::Other => Action::NoOp,
    }
}

/// The action of a key press in normal mode, given whether a range anchor
/// is set: with an anchor, `c` comments the range from the anchor to the
/// cursor (`v` then `c`); every other key goes through the key map.
pub open spec fn action_with_anchor(anchor_set: bool, key: Key) -> Action {
    if anchor_set && key == Key::Char('c') {
        Action::CommentRange
    } else {
        action_of(key)
    }
}

/// The action of a key event: key presses go through the key map, where `c`
/// comments the anchored range once `v` has set an anchor; other events
/// (releases, repeats, resizes) and any key while the comment form owns the
/// input do nothing.
pub fn action_for_event(input_active: bool, anchor_set: bool, is_press: bool, key: Key) -> (r: Action)
    ensures
        r == (if input_active || !is_press { Action::NoOp } else { action_with_anchor(anchor_set, key) }),
{
    if input_active || !is_press {
        Action::NoOp
    } else if anchor_set && key == Key::Char('c') {
        Action::CommentRange
    } else {
        action_for_key(key)
    }
}

} // verus!
