//! What goes into a page and what comes out of it: keys, and the events that a page asks the
//! application to act on.

use vstd::prelude::*;

verus! {

/// A key as the pages tell keys apart. Modifiers play no part.
#[derive(Debug, Clone, Copy, PartialEq, Eq, Structural)]
pub enum Key {
    Esc,
    Enter,
    Backspace,
    Char(char),
    /// Any other key.
    Other,
}

/// What a page asks the application to do.
#[derive(Debug, Clone, Copy, PartialEq, Eq, Structural)]
pub enum AppEventType {
    Quit,
    BucketListMoveDown,
    BucketListOpenManagementConsole,
    OpenHelp,
}

} // verus!
