//! The actions that a chord can be bound to.

use vstd::prelude::*;

verus! {

/// What the application does when a chord is struck. The table of chords
/// stores these and gives them back; it attaches no meaning to them.
#[derive(Clone, Copy, Debug, PartialEq, Eq, Structural, Hash)]
pub enum Action {
    Copy,
    Cut,
    EditLocation,
    HistoryNext,
    HistoryPrevious,
    ItemDown,
    ItemLeft,
    ItemRight,
    ItemUp,
    LocationUp,
    MoveToTrash,
    NewFolder,
    Open,
    Paste,
    Rename,
    SelectAll,
    TabClose,
    TabNew,
    TabNext,
    TabPrev,
    ToggleShowHidden,
    WindowClose,
    WindowNew,
}

} // verus!
