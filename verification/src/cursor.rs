//! Mouse cursor icons selectable through the `cursor` property.

use vstd::prelude::*;

verus! {

#[derive(Debug, Clone, Copy, PartialEq, Eq, Structural)]
pub enum CursorIcon {
    /// Normal cursor icon, whatever that is.
    Default,
    /// Show no cursor.
    NoneValue,
    /// A context menu is available.
    ContextMenu,
    /// Question mark.
    Help,
    /// Pointing hand, used for e.g. web links.
    PointingHand,
    /// Processing is being done, but the program is still interactive.
    Progress,
    /// Not yet ready, try later.
    Wait,
    /// Hover a cell in a table.
    Cell,
    /// For precision work.
    Crosshair,
    /// Text caret.
    Text,
    /// Vertical text caret.
    VerticalText,
    /// An alias, e.g. a shortcut.
    Alias,
    /// A copy will be made.
    Copy,
    /// Omnidirectional move icon.
    Move,
    /// Can't drop here.
    NoDrop,
    /// Forbidden.
    NotAllowed,
    /// The hovered thing can be grabbed.
    Grab,
    /// The hovered thing is being grabbed.
    Grabbing,
    /// Something can be scrolled in any direction.
    AllScroll,
    /// Horizontal resize.
    ResizeHorizontal,
    /// Diagonal resize, right-up to/from left-down.
    ResizeNeSw,
    /// Diagonal resize, left-up to/from right-down.
    ResizeNwSe,
    /// Vertical resize.
    ResizeVertical,
    /// Resize rightwards.
    ResizeEast,
    /// Resize down and right.
    ResizeSouthEast,
    /// Resize downwards.
    ResizeSouth,
    /// Resize down and left.
    ResizeSouthWest,
    /// Resize leftwards.
    ResizeWest,
    /// Resize up and left.
    ResizeNorthWest,
    /// Resize upwards.
    ResizeNorth,
    /// Resize up and right.
    ResizeNorthEast,
    /// Resize a column.
    ResizeColumn,
    /// Resize a row.
    ResizeRow,
    /// Zoom in.
    ZoomIn,
    /// Zoom out.
    ZoomOut,
}

} // verus!
