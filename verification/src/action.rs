//! The closed command vocabulary the dispatcher works through, and the
//! requests it hands outward for file work.

use vstd::prelude::*;

use crate::key::KeyEvent;
use crate::state::BufferId;

verus! {

#[derive(Debug, PartialEq, Eq)]
pub enum AppAction {
    Editor(EditorAction),
    Layout(LayoutAction),
    Window(WindowAction),
    Buffer(BufferAction),
    Tab(TabAction),
    File(FileAction),
    System(SystemAction),
}

#[derive(Debug, Clone, Copy, PartialEq, Eq, Structural)]
pub enum EditorAction {
    KeyPressed(KeyEvent),
    EnterInsert,
    AppendInsert,
    OpenLineBelowInsert,
    OpenLineAboveInsert,
    EnterCommandMode,
    EnterVisualMode,
    EnterVisualLineMode,
    MoveLeft,
    MoveLineStart,
    MoveLineEnd,
    MoveDown,
    MoveUp,
    MoveRight,
    MoveFileStart,
    MoveFileEnd,
    ScrollViewDown,
    ScrollViewUp,
    ScrollViewHalfPageDown,
    ScrollViewHalfPageUp,
    Undo,
    Redo,
    JoinLineBelow,
    CutCharToSlot,
    PasteSlotAfterCursor,
    DeleteCurrentLineToSlot,
    CloseActiveBuffer,
    NewEmptyBuffer,
}

#[derive(Debug, Clone, Copy, PartialEq, Eq, Structural)]
pub enum LayoutAction {
    SplitHorizontal,
    SplitVertical,
    ViewportResized { width: u16, height: u16 },
}

#[derive(Debug, Clone, Copy, PartialEq, Eq, Structural)]
pub enum WindowAction {
    FocusLeft,
    FocusDown,
    FocusUp,
    FocusRight,
    CloseActive,
}

#[derive(Debug, Clone, Copy, PartialEq, Eq, Structural)]
pub enum BufferAction {
    SwitchPrev,
    SwitchNext,
}

#[derive(Debug, Clone, Copy, PartialEq, Eq, Structural)]
pub enum TabAction {
    New,
    CloseCurrent,
    SwitchPrev,
    SwitchNext,
}

/// File work arriving back at the dispatcher as events. Load and save
/// results carry the error as text.
#[derive(Debug, PartialEq, Eq)]
pub enum FileAction {
    OpenRequested { path: String },
    ExternalChangeDetected { buffer_id: BufferId, path: String },
    LoadCompleted { buffer_id: BufferId, source: FileLoadSource, result: Result<String, String> },
    SaveCompleted { buffer_id: BufferId, result: Result<(), String> },
}

#[derive(Debug, Clone, Copy, PartialEq, Eq, Structural)]
pub enum FileLoadSource {
    Open,
    External,
}

#[derive(Debug, Clone, Copy, PartialEq, Eq, Structural)]
pub enum SystemAction {
    Quit,
}

/// Whether the event loop goes on or the editor shuts down.
#[derive(Debug, Clone, Copy, PartialEq, Eq, Structural)]
pub enum Flow {
    Continue,
    Quit,
}

impl Flow {
    pub fn is_break(&self) -> (r: bool)
        ensures
            r == (*self == Flow::Quit),
    {
        *self == Flow::Quit
    }

    pub fn is_continue(&self) -> (r: bool)
        ensures
            r == (*self == Flow::Continue),
    {
        *self == Flow::Continue
    }
}

/// File work the dispatcher asks its surroundings to perform.
#[derive(Debug, PartialEq, Eq)]
pub enum IoRequest {
    Load { buffer_id: BufferId, path: String, source: FileLoadSource },
    Save { buffer_id: BufferId, path: String, text: String },
    Watch { buffer_id: BufferId, path: String },
    Unwatch { buffer_id: BufferId },
}

} // verus!
