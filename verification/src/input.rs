//! Raw terminal events mapped onto dispatcher actions.

use vstd::prelude::*;

use crate::action::AppAction;
use crate::action::EditorAction;
use crate::action::LayoutAction;
use crate::key::KeyEvent;

verus! {

/// A raw event from the terminal.
#[derive(Debug, Clone, Copy, PartialEq, Eq, Structural)]
pub enum InputEvent {
    Key(KeyEvent),
    Resize(u16, u16),
    Other,
}

/// Maps raw terminal events onto dispatcher actions.
pub struct InputHandler;

impl InputHandler {
    /// A key press becomes a keystroke action, a resize a viewport action,
    /// anything else nothing.
    pub fn action(&self, event: &InputEvent) -> (r: Option<AppAction>)
        ensures
            r == match *event {
                InputEvent::Key(k) => Some(AppAction::Editor(EditorAction::KeyPressed(k))),
                InputEvent::Resize(w, h) => Some(
                    AppAction::Layout(LayoutAction::ViewportResized { width: w, height: h }),
                ),
                InputEvent::Other => None::<AppAction>,
            },
    {
        match event {
            InputEvent::Resize(width, height) => Some(
                AppAction::Layout(LayoutAction::ViewportResized { width: *width, height: *height }),
            ),
            InputEvent::Key(key) => Some(AppAction::Editor(EditorAction::KeyPressed(*key))),
            InputEvent::Other => None,
        }
    }
}

} // verus!
