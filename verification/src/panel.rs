//! The bottom panel of the editor.
//!
//! Its widget layout is built by the shell; the panel currently decides
//! nothing on events, and this is stated.

use crate::project::Project;
use crate::ui::UiEvent;
use vstd::prelude::*;

verus! {

/// The editor's bottom panel.
#[derive(Clone, Copy, PartialEq, Eq, Structural, Debug)]
pub struct Panel {}

impl Panel {
    /// A fresh panel.
    pub fn new() -> (p: Panel)
        ensures
            p == (Panel {  }),
    {
        Panel {  }
    }

    /// Handle a widget event. The panel reacts to no event yet: it never
    /// asks for a redraw and leaves the project untouched.
    pub fn handle_event(&mut self, event: &UiEvent, project: &mut Project) -> (redraw: bool)
        ensures
            redraw == false,
            *final(self) == *old(self),
            *final(project) == *old(project),
    {
        let redraw = false;
        match event {
            _ => {},
        }
        redraw
    }
}

} // verus!
