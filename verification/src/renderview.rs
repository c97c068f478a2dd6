//! The viewport pane that shows the raymarched image.
//!
//! The pane's widget is built by the shell, and the render engine fills the
//! widget's buffer on each tick; the pane itself currently decides nothing
//! on events, and this is stated.

use crate::project::Project;
use crate::ui::UiEvent;
use vstd::prelude::*;

verus! {

/// The editor's render viewport pane.
#[derive(Clone, Copy, PartialEq, Eq, Structural, Debug)]
pub struct RenderView {}

impl RenderView {
    /// A fresh viewport pane.
    pub fn new() -> (v: RenderView)
        ensures
            v == (RenderView {  }),
    {
        RenderView {  }
    }

    /// Handle a widget event. The pane reacts to no event yet: it never
    /// asks for a redraw and leaves the project untouched.
    pub fn handle_event(&mut self, event: &UiEvent, project: &mut Project) -> (redraw: bool)
        ensures
            redraw == false,
            *final(self) == *old(self),
            *final(project) == *old(project),
    {
        let redraw = false;
        match event {
            _ => {},
        }
        redraw
    }
}

} // verus!
