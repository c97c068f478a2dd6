//! Events and commands exchanged with the widget shell.
//!
//! The shell translates its widget events into [`UiEvent`] values, hands
//! them to the editor panes in this crate, and carries out the returned
//! [`UiCommand`]s against its widget tree. The decisions stay here, the
//! widget plumbing stays in the shell.

use vstd::prelude::*;

verus! {

/// A widget event, reduced to what the editor panes decide on.
#[derive(Clone, Debug)]
pub enum UiEvent {
    /// A widget changed state (a button was pressed, an item was selected);
    /// carries the widget's name and identifier.
    StateChanged { id_name: String, id_uuid: u128 },
    /// Any other event; the panes decide nothing on it.
    Other,
}

/// A widget-tree update the shell is asked to carry out.
#[derive(Clone, Debug)]
pub enum UiCommand {
    /// Add an item for a freshly created object to the object list,
    /// deselect the other items, select this one, and announce the
    /// selection.
    AddObjectListItem { item_uuid: u128, text: String },
}

} // verus!
