//! The sidebar: the pane that lists the project's objects, points and
//! shapes.
//!
//! Its widget layout is built by the shell. What the sidebar decides — which
//! events create an object, which section buttons fall back to the unselected
//! state — lives here, stated over [`UiEvent`]s and [`UiCommand`]s.

use crate::object::is_new_object;
use crate::object::Object;
use crate::project::Project;
use crate::ui::UiCommand;
use crate::ui::UiEvent;
use vstd::prelude::*;
use vstd::string::StringSliceAdditionalSpecFns;

verus! {

/// Does the event press the button that adds an object?
pub open spec fn is_object_add(event: UiEvent) -> bool {
    match event {
        UiEvent::StateChanged { id_name, .. } => id_name@ == "Object Add"@,
        _ => false,
    }
}

/// Does a byte string start with the given prefix?
pub open spec fn bytes_start_with(s: Seq<u8>, prefix: Seq<u8>) -> bool {
    s.len() >= prefix.len() && s.subrange(0, prefix.len() as int) == prefix
}

/// The editor's sidebar pane.
#[derive(Clone, Copy, PartialEq, Eq, Structural, Debug)]
pub struct Sidebar {
    pub width: i32,
}

impl Sidebar {
    /// A fresh sidebar of the default width.
    pub fn new() -> (s: Sidebar)
        ensures
            s.width == 380,
    {
        Sidebar { width: 380 }
    }

    /// Handle a widget event.
    ///
    /// Pressing the object-add button appends a fresh object to the project
    /// and asks the shell to list it; this only happens while the shell
    /// shows the object list (`object_list_present`). No event asks for a
    /// redraw.
    pub fn handle_event(
        &mut self,
        event: &UiEvent,
        object_list_present: bool,
        project: &mut Project,
    ) -> (r: (bool, Vec<UiCommand>))
        ensures
            r.0 == false,
            *final(self) == *old(self),
            is_object_add(*event) && object_list_present ==> exists|o: Object|
                {
                    &&& #[trigger] is_new_object(o)
                    &&& final(project).objects@ == old(project).objects@.push(o)
                    &&& final(project).name == old(project).name
                    &&& final(project).id == old(project).id
                    &&& r.1@ =~= seq![UiCommand::AddObjectListItem { item_uuid: o.id, text: o.name }]
                },
            !(is_object_add(*event) && object_list_present) ==> *final(project) == *old(project)
                && r.1@ == Seq::<UiCommand>::empty(),
    {
        let redraw = false;
        let mut commands: Vec<UiCommand> = Vec::new();
        match event {
            UiEvent::StateChanged { id_name, .. } => {
                let add_button = "Object Add".to_owned();
                if *id_name == add_button && object_list_present {
                    let object = Object::new();
                    let item_uuid = object.id;
                    let text = object.name.clone();
                    commands.push(UiCommand::AddObjectListItem { item_uuid, text });
                    let ghost witness = object;
                    project.add_object(object);
                    proof {
                        assert(is_new_object(witness));
                        assert(commands@ =~= seq![
                            UiCommand::AddObjectListItem {
                                item_uuid: witness.id,
                                text: witness.name,
                            },
                        ]);
                    }
                }
            },
            _ => {},
        }
        (redraw, commands)
    }

    /// Rebuild the sidebar lists after a project was loaded. Nothing is
    /// listed yet, so no commands are issued.
    pub fn load_from_project(&mut self, project: &Project) -> (commands: Vec<UiCommand>)
        ensures
            *final(self) == *old(self),
            commands@ == Seq::<UiCommand>::empty(),
    {
        let commands: Vec<UiCommand> = Vec::new();
        commands
    }

    /// Which section buttons fall back to the unselected state: every button
    /// whose name does not start with the given prefix. Entry `i` of the
    /// result says whether button `i` is to be deselected.
    pub fn deselect_sections_buttons(&mut self, button_names: &Vec<String>, except: &String) -> (
        deselect: Vec<bool>)
        ensures
            *final(self) == *old(self),
            deselect@.len() == button_names@.len(),
            forall|i: int|
                0 <= i < button_names@.len() ==> deselect@[i] == !bytes_start_with(
                    vstd::utf8::encode_utf8(button_names@[i]@),
                    vstd::utf8::encode_utf8(except@),
                ),
    {
        let count = button_names.len();
        let mut deselect: Vec<bool> = Vec::new();
        let mut i: usize = 0;
        while i < count
            invariant
                i <= count,
                count == button_names@.len(),
                deselect@.len() == i,
                forall|k: int|
                    0 <= k < i ==> deselect@[k] == !bytes_start_with(
                        vstd::utf8::encode_utf8(button_names@[k]@),
                        vstd::utf8::encode_utf8(except@),
                    ),
            decreases count - i,
        {
            let keeps = str_starts_with(button_names[i].as_str(), except.as_str());
            deselect.push(!keeps);
            i = i + 1;
        }
        deselect
    }
    /// The identifier of the first selected item of a list, if any. The
    /// shell hands the list over as `(identifier, selected)` pairs, in list
    /// order.
    pub fn get_selected_in_list_layout(&self, items: &Vec<(u128, bool)>) -> (r: Option<u128>)
        ensures
            match r {
                Some(id) => exists|i: int|
                    {
                        &&& 0 <= i < items@.len()
                        &&& #[trigger] items@[i] == (id, true)
                        &&& forall|j: int| 0 <= j < i ==> !(#[trigger] items@[j]).1
                    },
                None => forall|i: int| 0 <= i < items@.len() ==> !(#[trigger] items@[i]).1,
            },
    {
        let count = items.len();
        let mut i: usize = 0;
        while i < count
            invariant
                i <= count,
                count == items@.len(),
                forall|j: int| 0 <= j < i ==> !(#[trigger] items@[j]).1,
            decreases count - i,
        {
            let (id, selected) = items[i];
            if selected {
                proof {
                    assert(items@[i as int] == (id, true));
                }
                return Some(id);
            }
            i = i + 1;
        }
        None
    }
}

/// Does the string start with the given prefix, byte for byte?
fn str_starts_with(s: &str, prefix: &str) -> (r: bool)
    ensures
        r == bytes_start_with(s.spec_bytes(), prefix.spec_bytes()),
{
    let s_bytes = s.as_bytes();
    let p_bytes = prefix.as_bytes();
    let n = p_bytes.len();
    if s_bytes.len() < n {
        return false;
    }
    let mut i: usize = 0;
    while i < n
        invariant
            i <= n,
            n == p_bytes@.len(),
            n <= s_bytes@.len(),
            s_bytes@ == s.spec_bytes(),
            p_bytes@ == prefix.spec_bytes(),
            forall|k: int| 0 <= k < i ==> s_bytes@[k] == p_bytes@[k],
        decreases n - i,
    {
        if s_bytes[i] != p_bytes[i] {
            assert(!bytes_start_with(s.spec_bytes(), prefix.spec_bytes())) by {
                assert(s.spec_bytes().subrange(0, n as int)[i as int] != prefix.spec_bytes()[
                    i as int]);
            }
            return false;
        }
        i = i + 1;
    }
    assert(s.spec_bytes().subrange(0, n as int) =~= prefix.spec_bytes());
    true
}

} // verus!
