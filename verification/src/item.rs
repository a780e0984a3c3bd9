//! A single checklist entry and its mathematical view.

use vstd::prelude::*;

verus! {

/// One entry of the checklist.
///
/// `edit` tells whether the entry is currently shown as an editable text
/// field (`true`) or as a read-only label (`false`).
#[derive(Debug)]
pub struct TodoItem {
    pub id: u32,
    pub description: String,
    pub completed: bool,
    pub edit: bool,
}

/// What a [`TodoItem`] is, with its text as a sequence of characters.
pub ghost struct ItemView {
    pub id: u32,
    pub description: Seq<char>,
    pub completed: bool,
    pub edit: bool,
}

impl View for TodoItem {
    type V = ItemView;

    open spec fn view(&self) -> ItemView {
        ItemView {
            id: self.id,
            description: self.description@,
            completed: self.completed,
            edit: self.edit,
        }
    }
}

/// The views of a sequence of items, position by position.
pub open spec fn item_views(items: Seq<TodoItem>) -> Seq<ItemView> {
    Seq::new(items.len(), |i: int| items[i]@)
}

impl TodoItem {
    /// A fresh entry: not completed, not being edited.
    pub fn new(id: u32, description: String) -> (item: TodoItem)
        ensures
            item@ == (ItemView { id, description: description@, completed: false, edit: false }),
    {
        TodoItem { id, description, completed: false, edit: false }
    }
}

impl Clone for TodoItem {
    fn clone(&self) -> (copy: TodoItem)
        ensures
            copy@ == self@,
    {
        TodoItem {
            id: self.id,
            description: self.description.clone(),
            completed: self.completed,
            edit: self.edit,
        }
    }
}

impl PartialEq for TodoItem {
    fn eq(&self, other: &TodoItem) -> (same: bool) {
        self.id == other.id && self.description == other.description && self.completed
            == other.completed && self.edit == other.edit
    }
}

impl vstd::std_specs::cmp::PartialEqSpecImpl for TodoItem {
    open spec fn obeys_eq_spec() -> bool {
        true
    }

    open spec fn eq_spec(&self, other: &TodoItem) -> bool {
        self.id == other.id && self.description@ == other.description@ && self.completed
            == other.completed && self.edit == other.edit
    }
}

} // verus!
