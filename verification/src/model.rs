//! The mathematical model of the editor's state and of each operation on it.
//!
//! Every executable operation of [`crate::store::TodoApp`] is specified as
//! "the view afterwards is this function of the view before".

use vstd::prelude::*;
use crate::item::ItemView;
use crate::retain::{retained, unmarked};
use crate::text::trimmed;

verus! {

/// Why no entry was added.
#[derive(Debug, Clone, Copy, PartialEq, Eq, Structural)]
pub enum AddError {
    /// The text is empty, or holds nothing but white space where it is
    /// trimmed first.
    Blank,
    /// Every identifier has been handed out.
    IdsExhausted,
}

/// The state of the editor.
pub ghost struct AppView {
    /// The entries, in display order.
    pub items: Seq<ItemView>,
    /// The text of the "new item" field.
    pub input: Seq<char>,
    /// Dark theme (`true`) or light theme (`false`).
    pub dark_mode: bool,
    /// Whether the "new item" row is shown.
    pub showing_add_item_input: bool,
    /// The identifier that the next added entry receives.
    pub next_id: nat,
}

/// The largest identifier among `items`, or 0 when there is none.
pub open spec fn max_id(items: Seq<ItemView>) -> nat
    decreases items.len(),
{
    if items.len() == 0 {
        0
    } else if items.last().id > max_id(items.drop_last()) {
        items.last().id as nat
    } else {
        max_id(items.drop_last())
    }
}

/// The test that accepts the positions of `items` whose entry does not
/// carry `id`.
pub open spec fn other_than(items: Seq<ItemView>, id: u32) -> spec_fn(int) -> bool {
    |i: int| items[i].id != id
}

/// No two entries of `items` share an identifier.
pub open spec fn unique_ids(items: Seq<ItemView>) -> bool {
    forall|i: int, j: int|
        0 <= i < j < items.len() ==> (#[trigger] items[i]).id != (#[trigger] items[j]).id
}

/// [`max_id`] bounds every identifier, and some entry carries it.
pub proof fn lemma_max_id(items: Seq<ItemView>)
    ensures
        forall|i: int| 0 <= i < items.len() ==> (#[trigger] items[i]).id <= max_id(items),
        items.len() > 0 ==> exists|i: int|
            0 <= i < items.len() && (#[trigger] items[i]).id == max_id(items),
        max_id(items) <= u32::MAX,
    decreases items.len(),
{
    if items.len() > 0 {
        let front = items.drop_last();
        lemma_max_id(front);
        assert forall|i: int| 0 <= i < items.len() implies (#[trigger] items[i]).id <= max_id(
            items,
        ) by {
            if i < front.len() {
                assert(items[i] == front[i]);
            }
        }
        if front.len() > 0 && items.last().id <= max_id(front) {
            let i = choose|i: int| 0 <= i < front.len() && (#[trigger] front[i]).id == max_id(front);
            assert(items[i].id == max_id(items));
        } else {
            assert(items[items.len() - 1].id == max_id(items));
        }
    }
}

impl AppView {
    /// The state at start-up: no entries, light theme, identifiers from 1.
    pub open spec fn initial() -> AppView {
        AppView {
            items: Seq::empty(),
            input: Seq::empty(),
            dark_mode: false,
            showing_add_item_input: false,
            next_id: 1,
        }
    }

    /// The invariant of the state: every identifier in use lies below the
    /// next one to be handed out, which is at least 1 and at most one past
    /// the largest `u32`.
    pub open spec fn valid(self) -> bool {
        &&& 1 <= self.next_id <= u32::MAX + 1
        &&& forall|i: int| 0 <= i < self.items.len() ==> (#[trigger] self.items[i]).id < self.next_id
    }

    /// Some entry carries the identifier `id`.
    pub open spec fn has_id(self, id: u32) -> bool {
        exists|i: int| 0 <= i < self.items.len() && (#[trigger] self.items[i]).id == id
    }

    /// What appending an entry with the text `text` yields: the new
    /// entry's identifier, or the reason why nothing is appended.
    pub open spec fn append_outcome(self, text: Seq<char>) -> Result<u32, AddError> {
        if text.len() == 0 {
            Err(AddError::Blank)
        } else if self.next_id > u32::MAX {
            Err(AddError::IdsExhausted)
        } else {
            Ok(self.next_id as u32)
        }
    }

    /// The state after appending an entry with the text `text`: where
    /// [`Self::append_outcome`] is `Ok`, one more entry at the end, holding
    /// `text` under the next identifier, not completed and not being
    /// edited; else the same state.
    pub open spec fn append(self, text: Seq<char>) -> AppView {
        match self.append_outcome(text) {
            Ok(id) => AppView {
                items: self.items.push(
                    ItemView { id, description: text, completed: false, edit: false },
                ),
                next_id: self.next_id + 1,
                ..self
            },
            Err(_) => self,
        }
    }

    /// What adding `text` yields: what appending the trimmed text does.
    pub open spec fn add_outcome(self, text: Seq<char>) -> Result<u32, AddError> {
        self.append_outcome(trimmed(text))
    }

    /// The state after adding `text`: the trimmed text is appended.
    pub open spec fn add(self, text: Seq<char>) -> AppView {
        self.append(trimmed(text))
    }

    /// The state after flipping the completion flag of the entries that
    /// carry `id`.
    pub open spec fn toggle_complete(self, id: u32) -> AppView {
        AppView {
            items: self.items.map_values(
                |it: ItemView|
                    if it.id == id {
                        ItemView { completed: !it.completed, ..it }
                    } else {
                        it
                    },
            ),
            ..self
        }
    }

    /// The state after giving the entries that carry `id` the text `text`.
    pub open spec fn set_description(self, id: u32, text: Seq<char>) -> AppView {
        AppView {
            items: self.items.map_values(
                |it: ItemView|
                    if it.id == id {
                        ItemView { description: text, ..it }
                    } else {
                        it
                    },
            ),
            ..self
        }
    }

    /// The state after removing the entries that carry `id`.
    pub open spec fn remove(self, id: u32) -> AppView {
        AppView { items: retained(self.items, other_than(self.items, id)), ..self }
    }

    /// The state after replacing all entries by `items`: identifiers go on
    /// from one past the largest of them, from 1 when there is none.
    pub open spec fn replace_all(self, items: Seq<ItemView>) -> AppView {
        AppView { items, next_id: max_id(items) + 1, ..self }
    }

    /// The state after removing the entries at the positions in `marked`.
    /// Positions that occur twice or lie outside the list change nothing.
    pub open spec fn remove_marked(self, marked: Seq<usize>) -> AppView {
        AppView { items: retained(self.items, unmarked(marked)), ..self }
    }

    /// The state after setting the completion flag of the entry at `index`.
    pub open spec fn set_completed(self, index: int, completed: bool) -> AppView {
        if 0 <= index < self.items.len() {
            AppView {
                items: self.items.update(index, ItemView { completed, ..self.items[index] }),
                ..self
            }
        } else {
            self
        }
    }

    /// The state after opening (`true`) or closing (`false`) the editor of
    /// the entry at `index`.
    pub open spec fn set_editing(self, index: int, edit: bool) -> AppView {
        if 0 <= index < self.items.len() {
            AppView {
                items: self.items.update(index, ItemView { edit, ..self.items[index] }),
                ..self
            }
        } else {
            self
        }
    }

    /// The state after typing `text` into the editor of the entry at
    /// `index`.  An entry that is not being edited keeps its text.
    pub open spec fn edit_description(self, index: int, text: Seq<char>) -> AppView {
        if 0 <= index < self.items.len() && self.items[index].edit {
            AppView {
                items: self.items.update(
                    index,
                    ItemView { description: text, ..self.items[index] },
                ),
                ..self
            }
        } else {
            self
        }
    }

    /// The state after choosing a theme.
    pub open spec fn set_dark_mode(self, dark_mode: bool) -> AppView {
        AppView { dark_mode, ..self }
    }

    /// The state after asking for the "new item" row.
    pub open spec fn show_add_input(self) -> AppView {
        AppView { showing_add_item_input: true, ..self }
    }

    /// The state after typing `text` into the "new item" field.  While the
    /// row is hidden the field keeps its text.
    pub open spec fn set_input(self, text: Seq<char>) -> AppView {
        if self.showing_add_item_input {
            AppView { input: text, ..self }
        } else {
            self
        }
    }

    /// The state after confirming the "new item" row.  Where the row is
    /// shown and its text can be added, the entry is appended, the field is
    /// emptied and the row is hidden; else nothing changes.
    pub open spec fn confirm_add(self) -> AppView {
        if self.showing_add_item_input && self.add_outcome(self.input) is Ok {
            AppView {
                input: Seq::empty(),
                showing_add_item_input: false,
                ..self.add(self.input)
            }
        } else {
            self
        }
    }
}

} // verus!
