//! The editor's state and the operations on it.

use vstd::prelude::*;
use vstd::string::StringExecFns;
use crate::item::{item_views, ItemView, TodoItem};
use crate::model::{lemma_max_id, max_id, other_than, AddError, AppView};
use crate::retain::{is_marked, lemma_retained_agree, retained, unmarked};
use crate::text::{blank, lemma_trimmed_empty_iff_blank, trim};

verus! {

/// The state of the checklist editor: the entries in display order, the
/// text of the "new item" field, the theme, whether the "new item" row is
/// shown, and the identifier that the next added entry receives.
///
/// Identifiers are handed out in increasing order and never reused while
/// the list is not replaced as a whole.  The counter is wider than an
/// identifier, so that "one past the largest identifier" always exists;
/// once it has passed the largest `u32`, nothing more can be added.
///
/// The fields are private: a value can only be made by [`TodoApp::new`] and
/// changed by the operations below, each of which keeps
/// [`AppView::valid`].
pub struct TodoApp {
    items: Vec<TodoItem>,
    input: String,
    dark_mode: bool,
    showing_add_item_input: bool,
    next_id: u64,
}

impl View for TodoApp {
    type V = AppView;

    closed spec fn view(&self) -> AppView {
        AppView {
            items: item_views(self.items@),
            input: self.input@,
            dark_mode: self.dark_mode,
            showing_add_item_input: self.showing_add_item_input,
            next_id: self.next_id as nat,
        }
    }
}

/// The largest identifier among `items`, or 0 when there is none.
pub fn largest_id(items: &Vec<TodoItem>) -> (largest: u32)
    ensures
        largest == max_id(item_views(items@)),
{
    let ghost views = item_views(items@);
    let mut largest: u32 = 0;
    let mut i: usize = 0;
    while i < items.len()
        invariant
            i <= items.len(),
            views == item_views(items@),
            largest == max_id(views.subrange(0, i as int)),
        decreases items.len() - i,
    {
        assert(views.subrange(0, i + 1).drop_last() == views.subrange(0, i as int));
        if items[i].id > largest {
            largest = items[i].id;
        }
        i += 1;
    }
    assert(views.subrange(0, i as int) == views);
    largest
}

/// Whether position `i` occurs among `marked`.
pub fn marked_at(marked: &Vec<usize>, i: usize) -> (found: bool)
    ensures
        found == is_marked(marked@, i as int),
{
    let mut k: usize = 0;
    while k < marked.len()
        invariant
            k <= marked.len(),
            forall|j: int| 0 <= j < k ==> marked@[j] != i,
        decreases marked.len() - k,
    {
        if marked[k] == i {
            return true;
        }
        k += 1;
    }
    false
}

impl Default for TodoApp {
    /// The editor at start-up, as [`TodoApp::new`] gives it.
    fn default() -> (app: TodoApp)
        ensures
            app@ == AppView::initial(),
            app@.valid(),
    {
        TodoApp::new()
    }
}

impl TodoApp {
    /// The editor at start-up.
    pub fn new() -> (app: TodoApp)
        ensures
            app@ == AppView::initial(),
            app@.valid(),
    {
        let app = TodoApp {
            items: Vec::new(),
            input: String::new(),
            dark_mode: false,
            showing_add_item_input: false,
            next_id: 1,
        };
        assert(item_views(app.items@) == Seq::<ItemView>::empty());
        app
    }

    /// The entries, in display order.
    pub fn items(&self) -> (items: &Vec<TodoItem>)
        ensures
            item_views(items@) == self@.items,
    {
        &self.items
    }

    /// The text of the "new item" field.
    pub fn input(&self) -> (input: &str)
        ensures
            input@ == self@.input,
    {
        self.input.as_str()
    }

    /// Whether the dark theme is chosen.
    pub fn dark_mode(&self) -> (dark_mode: bool)
        ensures
            dark_mode == self@.dark_mode,
    {
        self.dark_mode
    }

    /// Whether the "new item" row is shown.
    pub fn showing_add_item_input(&self) -> (showing: bool)
        ensures
            showing == self@.showing_add_item_input,
    {
        self.showing_add_item_input
    }

    /// The identifier that the next added entry receives.  A value above
    /// `u32::MAX` says that none is left.
    pub fn next_id(&self) -> (next_id: u64)
        ensures
            next_id == self@.next_id,
    {
        self.next_id
    }

    /// Appends a new entry that holds `text` as it stands, under the next
    /// identifier, and returns that identifier.  Empty text is rejected,
    /// and so is any text once the identifiers have run out; the state is
    /// then unchanged.
    pub fn append(&mut self, text: String) -> (outcome: Result<u32, AddError>)
        ensures
            outcome == old(self)@.append_outcome(text@),
            final(self)@ == old(self)@.append(text@),
            old(self)@.valid() ==> final(self)@.valid(),
    {
        if text.as_str().is_empty() {
            return Err(AddError::Blank);
        }
        if self.next_id > u32::MAX as u64 {
            return Err(AddError::IdsExhausted);
        }
        let id: u32 = self.next_id as u32;
        self.next_id = self.next_id + 1;
        self.items.push(TodoItem::new(id, text));
        assert(item_views(self.items@) == item_views(old(self).items@).push(
            ItemView { id, description: text@, completed: false, edit: false },
        ));
        Ok(id)
    }

    /// Appends a new entry that holds `description` without its leading and
    /// trailing white space, as [`Self::append`] does.  Text that is blank
    /// is therefore rejected, and changes nothing.
    pub fn add(&mut self, description: &str) -> (outcome: Result<u32, AddError>)
        ensures
            outcome == old(self)@.add_outcome(description@),
            final(self)@ == old(self)@.add(description@),
            blank(description@) ==> final(self)@ == old(self)@,
            old(self)@.valid() ==> final(self)@.valid(),
    {
        proof {
            lemma_trimmed_empty_iff_blank(description@);
        }
        self.append(trim(description))
    }

    /// Replaces all entries by `items`, as after loading a list.  The next
    /// identifier becomes one past the largest among `items`, or 1 when
    /// `items` is empty; the rest of the state stays.
    pub fn replace_all(&mut self, items: Vec<TodoItem>)
        ensures
            final(self)@ == old(self)@.replace_all(item_views(items@)),
            final(self)@.valid(),
    {
        let largest: u32 = largest_id(&items);
        proof {
            lemma_max_id(item_views(items@));
        }
        self.items = items;
        self.next_id = largest as u64 + 1;
    }

    /// Removes the entries at the positions listed in `marked`, whatever
    /// their number and order, and keeps the others in their order.  The
    /// entries leave from the highest position down, so that no removal
    /// moves an entry that is still to leave.
    pub fn remove_marked(&mut self, marked: &Vec<usize>)
        ensures
            final(self)@ == old(self)@.remove_marked(marked@),
            old(self)@.valid() ==> final(self)@.valid(),
    {
        let ghost before = self@;
        let ghost keep = unmarked(marked@);
        let mut i: usize = self.items.len();
        assert(before.items.subrange(0, i as int) == before.items);
        while i > 0
            invariant
                i <= self.items.len(),
                i <= before.items.len(),
                keep == unmarked(marked@),
                self@.input == before.input,
                self@.dark_mode == before.dark_mode,
                self@.showing_add_item_input == before.showing_add_item_input,
                self@.next_id == before.next_id,
                self@.items.subrange(0, i as int) == before.items.subrange(0, i as int),
                retained(before.items, keep) == retained(before.items.subrange(0, i as int), keep)
                    + self@.items.subrange(i as int, self@.items.len() as int),
                before.valid() ==> self@.valid(),
            decreases i,
        {
            let ghost front = before.items.subrange(0, i as int);
            let ghost now = self@.items;
            i -= 1;
            assert(front.drop_last() == before.items.subrange(0, i as int));
            if marked_at(marked, i) {
                self.items.remove(i);
                assert(self@.items == now.remove(i as int));
            }
        }
        assert(self@.items.subrange(0, self@.items.len() as int) == self@.items);
    }

    /// Removes every entry that carries `id` and keeps the others in their
    /// order.  Returns whether there was such an entry.
    pub fn remove(&mut self, id: u32) -> (found: bool)
        ensures
            found == old(self)@.has_id(id),
            final(self)@ == old(self)@.remove(id),
            old(self)@.valid() ==> final(self)@.valid(),
    {
        let ghost before = self@;
        let mut marked: Vec<usize> = Vec::new();
        let mut i: usize = 0;
        while i < self.items.len()
            invariant
                i <= self.items.len(),
                self@ == before,
                forall|k: int| 0 <= k < marked@.len() ==> #[trigger] marked@[k] < i,
                forall|j: int|
                    0 <= j < i ==> (is_marked(marked@, j) <==> (#[trigger] before.items[j]).id
                        == id),
            decreases self.items.len() - i,
        {
            if self.items[i].id == id {
                let ghost earlier = marked@;
                marked.push(i);
                assert(marked@[marked@.len() - 1] == i);
                assert forall|j: int| 0 <= j < i + 1 implies (is_marked(marked@, j) <==> (
                #[trigger] before.items[j]).id == id) by {
                    if j < i && is_marked(earlier, j) {
                        let k = choose|k: int| 0 <= k < earlier.len() && #[trigger] earlier[k] == j;
                        assert(marked@[k] == j);
                    }
                }
            }
            i += 1;
        }
        let found: bool = marked.len() > 0;
        proof {
            if found {
                let j = marked@[0] as int;
                assert(before.items[j].id == id);
            }
            lemma_retained_agree(before.items, unmarked(marked@), other_than(before.items, id));
        }
        self.remove_marked(&marked);
        found
    }

    /// Flips the completion flag of every entry that carries `id`.  Returns
    /// whether there was such an entry.
    pub fn toggle_complete(&mut self, id: u32) -> (found: bool)
        ensures
            found == old(self)@.has_id(id),
            final(self)@ == old(self)@.toggle_complete(id),
            old(self)@.valid() ==> final(self)@.valid(),
    {
        let ghost before = self@;
        let ghost after = before.toggle_complete(id);
        let mut found: bool = false;
        let mut i: usize = 0;
        while i < self.items.len()
            invariant
                i <= self.items.len(),
                after == before.toggle_complete(id),
                self@ == (AppView { items: self@.items, ..before }),
                self@.items.len() == before.items.len(),
                forall|j: int| 0 <= j < i ==> #[trigger] self@.items[j] == after.items[j],
                forall|j: int|
                    i <= j < before.items.len() ==> #[trigger] self@.items[j] == before.items[j],
                found <==> exists|j: int| 0 <= j < i && (#[trigger] before.items[j]).id == id,
            decreases self.items.len() - i,
        {
            let ghost views = self@.items;
            assert(views[i as int] == before.items[i as int]);
            if self.items[i].id == id {
                let flipped: bool = !self.items[i].completed;
                self.items[i].completed = flipped;
                found = true;
                assert(self@.items == views.update(i as int, after.items[i as int]));
            }
            i += 1;
        }
        assert(self@.items == after.items);
        found
    }

    /// Gives every entry that carries `id` the text `text`, as it stands.
    /// Returns whether there was such an entry.
    pub fn set_description(&mut self, id: u32, text: &str) -> (found: bool)
        ensures
            found == old(self)@.has_id(id),
            final(self)@ == old(self)@.set_description(id, text@),
            old(self)@.valid() ==> final(self)@.valid(),
    {
        let ghost before = self@;
        let ghost after = before.set_description(id, text@);
        let mut found: bool = false;
        let mut i: usize = 0;
        while i < self.items.len()
            invariant
                i <= self.items.len(),
                after == before.set_description(id, text@),
                self@ == (AppView { items: self@.items, ..before }),
                self@.items.len() == before.items.len(),
                forall|j: int| 0 <= j < i ==> #[trigger] self@.items[j] == after.items[j],
                forall|j: int|
                    i <= j < before.items.len() ==> #[trigger] self@.items[j] == before.items[j],
                found <==> exists|j: int| 0 <= j < i && (#[trigger] before.items[j]).id == id,
            decreases self.items.len() - i,
        {
            let ghost views = self@.items;
            assert(views[i as int] == before.items[i as int]);
            if self.items[i].id == id {
                self.items[i].description = String::from_str(text);
                found = true;
                assert(self@.items == views.update(i as int, after.items[i as int]));
            }
            i += 1;
        }
        assert(self@.items == after.items);
        found
    }

    /// Sets the completion flag of the entry at `index`.  An `index` past
    /// the end changes nothing.
    pub fn set_completed(&mut self, index: usize, completed: bool)
        ensures
            final(self)@ == old(self)@.set_completed(index as int, completed),
            old(self)@.valid() ==> final(self)@.valid(),
    {
        if index < self.items.len() {
            self.items[index].completed = completed;
            assert(self@.items == old(self)@.set_completed(index as int, completed).items);
        }
    }

    /// Opens the editor of the entry at `index`: its text can be changed
    /// until [`Self::confirm_edit`].  An `index` past the end changes
    /// nothing.
    pub fn begin_edit(&mut self, index: usize)
        ensures
            final(self)@ == old(self)@.set_editing(index as int, true),
            old(self)@.valid() ==> final(self)@.valid(),
    {
        if index < self.items.len() {
            self.items[index].edit = true;
            assert(self@.items == old(self)@.set_editing(index as int, true).items);
        }
    }

    /// Closes the editor of the entry at `index`, keeping its text whatever
    /// it is.  An `index` past the end changes nothing.
    pub fn confirm_edit(&mut self, index: usize)
        ensures
            final(self)@ == old(self)@.set_editing(index as int, false),
            old(self)@.valid() ==> final(self)@.valid(),
    {
        if index < self.items.len() {
            self.items[index].edit = false;
            assert(self@.items == old(self)@.set_editing(index as int, false).items);
        }
    }

    /// Takes `text` as the new text of the entry at `index`, provided that
    /// its editor is open.  Otherwise, and for an `index` past the end,
    /// nothing changes.
    pub fn edit_description(&mut self, index: usize, text: String)
        ensures
            final(self)@ == old(self)@.edit_description(index as int, text@),
            old(self)@.valid() ==> final(self)@.valid(),
    {
        if index < self.items.len() && self.items[index].edit {
            self.items[index].description = text;
            assert(self@.items == old(self)@.edit_description(index as int, text@).items);
        }
    }

    /// Chooses the dark (`true`) or the light (`false`) theme.
    pub fn set_dark_mode(&mut self, dark_mode: bool)
        ensures
            final(self)@ == old(self)@.set_dark_mode(dark_mode),
            old(self)@.valid() ==> final(self)@.valid(),
    {
        self.dark_mode = dark_mode;
        assert(self@.items == old(self)@.items);
    }

    /// Shows the "new item" row.
    pub fn show_add_input(&mut self)
        ensures
            final(self)@ == old(self)@.show_add_input(),
            old(self)@.valid() ==> final(self)@.valid(),
    {
        self.showing_add_item_input = true;
        assert(self@.items == old(self)@.items);
    }

    /// Takes `text` as the text of the "new item" field, provided that the
    /// row is shown.
    pub fn set_input(&mut self, text: String)
        ensures
            final(self)@ == old(self)@.set_input(text@),
            old(self)@.valid() ==> final(self)@.valid(),
    {
        if self.showing_add_item_input {
            self.input = text;
        }
    }

    /// Confirms the "new item" row: adds its text as [`Self::add`] does and,
    /// where that succeeds, empties the field and hides the row.  Where the
    /// row is hidden, the text is blank or no identifier is left, nothing
    /// changes at all.
    pub fn confirm_add(&mut self) -> (outcome: Option<Result<u32, AddError>>)
        ensures
            outcome == if old(self)@.showing_add_item_input {
                Some(old(self)@.add_outcome(old(self)@.input))
            } else {
                None
            },
            final(self)@ == old(self)@.confirm_add(),
            blank(old(self)@.input) ==> final(self)@ == old(self)@,
            old(self)@.valid() ==> final(self)@.valid(),
    {
        if !self.showing_add_item_input {
            return None;
        }
        let text = String::from_str(self.input.as_str());
        let outcome = self.add(text.as_str());
        if outcome.is_ok() {
            self.input = String::new();
            self.showing_add_item_input = false;
        }
        Some(outcome)
    }
}

} // verus!
