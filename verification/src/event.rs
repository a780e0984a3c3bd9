//! The editor as a transition system: what each user event does to the
//! state, and what it asks the surrounding program to do.
//!
//! A render loop draws the state, turns each click or keystroke into an
//! [`Event`], hands it to [`TodoApp::apply`] and carries out the returned
//! [`Action`].

use vstd::prelude::*;
use crate::item::{item_views, ItemView, TodoItem};
use crate::model::AppView;
use crate::store::TodoApp;

verus! {

/// Something the user did, or the outcome of something the program was
/// asked to do.
pub enum Event {
    /// The "Load" button was clicked.
    LoadClicked,
    /// The "Save" button was clicked.
    SaveClicked,
    /// A list was read from the chosen file.
    Loaded { items: Vec<TodoItem> },
    /// No list came back from loading: the user chose no file, or the file
    /// could not be opened or understood.
    NothingLoaded,
    /// The theme box was set: dark (`true`) or light (`false`).
    ThemeChosen { dark_mode: bool },
    /// The completion box of the entry at `index` was set.
    CompletedSet { index: usize, completed: bool },
    /// The "Edit" button of the entry at `index` was clicked.
    EditClicked { index: usize },
    /// The confirm button of the entry at `index`, shown while it is being
    /// edited, was clicked.
    EditConfirmed { index: usize },
    /// The text of the entry at `index` was changed in its editor.
    DescriptionTyped { index: usize, text: String },
    /// All rows have been drawn; `marked` holds the positions whose delete
    /// button was clicked meanwhile.  Deletion waits for this event so that
    /// positions keep their meaning while the rows are drawn.
    RowsDrawn { marked: Vec<usize> },
    /// The button that reveals the "new item" row was clicked.
    AddClicked,
    /// The text of the "new item" field was changed.
    InputTyped { text: String },
    /// The confirm button of the "new item" row was clicked.
    AddConfirmed,
}

/// An [`Event`] with its texts and lists as sequences.
pub ghost enum EventView {
    LoadClicked,
    SaveClicked,
    Loaded { items: Seq<ItemView> },
    NothingLoaded,
    ThemeChosen { dark_mode: bool },
    CompletedSet { index: usize, completed: bool },
    EditClicked { index: usize },
    EditConfirmed { index: usize },
    DescriptionTyped { index: usize, text: Seq<char> },
    RowsDrawn { marked: Seq<usize> },
    AddClicked,
    InputTyped { text: Seq<char> },
    AddConfirmed,
}

impl View for Event {
    type V = EventView;

    open spec fn view(&self) -> EventView {
        match *self {
            Event::LoadClicked => EventView::LoadClicked,
            Event::SaveClicked => EventView::SaveClicked,
            Event::Loaded { items } => EventView::Loaded { items: item_views(items@) },
            Event::NothingLoaded => EventView::NothingLoaded,
            Event::ThemeChosen { dark_mode } => EventView::ThemeChosen { dark_mode },
            Event::CompletedSet { index, completed } => EventView::CompletedSet {
                index,
                completed,
            },
            Event::EditClicked { index } => EventView::EditClicked { index },
            Event::EditConfirmed { index } => EventView::EditConfirmed { index },
            Event::DescriptionTyped { index, text } => EventView::DescriptionTyped {
                index,
                text: text@,
            },
            Event::RowsDrawn { marked } => EventView::RowsDrawn { marked: marked@ },
            Event::AddClicked => EventView::AddClicked,
            Event::InputTyped { text } => EventView::InputTyped { text: text@ },
            Event::AddConfirmed => EventView::AddConfirmed,
        }
    }
}

/// What the program around the editor has to do after an event.
#[derive(Debug, Clone, Copy, PartialEq, Eq, Structural)]
pub enum Action {
    /// Nothing.
    Nothing,
    /// Let the user pick a file and read a list from it, then come back
    /// with [`Event::Loaded`] or, failing that, [`Event::NothingLoaded`].
    ChooseFileToLoad,
    /// Let the user pick a file and write the entries to it.
    ChooseFileToSave,
}

/// The state after `event` in state `s`.
pub open spec fn step(s: AppView, event: EventView) -> AppView {
    match event {
        EventView::LoadClicked => s,
        EventView::SaveClicked => s,
        EventView::Loaded { items } => s.replace_all(items),
        EventView::NothingLoaded => s,
        EventView::ThemeChosen { dark_mode } => s.set_dark_mode(dark_mode),
        EventView::CompletedSet { index, completed } => s.set_completed(index as int, completed),
        EventView::EditClicked { index } => s.set_editing(index as int, true),
        EventView::EditConfirmed { index } => s.set_editing(index as int, false),
        EventView::DescriptionTyped { index, text } => s.edit_description(index as int, text),
        EventView::RowsDrawn { marked } => s.remove_marked(marked),
        EventView::AddClicked => s.show_add_input(),
        EventView::InputTyped { text } => s.set_input(text),
        EventView::AddConfirmed => s.confirm_add(),
    }
}

/// What `event` asks the program to do.
pub open spec fn action_for(event: EventView) -> Action {
    match event {
        EventView::LoadClicked => Action::ChooseFileToLoad,
        EventView::SaveClicked => Action::ChooseFileToSave,
        _ => Action::Nothing,
    }
}

impl TodoApp {
    /// Takes `event` into account and says what the program has to do next.
    pub fn apply(&mut self, event: Event) -> (action: Action)
        ensures
            final(self)@ == step(old(self)@, event@),
            action == action_for(event@),
            old(self)@.valid() ==> final(self)@.valid(),
    {
        match event {
            Event::LoadClicked => Action::ChooseFileToLoad,
            Event::SaveClicked => Action::ChooseFileToSave,
            Event::Loaded { items } => {
                self.replace_all(items);
                Action::Nothing
            },
            Event::NothingLoaded => Action::Nothing,
            Event::ThemeChosen { dark_mode } => {
                self.set_dark_mode(dark_mode);
                Action::Nothing
            },
            Event::CompletedSet { index, completed } => {
                self.set_completed(index, completed);
                Action::Nothing
            },
            Event::EditClicked { index } => {
                self.begin_edit(index);
                Action::Nothing
            },
            Event::EditConfirmed { index } => {
                self.confirm_edit(index);
                Action::Nothing
            },
            Event::DescriptionTyped { index, text } => {
                self.edit_description(index, text);
                Action::Nothing
            },
            Event::RowsDrawn { marked } => {
                self.remove_marked(&marked);
                Action::Nothing
            },
            Event::AddClicked => {
                self.show_add_input();
                Action::Nothing
            },
            Event::InputTyped { text } => {
                self.set_input(text);
                Action::Nothing
            },
            Event::AddConfirmed => {
                let _ = self.confirm_add();
                Action::Nothing
            },
        }
    }
}

/// How the text of an entry is drawn.
#[derive(Debug, Clone, Copy, PartialEq, Eq, Structural)]
pub enum RowDisplay {
    /// As a read-only label, struck through if `struck`, beside an "Edit"
    /// button.
    Label { struck: bool },
    /// As an editable text field, beside a confirm button.
    Editor,
}

/// How an entry with view `item` is drawn: as an editor while it is being
/// edited, else as a label that is struck through once completed.
pub open spec fn row_display(item: ItemView) -> RowDisplay {
    if item.edit {
        RowDisplay::Editor
    } else {
        RowDisplay::Label { struck: item.completed }
    }
}

impl TodoItem {
    /// How this entry is to be drawn.
    pub fn display(&self) -> (display: RowDisplay)
        ensures
            display == row_display(self@),
    {
        if self.edit {
            RowDisplay::Editor
        } else {
            RowDisplay::Label { struck: self.completed }
        }
    }
}

} // verus!
