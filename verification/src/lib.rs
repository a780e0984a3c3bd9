//! A verified core for a small checklist editor.
//!
//! The crate holds the state of the editor (an ordered list of items, the
//! text of the "new item" field and a few display flags), the operations
//! that change it, and the transition function that a render loop drives
//! with user events.  Drawing, file dialogs and file formats belong to the
//! program around it.

pub mod event;
pub mod item;
pub mod laws;
pub mod model;
pub mod retain;
pub mod store;
pub mod text;

pub use event::{Action, Event, EventView, RowDisplay};
pub use item::{ItemView, TodoItem};
pub use model::{AddError, AppView};
pub use store::TodoApp;
