//! A verified view-model for a to-do list: an ordered list of entries, a
//! status filter and the text of the "new entry" input field.

pub mod entry;
pub mod filter;
pub mod laws;
pub mod message;
pub mod persist;
pub mod reducer;
pub mod route;
pub mod state;
pub mod text;

pub use entry::{Entry, EntryView};
pub use filter::Filter;
pub use message::{Message, MessageView};
pub use persist::{DeserializationError, Snapshot, SnapshotView, KEY};
pub use reducer::{IndexError, Outcome};
pub use state::{State, StateView};
