//! A windowed row-state cache for virtualized tables.
//!
//! The cache tracks, per absolute row index, whether that row's data has
//! never been requested, is currently being fetched, is loaded, or failed
//! to load, and computes the bounding index range that still needs a fetch
//! for a given viewport.

pub mod events;
pub mod loaded_rows;

pub use loaded_rows::LoadedRows;
pub use loaded_rows::RowState;
pub use events::ChangeEvent;
pub use events::SelectionChangeEvent;
