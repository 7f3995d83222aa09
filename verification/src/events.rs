//! Events emitted by a table toward its host.

use vstd::prelude::*;

verus! {

/// The event handed to the host when a cell of the table was changed.
#[derive(Debug, Clone)]
pub struct ChangeEvent<Row: Clone + Sync + Send> {
    /// The index of the table row that contains the cell that was changed. Starts at 0.
    pub row_index: usize,
    /// The index of the table column that contains the cell that was changed. Starts at 0.
    pub col_index: usize,
    /// The row that was changed.
    pub changed_row: Row,
}

/// The event handed to the host when a row was selected or de-selected.
#[derive(Debug, Clone)]
pub struct SelectionChangeEvent<Row: Clone + Sync + Send> {
    /// `true` if the row was selected, `false` if it was de-selected.
    pub selected: bool,
    /// The index of the row that was de-/selected.
    pub row_index: usize,
    /// The row that was de-/selected.
    pub row: Row,
}

} // verus!
