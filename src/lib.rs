//! Formatted, aligned tables rendered as text, and tree prefixes for
//! hierarchical listings.
use vstd::prelude::*;

pub mod cell;
pub mod color;
pub mod consts;
pub mod format;
pub mod row;
pub mod table;
pub mod tree;
pub mod utils;
pub mod width;

pub use cell::Cell;
pub use row::Row;
pub use table::{Slice, Table, TableSlice};

verus! {

} // verus!
