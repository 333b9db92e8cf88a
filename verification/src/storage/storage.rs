//! How the store treats a record it already holds.
use vstd::prelude::*;

verus! {

/// What writing a record that already exists does.
#[derive(Debug, Clone, Copy, PartialEq, Eq, Structural)]
pub enum InsertBehavior {
    /// Leave the stored record as it is.
    NoOP,
    /// Replace the stored record.
    Overwrite,
}

} // verus!
