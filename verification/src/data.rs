//! The typed value a dialog control hands over when its dialog gathers its
//! data (`getData`/`setData`).
use vstd::prelude::*;

verus! {

/// The unit of dialog data transfer.
#[derive(Clone, Debug, PartialEq)]
pub enum FieldValue {
    /// A text field's contents.
    Text(String),
    /// An integer value (a scroll bar's value, a list's focused item).
    Int(i32),
}

} // verus!
