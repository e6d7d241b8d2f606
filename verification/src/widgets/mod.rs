//! List widgets.

pub mod list_viewer;
pub mod list_box;
pub mod type_search;
