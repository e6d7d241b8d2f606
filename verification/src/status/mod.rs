//! The status line at the bottom of the screen and the definitions it
//! presents.

pub mod defs;
pub mod status_line;

pub use defs::{HelpCtx, StatusDef, StatusItem, StatusRange};
pub use status_line::{StatusColors, StatusLine};
