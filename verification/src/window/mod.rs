//! Windows: framed, selectable groups of views.

pub mod window;

pub use window::{Child, FrameData, ScrollBarOptions, SelectMode, Window, WindowFlags, WindowPalette};
