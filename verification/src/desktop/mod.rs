//! Desktop-layer views.

pub mod background;

pub use background::Background;
