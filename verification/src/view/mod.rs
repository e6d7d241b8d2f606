//! Views: geometry, the per-view state, drawing, and the downward context.

pub mod context;
pub mod draw;
pub mod geometry;
pub mod state;

pub use context::{Context, Deferred};
pub use draw::{Buffer, Cell, DrawCtx};
pub use geometry::{Point, Rect};
pub use state::{
    DragMode, EventMask, GrowMode, Options, StateFlag, StateFlags, ViewId, ViewState,
};
