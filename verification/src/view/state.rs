//! The data members every view carries (`TView`'s fields).
use vstd::prelude::*;
use crate::view::geometry::{Point, Rect, fits_i32};

verus! {

/// A view's identity within its owner.
#[derive(Clone, Copy, Debug, PartialEq, Eq, Hash, Structural)]
pub struct ViewId(pub u64);

/// How a view moves/resizes when its owner resizes (`gf*`).
#[derive(Clone, Copy, Debug, Default, PartialEq, Eq, Hash, Structural)]
pub struct GrowMode {
    pub lo_x: bool,
    pub lo_y: bool,
    pub hi_x: bool,
    pub hi_y: bool,
    pub rel: bool,
    pub fixed: bool,
}

impl GrowMode {
    /// `gfGrowAll`: all four edges follow the owner.
    pub fn grow_all() -> (g: Self)
        ensures
            g == (GrowMode { lo_x: true, lo_y: true, hi_x: true, hi_y: true, rel: false, fixed: false }),
    {
        GrowMode { lo_x: true, lo_y: true, hi_x: true, hi_y: true, rel: false, fixed: false }
    }
}

/// Drag limits (`dm*`).
#[derive(Clone, Copy, Debug, Default, PartialEq, Eq, Hash, Structural)]
pub struct DragMode {
    pub limit_lo_x: bool,
    pub limit_lo_y: bool,
    pub limit_hi_x: bool,
    pub limit_hi_y: bool,
}

/// View options (`of*`).
#[derive(Clone, Copy, Debug, Default, PartialEq, Eq, Hash, Structural)]
pub struct Options {
    pub selectable: bool,
    pub top_select: bool,
    pub first_click: bool,
    pub framed: bool,
    pub pre_process: bool,
    pub post_process: bool,
    pub centered: bool,
    pub validate: bool,
}

/// View state flags (`sf*`).
#[derive(Clone, Copy, Debug, Default, PartialEq, Eq, Hash, Structural)]
pub struct StateFlags {
    pub visible: bool,
    pub cursor_vis: bool,
    pub cursor_ins: bool,
    pub shadow: bool,
    pub active: bool,
    pub selected: bool,
    pub focused: bool,
    pub dragging: bool,
    pub disabled: bool,
    pub modal: bool,
    pub exposed: bool,
}

/// One state flag.
#[derive(Clone, Copy, Debug, PartialEq, Eq, Hash, Structural)]
pub enum StateFlag {
    Visible,
    CursorVis,
    CursorIns,
    Shadow,
    Active,
    Selected,
    Focused,
    Dragging,
    Disabled,
    Modal,
    Exposed,
}

/// The event classes a view opts into beyond the defaults.
#[derive(Clone, Copy, Debug, Default, PartialEq, Eq, Hash, Structural)]
pub struct EventMask {
    pub mouse_move: bool,
    pub mouse_auto: bool,
    pub broadcast: bool,
}

/// `flags` with `flag` set to `enable`.
pub open spec fn with_flag(flags: StateFlags, flag: StateFlag, enable: bool) -> StateFlags {
    match flag {
        StateFlag::Visible => StateFlags { visible: enable, ..flags },
        StateFlag::CursorVis => StateFlags { cursor_vis: enable, ..flags },
        StateFlag::CursorIns => StateFlags { cursor_ins: enable, ..flags },
        StateFlag::Shadow => StateFlags { shadow: enable, ..flags },
        StateFlag::Active => StateFlags { active: enable, ..flags },
        StateFlag::Selected => StateFlags { selected: enable, ..flags },
        StateFlag::Focused => StateFlags { focused: enable, ..flags },
        StateFlag::Dragging => StateFlags { dragging: enable, ..flags },
        StateFlag::Disabled => StateFlags { disabled: enable, ..flags },
        StateFlag::Modal => StateFlags { modal: enable, ..flags },
        StateFlag::Exposed => StateFlags { exposed: enable, ..flags },
    }
}

/// `flags` with `flag` set to `enable`.
pub fn flags_with(flags: StateFlags, flag: StateFlag, enable: bool) -> (r: StateFlags)
    ensures
        r == with_flag(flags, flag, enable),
{
    match flag {
        StateFlag::Visible => StateFlags { visible: enable, ..flags },
        StateFlag::CursorVis => StateFlags { cursor_vis: enable, ..flags },
        StateFlag::CursorIns => StateFlags { cursor_ins: enable, ..flags },
        StateFlag::Shadow => StateFlags { shadow: enable, ..flags },
        StateFlag::Active => StateFlags { active: enable, ..flags },
        StateFlag::Selected => StateFlags { selected: enable, ..flags },
        StateFlag::Focused => StateFlags { focused: enable, ..flags },
        StateFlag::Dragging => StateFlags { dragging: enable, ..flags },
        StateFlag::Disabled => StateFlags { disabled: enable, ..flags },
        StateFlag::Modal => StateFlags { modal: enable, ..flags },
        StateFlag::Exposed => StateFlags { exposed: enable, ..flags },
    }
}

/// Does `bounds` have a size that fits `i32`?
pub open spec fn bounds_fit(bounds: Rect) -> bool {
    fits_i32(bounds.b.x - bounds.a.x) && fits_i32(bounds.b.y - bounds.a.y)
}

/// The data members every view carries.
#[derive(Clone, Copy, Debug, PartialEq, Eq, Structural)]
pub struct ViewState {
    /// Top-left corner in the owner's coordinates.
    pub origin: Point,
    /// Width and height.
    pub size: Point,
    /// Cursor position, view-local.
    pub cursor: Point,
    pub grow_mode: GrowMode,
    pub drag_mode: DragMode,
    pub options: Options,
    pub state: StateFlags,
    pub event_mask: EventMask,
    /// The view's id once inserted into an owner.
    pub id: Option<ViewId>,
}

/// The state of a freshly constructed view over `bounds`: visible, limited
/// to its owner's top edge when dragged, nothing else set.
pub open spec fn fresh_view_state(bounds: Rect) -> ViewState {
    ViewState {
        origin: bounds.a,
        size: Point { x: (bounds.b.x - bounds.a.x) as i32, y: (bounds.b.y - bounds.a.y) as i32 },
        cursor: Point { x: 0, y: 0 },
        grow_mode: GrowMode { lo_x: false, lo_y: false, hi_x: false, hi_y: false, rel: false, fixed: false },
        drag_mode: DragMode { limit_lo_x: false, limit_lo_y: true, limit_hi_x: false, limit_hi_y: false },
        options: Options {
            selectable: false,
            top_select: false,
            first_click: false,
            framed: false,
            pre_process: false,
            post_process: false,
            centered: false,
            validate: false,
        },
        state: StateFlags {
            visible: true,
            cursor_vis: false,
            cursor_ins: false,
            shadow: false,
            active: false,
            selected: false,
            focused: false,
            dragging: false,
            disabled: false,
            modal: false,
            exposed: false,
        },
        event_mask: EventMask { mouse_move: false, mouse_auto: false, broadcast: false },
        id: None,
    }
}

impl ViewState {
    /// `TView::TView(bounds)`: a visible view over `bounds`.
    pub fn new(bounds: Rect) -> (st: Self)
        requires
            bounds_fit(bounds),
        ensures
            st == fresh_view_state(bounds),
    {
        ViewState {
            origin: bounds.a,
            size: Point { x: bounds.b.x - bounds.a.x, y: bounds.b.y - bounds.a.y },
            cursor: Point { x: 0, y: 0 },
            grow_mode: GrowMode { lo_x: false, lo_y: false, hi_x: false, hi_y: false, rel: false, fixed: false },
            drag_mode: DragMode { limit_lo_x: false, limit_lo_y: true, limit_hi_x: false, limit_hi_y: false },
            options: Options {
                selectable: false,
                top_select: false,
                first_click: false,
                framed: false,
                pre_process: false,
                post_process: false,
                centered: false,
                validate: false,
            },
            state: StateFlags {
                visible: true,
                cursor_vis: false,
                cursor_ins: false,
                shadow: false,
                active: false,
                selected: false,
                focused: false,
                dragging: false,
                disabled: false,
                modal: false,
                exposed: false,
            },
            event_mask: EventMask { mouse_move: false, mouse_auto: false, broadcast: false },
            id: None,
        }
    }

    /// Do the view's far corners fit `i32`?
    pub open spec fn bounds_representable(&self) -> bool {
        fits_i32(self.origin.x + self.size.x) && fits_i32(self.origin.y + self.size.y)
    }

    /// The view's bounds in its owner's coordinates.
    pub open spec fn spec_bounds(&self) -> Rect {
        Rect {
            a: self.origin,
            b: Point { x: (self.origin.x + self.size.x) as i32, y: (self.origin.y + self.size.y) as i32 },
        }
    }

    /// The view's extent: its bounds moved to the origin.
    pub open spec fn spec_extent(&self) -> Rect {
        Rect { a: Point { x: 0, y: 0 }, b: self.size }
    }

    /// `getBounds`.
    pub fn get_bounds(&self) -> (r: Rect)
        requires
            self.bounds_representable(),
        ensures
            r == self.spec_bounds(),
    {
        Rect {
            a: self.origin,
            b: Point { x: self.origin.x + self.size.x, y: self.origin.y + self.size.y },
        }
    }

    /// `getExtent`.
    pub fn get_extent(&self) -> (r: Rect)
        ensures
            r == self.spec_extent(),
    {
        Rect { a: Point { x: 0, y: 0 }, b: self.size }
    }

    /// Set or clear one state flag.
    pub fn set_flag(&mut self, flag: StateFlag, enable: bool)
        ensures
            *final(self) == (ViewState { state: with_flag(old(self).state, flag, enable), ..*old(self) }),
    {
        self.state = flags_with(self.state, flag, enable);
    }

    /// `showCursor`.
    pub fn show_cursor(&mut self)
        ensures
            *final(self) == (ViewState { state: StateFlags { cursor_vis: true, ..old(self).state }, ..*old(self) }),
    {
        self.state.cursor_vis = true;
    }

    /// `setCursor(x, y)`.
    pub fn set_cursor(&mut self, x: i32, y: i32)
        ensures
            *final(self) == (ViewState { cursor: Point { x, y }, ..*old(self) }),
    {
        self.cursor = Point { x, y };
    }

    /// The view's id, once inserted.
    pub fn id(&self) -> (r: Option<ViewId>)
        ensures
            r == self.id,
    {
        self.id
    }
}

} // verus!
