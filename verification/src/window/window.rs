//! The window (`TWindow`): a group of child views inside a frame, with its
//! decoration flags, number and title, its standard scroll bars, Tab focus
//! cycling among its selectable children, and its minimum size.
//!
//! The children are held by their view state and id: that is all the
//! window's own logic reads of them.
use vstd::prelude::*;
use crate::command::Command;
use crate::event::{Event, Key};
use crate::view::geometry::{Point, Rect, fits_i32};
use crate::view::state::{
    ViewId, ViewState, GrowMode, Options, StateFlags, StateFlag, bounds_fit, fresh_view_state, with_flag,
};
use crate::view::Context;

verus! {

/// A window's decoration flags (`wf*`).
#[derive(Clone, Copy, Debug, Default, PartialEq, Eq, Structural)]
pub struct WindowFlags {
    /// The window can be moved by dragging its frame (`wfMove`).
    pub movable: bool,
    /// The window can be resized by dragging its corner (`wfGrow`).
    pub grow: bool,
    /// The window shows a close icon (`wfClose`).
    pub close: bool,
    /// The window shows a zoom icon (`wfZoom`).
    pub zoom: bool,
}

/// The colour scheme a window draws in.
#[derive(Clone, Copy, Debug, Default, PartialEq, Eq, Structural)]
pub enum WindowPalette {
    /// The blue scheme (the default).
    #[default]
    Blue,
    /// The cyan scheme.
    Cyan,
    /// The grey scheme dialogs use.
    Gray,
}

/// Where a standard scroll bar goes and whether it takes the keyboard.
#[derive(Clone, Copy, Debug, Default, PartialEq, Eq, Structural)]
pub struct ScrollBarOptions {
    /// On the right edge (else on the bottom edge).
    pub vertical: bool,
    /// The bar post-processes keys, so it handles the arrows even when it
    /// is not the focused view.
    pub handle_keyboard: bool,
}

/// What the window pushes down to its frame: the title, the flags and the
/// number it draws.
#[derive(Clone, Debug, PartialEq, Eq)]
pub struct FrameData {
    /// The title drawn centred on the top edge.
    pub title: Option<String>,
    /// The icons drawn.
    pub flags: WindowFlags,
    /// The number drawn near the top-right corner.
    pub number: Option<u8>,
}

/// A child view: its id and its state.
#[derive(Clone, Copy, Debug, PartialEq, Eq, Structural)]
pub struct Child {
    /// The child's id within the window.
    pub id: ViewId,
    /// The child's state.
    pub state: ViewState,
}

/// The number a frame draws for window number `number`: none for numbers
/// that are not positive, otherwise the number, capped at 255.
pub open spec fn frame_number_of(number: i16) -> Option<u8> {
    if number <= 0 {
        None
    } else if number <= 255 {
        Some(number as u8)
    } else {
        Some(255u8)
    }
}

/// The frame's number for window number `number` (see [`frame_number_of`]).
pub fn number_to_option(number: i16) -> (r: Option<u8>)
    ensures
        r == frame_number_of(number),
{
    if number <= 0 {
        None
    } else if number <= 255 {
        Some(number as u8)
    } else {
        Some(255u8)
    }
}

/// All four decoration flags.
pub open spec fn all_flags() -> WindowFlags {
    WindowFlags { movable: true, grow: true, close: true, zoom: true }
}

/// The state of a fresh window over `bounds`: it casts a shadow, is
/// selectable and comes to the top when selected, and grows with all four
/// edges of its owner, relatively.
pub open spec fn window_state(bounds: Rect) -> ViewState {
    let st = fresh_view_state(bounds);
    ViewState {
        state: StateFlags { shadow: true, ..st.state },
        options: Options { selectable: true, top_select: true, ..st.options },
        grow_mode: GrowMode { lo_x: true, lo_y: true, hi_x: true, hi_y: true, rel: true, fixed: false },
        ..st
    }
}

/// The state of a frame over `extent`: it follows its owner's right and
/// bottom edges.
pub open spec fn frame_state(extent: Rect) -> ViewState {
    let st = fresh_view_state(extent);
    ViewState { grow_mode: GrowMode { hi_x: true, hi_y: true, ..st.grow_mode }, ..st }
}

/// The bounds of a standard scroll bar in a window of size `size`: one
/// column on the right edge between the corners, or one row on the bottom
/// edge leaving two columns at each end.
pub open spec fn scroll_bar_bounds(size: Point, vertical: bool) -> Rect {
    if vertical {
        Rect { a: Point { x: (size.x - 1) as i32, y: 1 }, b: Point { x: size.x, y: (size.y - 1) as i32 } }
    } else {
        Rect { a: Point { x: 2, y: (size.y - 1) as i32 }, b: Point { x: (size.x - 2) as i32, y: size.y } }
    }
}

/// The state of a standard scroll bar over `r`: a vertical one follows its
/// owner's right edge, a horizontal one its bottom edge, both grow with the
/// owner; it post-processes keys when asked to.
pub open spec fn scroll_bar_state(r: Rect, vertical: bool, keyboard: bool) -> ViewState {
    let st = fresh_view_state(r);
    ViewState {
        grow_mode: if vertical {
            GrowMode { lo_x: true, hi_x: true, hi_y: true, ..st.grow_mode }
        } else {
            GrowMode { lo_y: true, hi_x: true, hi_y: true, ..st.grow_mode }
        },
        options: Options { post_process: keyboard, ..st.options },
        ..st
    }
}

/// Can the child take the focus: visible, enabled and selectable?
pub open spec fn eligible(c: Child) -> bool {
    c.state.state.visible && !c.state.state.disabled && c.state.options.selectable
}

/// The position after `i` in tab order among `n` children: forwards goes
/// to the previous position, backwards to the next, both wrapping.
pub open spec fn tab_step(i: int, n: int, forwards: bool) -> int {
    if forwards {
        if i == 0 { n - 1 } else { i - 1 }
    } else {
        if i == n - 1 { 0 } else { i + 1 }
    }
}

/// Searching from position `i` (with at most `fuel` steps left), the first
/// eligible child met before coming back to `start`.
pub open spec fn next_from(children: Seq<Child>, start: int, i: int, forwards: bool, fuel: nat) -> Option<int>
    decreases fuel,
{
    let j = tab_step(i, children.len() as int, forwards);
    if j == start {
        None
    } else if eligible(children[j]) {
        Some(j)
    } else if fuel == 0 {
        None
    } else {
        next_from(children, start, j, forwards, (fuel - 1) as nat)
    }
}

/// A search result is a position other than the start.
pub proof fn lemma_next_from_range(children: Seq<Child>, start: int, i: int, forwards: bool, fuel: nat)
    requires
        0 <= i < children.len(),
    ensures
        next_from(children, start, i, forwards, fuel) matches Some(j) ==> 0 <= j < children.len() && j != start,
    decreases fuel,
{
    let j = tab_step(i, children.len() as int, forwards);
    if j != start && !eligible(children[j]) && fuel > 0 {
        lemma_next_from_range(children, start, j, forwards, (fuel - 1) as nat);
    }
}

/// The ids of the children, in order.
pub open spec fn child_ids(children: Seq<Child>) -> Seq<ViewId> {
    children.map_values(|c: Child| c.id)
}

/// The first position of `id` in `ids`, if any.
pub open spec fn id_pos(ids: Seq<ViewId>, id: ViewId) -> Option<int>
    decreases ids.len(),
{
    if ids.len() == 0 {
        None
    } else if ids[0] == id {
        Some(0)
    } else {
        match id_pos(ids.drop_first(), id) {
            Some(k) => Some(k + 1),
            None => None,
        }
    }
}

/// The position of the first child with id `id`, if any.
pub open spec fn index_of(children: Seq<Child>, id: ViewId) -> Option<int> {
    id_pos(child_ids(children), id)
}

/// The first position of `id` is where it occurs with none before.
pub proof fn lemma_id_pos(ids: Seq<ViewId>, id: ViewId)
    ensures
        match id_pos(ids, id) {
            Some(k) => 0 <= k < ids.len() && ids[k] == id && forall|m: int| 0 <= m < k ==> ids[m] != id,
            None => forall|m: int| 0 <= m < ids.len() ==> ids[m] != id,
        },
    decreases ids.len(),
{
    if ids.len() > 0 && ids[0] != id {
        lemma_id_pos(ids.drop_first(), id);
        match id_pos(ids.drop_first(), id) {
            Some(k) => {
                assert forall|m: int| 0 <= m < k + 1 implies ids[m] != id by {
                    if m > 0 {
                        assert(ids[m] == ids.drop_first()[m - 1]);
                    }
                }
            },
            None => {
                assert forall|m: int| 0 <= m < ids.len() implies ids[m] != id by {
                    if m > 0 {
                        assert(ids[m] == ids.drop_first()[m - 1]);
                    }
                }
            },
        }
    }
}

/// `id` first occurs at `k` when it is there and not before.
pub proof fn lemma_id_pos_at(ids: Seq<ViewId>, id: ViewId, k: int)
    requires
        0 <= k < ids.len(),
        ids[k] == id,
        forall|m: int| 0 <= m < k ==> ids[m] != id,
    ensures
        id_pos(ids, id) == Some(k),
{
    lemma_id_pos(ids, id);
    match id_pos(ids, id) {
        Some(j) => {
            if j < k {
                assert(ids[j] != id);
            } else if j > k {
                assert(ids[k] != id);
            }
        },
        None => {
            assert(ids[k] != id);
        },
    }
}

/// Appending keeps the first positions of ids that are already there.
pub proof fn lemma_id_pos_push(ids: Seq<ViewId>, x: ViewId, id: ViewId)
    requires
        id_pos(ids, id) is Some,
    ensures
        id_pos(ids.push(x), id) == id_pos(ids, id),
{
    lemma_id_pos(ids, id);
    let k = id_pos(ids, id)->0;
    assert forall|m: int| 0 <= m < k implies ids.push(x)[m] != id by {
        assert(ids.push(x)[m] == ids[m]);
    }
    lemma_id_pos_at(ids.push(x), id, k);
}

/// The child found by tab cycling from the current child, if any
/// (`TGroup::findNext`).
pub open spec fn find_next(children: Seq<Child>, current: Option<ViewId>, forwards: bool) -> Option<int> {
    match current {
        Some(id) => match index_of(children, id) {
            Some(c) => next_from(children, c, c, forwards, children.len()),
            None => None,
        },
        None => None,
    }
}

/// Every child with `flag` set to `enable`.
pub open spec fn children_with(children: Seq<Child>, flag: StateFlag, enable: bool) -> Seq<Child> {
    Seq::new(children.len(), |k: int| Child {
        id: children[k].id,
        state: ViewState { state: with_flag(children[k].state.state, flag, enable), ..children[k].state },
    })
}

/// The child at position `k` with `flag` set to `enable`; the others alone.
pub open spec fn child_with(children: Seq<Child>, k: int, flag: StateFlag, enable: bool) -> Seq<Child> {
    children.update(k, Child {
        id: children[k].id,
        state: ViewState { state: with_flag(children[k].state.state, flag, enable), ..children[k].state },
    })
}

/// `x` clamped into `lo..=hi` (`range`), the lower bound winning.
pub open spec fn clamp_range(x: int, lo: int, hi: int) -> int {
    if x < lo { lo } else if x > hi { hi } else { x }
}

/// One edge coordinate after the owner's size changed from `s - d` to `s`
/// (`grow`): moved by `d`, or scaled when the growth is relative.
pub open spec fn grown(i: int, s: int, d: int, rel: bool) -> int {
    if rel {
        trunc_quot(i * s + (s - d) / 2, s - d)
    } else {
        i + d
    }
}

/// Truncating division by a positive divisor.
pub open spec fn trunc_quot(a: int, b: int) -> int {
    if a >= 0 { a / b } else { -((-a) / b) }
}

/// A window (`TWindow`).
pub struct Window {
    state: ViewState,
    children: Vec<Child>,
    current: Option<ViewId>,
    next_id: u64,
    frame_id: ViewId,
    frame: FrameData,
    flags: WindowFlags,
    zoom_rect: Rect,
    number: i16,
    palette: WindowPalette,
    title: Option<String>,
}

impl Window {
    /// The window's own state.
    pub closed spec fn spec_state(&self) -> ViewState {
        self.state
    }

    /// The children, back to front.
    pub closed spec fn spec_children(&self) -> Seq<Child> {
        self.children@
    }

    /// The current (selected) child.
    pub closed spec fn spec_current(&self) -> Option<ViewId> {
        self.current
    }

    /// The frame child's id.
    pub closed spec fn spec_frame_id(&self) -> ViewId {
        self.frame_id
    }

    /// The data pushed down to the frame.
    pub closed spec fn spec_frame(&self) -> (Option<Seq<char>>, WindowFlags, Option<u8>) {
        (
            match self.frame.title {
                Some(t) => Some(t@),
                None => None,
            },
            self.frame.flags,
            self.frame.number,
        )
    }

    /// The decoration flags.
    pub closed spec fn spec_flags(&self) -> WindowFlags {
        self.flags
    }

    /// The bounds to return to when unzoomed.
    pub closed spec fn spec_zoom_rect(&self) -> Rect {
        self.zoom_rect
    }

    /// The window number.
    pub closed spec fn spec_number(&self) -> i16 {
        self.number
    }

    /// The colour scheme.
    pub closed spec fn spec_palette(&self) -> WindowPalette {
        self.palette
    }

    /// The title.
    pub closed spec fn spec_title(&self) -> Option<Seq<char>> {
        match self.title {
            Some(t) => Some(t@),
            None => None,
        }
    }

    /// The ids are unique and below the next one to hand out, and the
    /// current child is one of the children.
    pub closed spec fn wf(&self) -> bool {
        &&& forall|k: int| 0 <= k < self.children@.len() ==> (#[trigger] self.children@[k]).id.0 < self.next_id
        &&& forall|j: int, k: int| 0 <= j < k < self.children@.len() ==> (#[trigger] self.children@[j]).id != (#[trigger] self.children@[k]).id
        &&& self.next_id < u64::MAX
        &&& self.current matches Some(id) ==> index_of(self.children@, id) is Some
    }

    /// The id the next inserted child gets.
    pub closed spec fn spec_next_id(&self) -> nat {
        self.next_id as nat
    }

    /// Another child id can be handed out.
    pub open spec fn has_room(&self) -> bool {
        self.spec_next_id() < u64::MAX - 1
    }

    /// A window over `bounds` with a title and a number
    /// (`TWindow::TWindow`): all decorations, the blue scheme, a shadow,
    /// selectable and top-selecting, growing relatively with its owner, and
    /// a frame over its extent holding its title, flags and number.
    pub fn new(bounds: Rect, title: Option<String>, number: i16) -> (w: Self)
        requires
            bounds_fit(bounds),
        ensures
            w.wf(),
            w.spec_next_id() == 2,
            w.spec_state() == window_state(bounds),
            w.spec_flags() == all_flags(),
            w.spec_zoom_rect() == bounds,
            w.spec_palette() == WindowPalette::Blue,
            w.spec_number() == number,
            w.spec_title() == match title {
                Some(t) => Some(t@),
                None => None,
            },
            w.spec_frame() == (w.spec_title(), all_flags(), frame_number_of(number)),
            w.spec_children() == seq![Child {
                id: w.spec_frame_id(),
                state: ViewState { id: Some(w.spec_frame_id()), ..frame_state(window_state(bounds).spec_extent()) },
            }],
            w.spec_current() is None,
    {
        let mut state = ViewState::new(bounds);
        let flags = WindowFlags { movable: true, grow: true, close: true, zoom: true };
        state.state.shadow = true;
        state.options.selectable = true;
        state.options.top_select = true;
        let mut gm = GrowMode::grow_all();
        gm.rel = true;
        state.grow_mode = gm;
        let zoom_rect = state.get_bounds();
        let extent = state.get_extent();
        let mut fstate = ViewState::new(extent);
        fstate.grow_mode.hi_x = true;
        fstate.grow_mode.hi_y = true;
        let frame_id = ViewId(1);
        let frame_title = match &title {
            Some(t) => Some(t.clone()),
            None => None,
        };
        let frame = FrameData { title: frame_title, flags, number: number_to_option(number) };
        let mut children: Vec<Child> = Vec::new();
        fstate.id = Some(frame_id);
        children.push(Child { id: frame_id, state: fstate });
        Window {
            state,
            children,
            current: None,
            next_id: 2,
            frame_id,
            frame,
            flags,
            zoom_rect,
            number,
            palette: WindowPalette::Blue,
            title,
        }
    }

    /// The frame child's id.
    pub fn frame_id(&self) -> (r: ViewId)
        ensures
            r == self.spec_frame_id(),
    {
        self.frame_id
    }

    /// The decoration flags.
    pub fn flags(&self) -> (r: WindowFlags)
        ensures
            r == self.spec_flags(),
    {
        self.flags
    }

    /// The bounds to return to when unzoomed.
    pub fn zoom_rect(&self) -> (r: Rect)
        ensures
            r == self.spec_zoom_rect(),
    {
        self.zoom_rect
    }

    /// The window number.
    pub fn number(&self) -> (r: i16)
        ensures
            r == self.spec_number(),
    {
        self.number
    }

    /// The colour scheme.
    pub fn palette(&self) -> (r: WindowPalette)
        ensures
            r == self.spec_palette(),
    {
        self.palette
    }

    /// The title (`getTitle`).
    pub fn title(&self) -> (r: Option<&str>)
        ensures
            match r {
                Some(t) => self.spec_title() == Some(t@),
                None => self.spec_title() is None,
            },
    {
        match &self.title {
            Some(t) => Some(t.as_str()),
            None => None,
        }
    }

    /// What the frame was handed.
    pub fn frame(&self) -> (r: &FrameData)
        ensures
            (match r.title {
                Some(t) => Some(t@),
                None => None,
            }, r.flags, r.number) == self.spec_frame(),
    {
        &self.frame
    }

    /// The window's own state.
    pub fn state(&self) -> (r: &ViewState)
        ensures
            *r == self.spec_state(),
    {
        &self.state
    }

    /// The window's own state, for its owner to update.
    pub fn state_mut(&mut self) -> (r: &mut ViewState)
        ensures
            *r == old(self).spec_state(),
            final(self).spec_state() == *final(r),
            final(self).spec_children() == old(self).spec_children(),
            final(self).spec_current() == old(self).spec_current(),
            final(self).spec_next_id() == old(self).spec_next_id(),
            child_ids(final(self).spec_children()) == child_ids(old(self).spec_children()),
            old(self).wf() ==> final(self).wf(),
    {
        &mut self.state
    }

    /// The children, back to front.
    pub fn children(&self) -> (r: &[Child])
        ensures
            r@ == self.spec_children(),
    {
        self.children.as_slice()
    }

    /// The current child.
    pub fn current(&self) -> (r: Option<ViewId>)
        ensures
            r == self.spec_current(),
    {
        self.current
    }

    /// The position of the child with id `id`, if any.
    pub fn index_of(&self, id: ViewId) -> (r: Option<usize>)
        ensures
            match r {
                Some(k) => index_of(self.spec_children(), id) == Some(k as int) && k < self.spec_children().len(),
                None => index_of(self.spec_children(), id) is None,
            },
    {
        let mut k: usize = 0;
        while k < self.children.len()
            invariant
                k <= self.children@.len(),
                forall|m: int| 0 <= m < k ==> self.children@[m].id != id,
            decreases self.children@.len() - k,
        {
            if self.children[k].id == id {
                proof {
                    let ids = child_ids(self.children@);
                    assert forall|m: int| 0 <= m < k implies ids[m] != id by {
                        assert(ids[m] == self.children@[m].id);
                    }
                    lemma_id_pos_at(ids, id, k as int);
                }
                return Some(k);
            }
            k = k + 1;
        }
        proof {
            let ids = child_ids(self.children@);
            lemma_id_pos(ids, id);
            if id_pos(ids, id) is Some {
                let j = id_pos(ids, id)->0;
                assert(self.children@[j].id == ids[j]);
            }
        }
        None
    }

    /// Insert a child in front of the others and return its new id, which
    /// its state records (`TGroup::insert`); the current child does not
    /// change.
    pub fn insert(&mut self, state: ViewState) -> (id: ViewId)
        requires
            old(self).wf(),
            old(self).has_room(),
        ensures
            final(self).wf(),
            final(self).spec_children() == old(self).spec_children().push(Child { id, state: ViewState { id: Some(id), ..state } }),
            index_of(old(self).spec_children(), id) is None,
            index_of(final(self).spec_children(), id) == Some(old(self).spec_children().len() as int),
            forall|x: ViewId| index_of(old(self).spec_children(), x) is Some
                ==> #[trigger] index_of(final(self).spec_children(), x) == index_of(old(self).spec_children(), x),
            id.0 == old(self).spec_next_id(),
            final(self).spec_next_id() == old(self).spec_next_id() + 1,
            final(self).spec_current() == old(self).spec_current(),
            final(self).spec_state() == old(self).spec_state(),
    {
        let id = ViewId(self.next_id);
        let ghost c0 = self.children@;
        proof {
            let ids = child_ids(c0);
            lemma_id_pos(ids, id);
            if id_pos(ids, id) is Some {
                let j = id_pos(ids, id)->0;
                assert(c0[j].id == ids[j]);
            }
        }
        self.next_id = self.next_id + 1;
        let mut state = state;
        state.id = Some(id);
        self.children.push(Child { id, state });
        proof {
            assert(child_ids(self.children@) =~= child_ids(c0).push(id));
            if let Some(cid) = self.current {
                lemma_id_pos_push(child_ids(c0), id, cid);
            }
            assert forall|x: ViewId| index_of(c0, x) is Some
                implies #[trigger] index_of(self.children@, x) == index_of(c0, x) by {
                lemma_id_pos_push(child_ids(c0), id, x);
            }
            let ids = child_ids(self.children@);
            lemma_id_pos(child_ids(c0), id);
            assert forall|m: int| 0 <= m < c0.len() implies ids[m] != id by {
                assert(ids[m] == child_ids(c0)[m]);
            }
            lemma_id_pos_at(ids, id, c0.len() as int);
        }
        id
    }

    /// Insert a standard scroll bar on the right (vertical) or bottom
    /// (horizontal) edge and return its id (`standardScrollBar`).
    pub fn standard_scroll_bar(&mut self, opts: ScrollBarOptions) -> (id: ViewId)
        requires
            old(self).wf(),
            old(self).has_room(),
            fits_i32(old(self).spec_state().size.x - 2) && fits_i32(old(self).spec_state().size.y - 1),
            bounds_fit(scroll_bar_bounds(old(self).spec_state().size, opts.vertical)),
        ensures
            final(self).wf(),
            final(self).spec_children() == old(self).spec_children().push(Child {
                id,
                state: ViewState {
                    id: Some(id),
                    ..scroll_bar_state(scroll_bar_bounds(old(self).spec_state().size, opts.vertical), opts.vertical, opts.handle_keyboard)
                },
            }),
            index_of(final(self).spec_children(), id) == Some(old(self).spec_children().len() as int),
            forall|x: ViewId| index_of(old(self).spec_children(), x) is Some
                ==> #[trigger] index_of(final(self).spec_children(), x) == index_of(old(self).spec_children(), x),
            final(self).spec_next_id() == old(self).spec_next_id() + 1,
            final(self).spec_current() == old(self).spec_current(),
            final(self).spec_state() == old(self).spec_state(),
    {
        let ext = self.state.get_extent();
        let r = if opts.vertical {
            Rect::from_points(Point::new(ext.b.x - 1, ext.a.y + 1), Point::new(ext.b.x, ext.b.y - 1))
        } else {
            Rect::from_points(Point::new(ext.a.x + 2, ext.b.y - 1), Point::new(ext.b.x - 2, ext.b.y))
        };
        let mut sb = ViewState::new(r);
        if opts.vertical {
            sb.grow_mode.lo_x = true;
        } else {
            sb.grow_mode.lo_y = true;
        }
        sb.grow_mode.hi_x = true;
        sb.grow_mode.hi_y = true;
        if opts.handle_keyboard {
            sb.options.post_process = true;
        }
        self.insert(sb)
    }

    /// The size limits (`sizeLimits`): at least 16 by 6, at most the
    /// owner's size.
    pub fn size_limits(&self, owner_size: Point) -> (r: (Point, Point))
        ensures
            r == (Point { x: 16, y: 6 }, owner_size),
    {
        (Point::new(16, 6), owner_size)
    }
}



/// How the current child changes (`selectMode`).
#[derive(Clone, Copy, Debug, PartialEq, Eq, Structural)]
pub enum SelectMode {
    /// Deselect the old child and select the new one.
    Normal,
    /// Select the new child, leaving the old one selected.
    Enter,
    /// Deselect the old child without selecting the new one.
    Leave,
}

/// The children after the current child moves from position `old` to
/// position `new` (`TGroup::setCurrent`): when the group has the focus the
/// old child loses it; unless entering, the old child is deselected; unless
/// leaving, the new child is selected; and when the group has the focus the
/// new child gains it.
pub open spec fn moved_current(children: Seq<Child>, focused: bool, mode: SelectMode, old: Option<int>, new: Option<int>) -> Seq<Child> {
    let c1 = match old {
        Some(o) => if focused { child_with(children, o, StateFlag::Focused, false) } else { children },
        None => children,
    };
    let c2 = match old {
        Some(o) => if mode != SelectMode::Enter { child_with(c1, o, StateFlag::Selected, false) } else { c1 },
        None => c1,
    };
    let c3 = match new {
        Some(n) => if mode != SelectMode::Leave { child_with(c2, n, StateFlag::Selected, true) } else { c2 },
        None => c2,
    };
    match new {
        Some(n) => if focused { child_with(c3, n, StateFlag::Focused, true) } else { c3 },
        None => c3,
    }
}

/// The position of an optional id among the children.
pub open spec fn opt_index(children: Seq<Child>, id: Option<ViewId>) -> Option<int> {
    match id {
        Some(i) => index_of(children, i),
        None => None,
    }
}

/// The window's edges `(a.x, a.y, b.x, b.y)` after its owner, now of size
/// `owner`, changed size by `delta`: each edge that follows the owner moves
/// (or scales).
pub open spec fn grown_edges(st: ViewState, owner: Point, delta: Point) -> (int, int, int, int) {
    let b = st.spec_bounds();
    let gm = st.grow_mode;
    let ax = if gm.lo_x { grown(b.a.x as int, owner.x as int, delta.x as int, gm.rel) } else { b.a.x as int };
    let bx = if gm.hi_x { grown(b.b.x as int, owner.x as int, delta.x as int, gm.rel) } else { b.b.x as int };
    let ay = if gm.lo_y { grown(b.a.y as int, owner.y as int, delta.y as int, gm.rel) } else { b.a.y as int };
    let by = if gm.hi_y { grown(b.b.y as int, owner.y as int, delta.y as int, gm.rel) } else { b.b.y as int };
    (ax, ay, bx, by)
}

/// The window's grown bounds (`calcBounds`), as `(a.x, a.y, b.x, b.y)`:
/// the edges of [`grown_edges`], then the size clamped into the window's
/// size limits (at least 16 by 6, at most the owner's size), the minimum
/// winning.
pub open spec fn calced(st: ViewState, owner: Point, delta: Point) -> (int, int, int, int) {
    let e = grown_edges(st, owner, delta);
    (e.0, e.1, e.0 + clamp_range(e.2 - e.0, 16, owner.x as int), e.1 + clamp_range(e.3 - e.1, 6, owner.y as int))
}

/// The arithmetic of `calc_bounds` is defined and stays within the
/// machine's integers: the owner's old size is positive on every axis that
/// scales, and the resulting corners fit.
pub open spec fn calc_fits(st: ViewState, owner: Point, delta: Point) -> bool {
    let c = calced(st, owner, delta);
    let gm = st.grow_mode;
    &&& st.bounds_representable()
    &&& gm.rel && (gm.lo_x || gm.hi_x) ==> owner.x - delta.x > 0
    &&& gm.rel && (gm.lo_y || gm.hi_y) ==> owner.y - delta.y > 0
    &&& fits_i32(grown_edges(st, owner, delta).2) && fits_i32(grown_edges(st, owner, delta).3)
    &&& fits_i32(c.0) && fits_i32(c.1) && fits_i32(c.2) && fits_i32(c.3)
}

/// One edge after the owner's size changed (see [`grown`]).
fn grow_edge(i: i64, s: i64, d: i64, rel: bool) -> (r: i64)
    requires
        -0x8000_0000 <= i <= 0x7fff_ffff,
        -0x8000_0000 <= s <= 0x7fff_ffff,
        -0x8000_0000 <= d <= 0x7fff_ffff,
        rel ==> s - d > 0,
    ensures
        r == grown(i as int, s as int, d as int, rel),
{
    if rel {
        let m = s - d;
        assert(-0x4000_0000_0000_0000 <= i * s <= 0x4000_0000_0000_0000) by (nonlinear_arith)
            requires -0x8000_0000 <= i <= 0x7fff_ffff, -0x8000_0000 <= s <= 0x7fff_ffff;
        let num = i * s + m / 2;
        num / m
    } else {
        i + d
    }
}

impl Window {
    /// Make the child `p` current (`TGroup::setCurrent`; see
    /// [`moved_current`]); nothing changes when it already is.
    pub fn set_current(&mut self, p: Option<ViewId>, mode: SelectMode, ctx: &mut Context)
        requires
            old(self).wf(),
            p matches Some(id) ==> index_of(old(self).spec_children(), id) is Some,
        ensures
            final(self).wf(),
            final(self).spec_next_id() == old(self).spec_next_id(),
            child_ids(final(self).spec_children()) == child_ids(old(self).spec_children()),
            final(self).spec_current() == p,
            final(self).spec_children() == if old(self).spec_current() == p {
                old(self).spec_children()
            } else {
                moved_current(
                    old(self).spec_children(),
                    old(self).spec_state().state.focused,
                    mode,
                    opt_index(old(self).spec_children(), old(self).spec_current()),
                    opt_index(old(self).spec_children(), p),
                )
            },
            final(self).spec_state() == old(self).spec_state(),
            *final(ctx) == *old(ctx),
    {
        if self.current == p {
            return;
        }
        let focused = self.state.state.focused;
        let old_idx = match self.current {
            Some(id) => self.index_of(id),
            None => None,
        };
        let new_idx = match p {
            Some(id) => self.index_of(id),
            None => None,
        };
        let ghost c0 = self.children@;
        let ghost oi = opt_index(c0, self.current);
        let ghost ni = opt_index(c0, p);
        assert(oi == match old_idx { Some(o) => Some(o as int), None => None::<int> });
        assert(ni == match new_idx { Some(n) => Some(n as int), None => None::<int> });
        if let Some(o) = old_idx {
            if focused {
                self.set_child_flag(o, StateFlag::Focused, false);
            }
            if mode != SelectMode::Enter {
                self.set_child_flag(o, StateFlag::Selected, false);
            }
        }
        let ghost c2 = self.children@;
        assert(c2 == {
            let c1 = match oi {
                Some(o) => if focused { child_with(c0, o, StateFlag::Focused, false) } else { c0 },
                None => c0,
            };
            match oi {
                Some(o) => if mode != SelectMode::Enter { child_with(c1, o, StateFlag::Selected, false) } else { c1 },
                None => c1,
            }
        });
        if let Some(n) = new_idx {
            if mode != SelectMode::Leave {
                self.set_child_flag(n, StateFlag::Selected, true);
            }
            if focused {
                self.set_child_flag(n, StateFlag::Focused, true);
            }
        }
        let ghost c4 = self.children@;
        assert(c4 == {
            let c3 = match ni {
                Some(n) => if mode != SelectMode::Leave { child_with(c2, n, StateFlag::Selected, true) } else { c2 },
                None => c2,
            };
            match ni {
                Some(n) => if focused { child_with(c3, n, StateFlag::Focused, true) } else { c3 },
                None => c3,
            }
        });
        assert(c4 == moved_current(c0, focused, mode, oi, ni));
        self.current = p;
    }

    /// Set `flag` of the child at position `k`.
    fn set_child_flag(&mut self, k: usize, flag: StateFlag, enable: bool)
        requires
            k < old(self).children@.len(),
        ensures
            final(self).children@ == child_with(old(self).children@, k as int, flag, enable),
            child_ids(final(self).children@) == child_ids(old(self).children@),
            old(self).wf() ==> final(self).wf(),
            final(self).state == old(self).state,
            final(self).current == old(self).current,
            final(self).next_id == old(self).next_id,
            final(self).frame_id == old(self).frame_id,
            final(self).frame == old(self).frame,
            final(self).flags == old(self).flags,
            final(self).zoom_rect == old(self).zoom_rect,
            final(self).number == old(self).number,
            final(self).palette == old(self).palette,
            final(self).title == old(self).title,
    {
        let mut c = self.children[k];
        c.state.set_flag(flag, enable);
        self.children.set(k, c);
        assert(child_ids(self.children@) =~= child_ids(old(self).children@));
        assert(forall|m: int| 0 <= m < self.children@.len() ==> #[trigger] self.children@[m].id == old(self).children@[m].id);
    }
}

/// The children after the window's `flag` changed (`TGroup::setState`):
/// an active or dragging change reaches every child, a focus change the
/// current child (at `current`).
pub open spec fn group_flagged(children: Seq<Child>, current: Option<int>, flag: StateFlag, enable: bool) -> Seq<Child> {
    if flag == StateFlag::Active || flag == StateFlag::Dragging {
        children_with(children, flag, enable)
    } else if flag == StateFlag::Focused {
        match current {
            Some(k) => child_with(children, k, flag, enable),
            None => children,
        }
    } else {
        children
    }
}

/// The children after `Window::set_state`: as for a group, and a selection
/// change also activates or deactivates every child (the frame among them).
pub open spec fn window_flagged(children: Seq<Child>, current: Option<int>, flag: StateFlag, enable: bool) -> Seq<Child> {
    if flag == StateFlag::Selected {
        children_with(children, StateFlag::Active, enable)
    } else {
        group_flagged(children, current, flag, enable)
    }
}

/// The window's own flags after `Window::set_state`: the flag, and with a
/// selection change the active flag too.
pub open spec fn window_flags_after(st: StateFlags, flag: StateFlag, enable: bool) -> StateFlags {
    let s1 = with_flag(st, flag, enable);
    if flag == StateFlag::Selected { with_flag(s1, StateFlag::Active, enable) } else { s1 }
}

/// The events `set_state` posts: a focus change of the window is broadcast.
pub open spec fn window_state_events(st: ViewState, flag: StateFlag, enable: bool) -> Seq<Event> {
    if flag == StateFlag::Focused {
        seq![Event::Broadcast {
            command: if enable { Command::ReceivedFocus } else { Command::ReleasedFocus },
            source: st.id,
        }]
    } else {
        Seq::empty()
    }
}

impl Window {
    /// Move the focus to the next selectable child in tab order
    /// (`TGroup::focusNext`): Tab order runs from the front child towards
    /// the back one, `backwards` the other way; nothing changes when no
    /// other child can take the focus.
    pub fn focus_next(&mut self, backwards: bool, ctx: &mut Context)
        requires
            old(self).wf(),
        ensures
            final(self).wf(),
            final(self).spec_next_id() == old(self).spec_next_id(),
            child_ids(final(self).spec_children()) == child_ids(old(self).spec_children()),
            match find_next(old(self).spec_children(), old(self).spec_current(), !backwards) {
                Some(j) => {
                    &&& final(self).spec_current() == Some(old(self).spec_children()[j].id)
                    &&& final(self).spec_children() == moved_current(
                        old(self).spec_children(),
                        old(self).spec_state().state.focused,
                        SelectMode::Normal,
                        opt_index(old(self).spec_children(), old(self).spec_current()),
                        Some(j),
                    )
                },
                None => final(self).spec_current() == old(self).spec_current()
                    && final(self).spec_children() == old(self).spec_children(),
            },
            final(self).spec_state() == old(self).spec_state(),
            *final(ctx) == *old(ctx),
    {
        let ghost c0 = self.children@;
        let found = self.find_next(!backwards);
        if let Some(j) = found {
            let id = self.children[j].id;
            proof {
                let ids = child_ids(c0);
                assert forall|m: int| 0 <= m < j implies ids[m] != id by {
                    assert(ids[m] == c0[m].id);
                    assert(ids[j as int] == c0[j as int].id);
                }
                lemma_id_pos_at(ids, id, j as int);
                let cur = self.current->0;
                lemma_id_pos(ids, cur);
                let start = index_of(c0, cur)->0;
                lemma_next_from_range(c0, start, start, !backwards, c0.len());
                assert(ids[start] == c0[start].id);
                assert(c0[j as int].id != c0[start].id);
            }
            self.set_current(Some(id), SelectMode::Normal, ctx);
        }
    }

    /// The position of the next child that can take the focus in tab
    /// order from the current one (`TGroup::findNext`).
    pub fn find_next(&self, forwards: bool) -> (r: Option<usize>)
        requires
            self.wf(),
        ensures
            match r {
                Some(j) => find_next(self.spec_children(), self.spec_current(), forwards) == Some(j as int)
                    && j < self.spec_children().len(),
                None => find_next(self.spec_children(), self.spec_current(), forwards) is None,
            },
    {
        let cur = match self.current {
            Some(id) => id,
            None => return None,
        };
        let start = match self.index_of(cur) {
            Some(k) => k,
            None => return None,
        };
        let n = self.children.len();
        let ghost cs = self.children@;
        assert(find_next(cs, self.current, forwards) == next_from(cs, start as int, start as int, forwards, n as nat));
        let mut i = start;
        let mut fuel = n;
        loop
            invariant
                cs == self.children@,
                n == cs.len(),
                start < n,
                i < n,
                fuel <= n,
                next_from(cs, start as int, i as int, forwards, fuel as nat) == find_next(cs, self.current, forwards),
            decreases fuel,
        {
            let j = if forwards {
                if i == 0 { n - 1 } else { i - 1 }
            } else {
                if i == n - 1 { 0 } else { i + 1 }
            };
            assert(j as int == tab_step(i as int, n as int, forwards));
            if j == start {
                return None;
            }
            let c = &self.children[j];
            assert(eligible(cs[j as int]) == (c.state.state.visible && !c.state.state.disabled && c.state.options.selectable));
            if c.state.state.visible && !c.state.state.disabled && c.state.options.selectable {
                return Some(j);
            }
            if fuel == 0 {
                return None;
            }
            i = j;
            fuel = fuel - 1;
        }
    }

    /// Handle an event (`TWindow::handleEvent`): Tab moves the focus to the
    /// next selectable child and Shift+Tab to the previous one, and either
    /// is consumed; any other event is left alone.
    pub fn handle_event(&mut self, ev: &mut Event, ctx: &mut Context)
        requires
            old(self).wf(),
        ensures
            final(self).wf(),
            final(self).spec_next_id() == old(self).spec_next_id(),
            child_ids(final(self).spec_children()) == child_ids(old(self).spec_children()),
            final(self).spec_state() == old(self).spec_state(),
            *final(ctx) == *old(ctx),
            match *old(ev) {
                Event::KeyDown(k) if k.key == Key::Tab => {
                    &&& *final(ev) == Event::Nothing
                    &&& match find_next(old(self).spec_children(), old(self).spec_current(), !k.modifiers.shift) {
                        Some(j) => final(self).spec_current() == Some(old(self).spec_children()[j].id)
                            && final(self).spec_children() == moved_current(
                                old(self).spec_children(),
                                old(self).spec_state().state.focused,
                                SelectMode::Normal,
                                opt_index(old(self).spec_children(), old(self).spec_current()),
                                Some(j),
                            ),
                        None => final(self).spec_current() == old(self).spec_current()
                            && final(self).spec_children() == old(self).spec_children(),
                    }
                },
                _ => *final(ev) == *old(ev) && final(self).spec_current() == old(self).spec_current()
                    && final(self).spec_children() == old(self).spec_children(),
            },
    {
        if let Event::KeyDown(k) = *ev {
            if k.key == Key::Tab {
                self.focus_next(k.modifiers.shift, ctx);
                ev.clear();
            }
        }
    }

    /// Change one of the window's state flags (`TWindow::setState`): the
    /// window's own flag changes; an active or dragging change reaches every
    /// child and a focus change the current child; a selection change also
    /// makes the window and every child (its frame among them) active or
    /// passive; a focus change is broadcast.
    pub fn set_state(&mut self, flag: StateFlag, enable: bool, ctx: &mut Context)
        requires
            old(self).wf(),
        ensures
            final(self).wf(),
            final(self).spec_next_id() == old(self).spec_next_id(),
            child_ids(final(self).spec_children()) == child_ids(old(self).spec_children()),
            final(self).spec_state() == (ViewState {
                state: window_flags_after(old(self).spec_state().state, flag, enable),
                ..old(self).spec_state()
            }),
            final(self).spec_children() == window_flagged(
                old(self).spec_children(),
                opt_index(old(self).spec_children(), old(self).spec_current()),
                flag,
                enable,
            ),
            final(self).spec_current() == old(self).spec_current(),
            final(ctx).out@ == old(ctx).out@ + window_state_events(old(self).spec_state(), flag, enable),
            final(ctx).deferred@ == old(ctx).deferred@,
    {
        let ghost c0 = self.children@;
        let ghost cur = opt_index(c0, self.current);
        self.state.set_flag(flag, enable);
        if flag == StateFlag::Focused {
            let source = self.state.id();
            ctx.broadcast(if enable { Command::ReceivedFocus } else { Command::ReleasedFocus }, source);
        }
        assert(ctx.out@ =~= old(ctx).out@ + window_state_events(old(self).spec_state(), flag, enable));
        if flag == StateFlag::Active || flag == StateFlag::Dragging {
            self.set_all_children(flag, enable);
        } else if flag == StateFlag::Focused {
            let k = match self.current {
                Some(id) => self.index_of(id),
                None => None,
            };
            if let Some(k) = k {
                self.set_child_flag(k, flag, enable);
            }
        }
        assert(self.children@ == group_flagged(c0, cur, flag, enable));
        if flag == StateFlag::Selected {
            self.state.set_flag(StateFlag::Active, enable);
            self.set_all_children(StateFlag::Active, enable);
        }
    }

    /// Set `flag` of every child.
    fn set_all_children(&mut self, flag: StateFlag, enable: bool)
        ensures
            final(self).children@ == children_with(old(self).children@, flag, enable),
            child_ids(final(self).children@) == child_ids(old(self).children@),
            old(self).wf() ==> final(self).wf(),
            final(self).state == old(self).state,
            final(self).current == old(self).current,
            final(self).next_id == old(self).next_id,
    {
        let ghost c0 = self.children@;
        let n = self.children.len();
        let mut k: usize = 0;
        while k < n
            invariant
                n == c0.len(),
                self.children@.len() == n,
                k <= n,
                forall|m: int| 0 <= m < k ==> #[trigger] self.children@[m] == children_with(c0, flag, enable)[m],
                forall|m: int| k <= m < n ==> #[trigger] self.children@[m] == c0[m],
                self.state == old(self).state,
                self.current == old(self).current,
                self.next_id == old(self).next_id,
                c0 == old(self).children@,
            decreases n - k,
        {
            let mut c = self.children[k];
            c.state.set_flag(flag, enable);
            self.children.set(k, c);
            k = k + 1;
        }
        assert(self.children@ =~= children_with(c0, flag, enable));
        assert(child_ids(self.children@) =~= child_ids(c0));
        assert(forall|m: int| 0 <= m < self.children@.len() ==> #[trigger] self.children@[m].id == c0[m].id);
    }

    /// The window's bounds after its owner, now of size `owner`, changed
    /// size by `delta` (`TView::calcBounds` with the window's size limits):
    /// see [`calced`].
    pub fn calc_bounds(&self, owner: Point, delta: Point) -> (r: Rect)
        requires
            calc_fits(self.spec_state(), owner, delta),
        ensures
            (r.a.x as int, r.a.y as int, r.b.x as int, r.b.y as int) == calced(self.spec_state(), owner, delta),
    {
        let b = self.state.get_bounds();
        let gm = self.state.grow_mode;
        let sx = owner.x as i64;
        let dx = delta.x as i64;
        let sy = owner.y as i64;
        let dy = delta.y as i64;
        let ax = if gm.lo_x { grow_edge(b.a.x as i64, sx, dx, gm.rel) } else { b.a.x as i64 };
        let bx = if gm.hi_x { grow_edge(b.b.x as i64, sx, dx, gm.rel) } else { b.b.x as i64 };
        let ay = if gm.lo_y { grow_edge(b.a.y as i64, sy, dy, gm.rel) } else { b.a.y as i64 };
        let by = if gm.hi_y { grow_edge(b.b.y as i64, sy, dy, gm.rel) } else { b.b.y as i64 };
        let (min, max) = self.size_limits(owner);
        let w = clamp_i64(bx - ax, min.x as i64, max.x as i64);
        let h = clamp_i64(by - ay, min.y as i64, max.y as i64);
        Rect::from_points(Point::new(ax as i32, ay as i32), Point::new((ax + w) as i32, (ay + h) as i32))
    }
}

/// `x` clamped into `lo..=hi`, the lower bound winning (`range`).
fn clamp_i64(x: i64, lo: i64, hi: i64) -> (r: i64)
    ensures
        r == clamp_range(x as int, lo as int, hi as int),
{
    if x < lo { lo } else if x > hi { hi } else { x }
}

/// Selecting a window makes it and every child (its frame among them)
/// active, and deselecting it makes them all passive, whatever the current
/// child.
pub proof fn law_select_activates_children(flags: StateFlags, children: Seq<Child>, current: Option<int>, enable: bool)
    ensures
        window_flagged(children, current, StateFlag::Selected, enable).len() == children.len(),
        forall|k: int| 0 <= k < children.len() ==>
            (#[trigger] window_flagged(children, current, StateFlag::Selected, enable)[k]).state.state.active == enable,
        window_flags_after(flags, StateFlag::Selected, enable).active == enable,
        window_flags_after(flags, StateFlag::Selected, enable).selected == enable,
{
}

/// Tab cycling only ever moves the focus to another child that can take
/// it: visible, enabled and selectable.
pub proof fn law_tab_target_eligible(children: Seq<Child>, current: Option<ViewId>, forwards: bool)
    ensures
        find_next(children, current, forwards) matches Some(j) ==> {
            &&& 0 <= j < children.len()
            &&& eligible(children[j])
            &&& opt_index(children, current) != Some(j)
        },
{
    if let Some(id) = current {
        lemma_id_pos(child_ids(children), id);
        if let Some(c) = index_of(children, id) {
            lemma_next_from_range(children, c, c, forwards, children.len());
            lemma_next_from_eligible(children, c, c, forwards, children.len());
        }
    }
}

/// A search result is a child that can take the focus.
proof fn lemma_next_from_eligible(children: Seq<Child>, start: int, i: int, forwards: bool, fuel: nat)
    ensures
        next_from(children, start, i, forwards, fuel) matches Some(j) ==> eligible(children[j]),
    decreases fuel,
{
    let j = tab_step(i, children.len() as int, forwards);
    if j != start && !eligible(children[j]) && fuel > 0 {
        lemma_next_from_eligible(children, start, j, forwards, (fuel - 1) as nat);
    }
}

/// When the owner is at least the minimum window size, a window's grown
/// size always lies between the minimum size (16 by 6) and the owner's size.
pub proof fn law_calc_bounds_within_limits(st: ViewState, owner: Point, delta: Point)
    requires
        owner.x >= 16,
        owner.y >= 6,
    ensures
        16 <= calced(st, owner, delta).2 - calced(st, owner, delta).0 <= owner.x,
        6 <= calced(st, owner, delta).3 - calced(st, owner, delta).1 <= owner.y,
{
}

/// Can the child take the focus: visible, enabled and selectable?
pub open spec fn takes_focus(c: Child) -> bool {
    c.state.state.visible && !c.state.state.disabled && c.state.options.selectable
}

/// How many Tab presses from position `c` reach position `k` among `n`
/// children: Tab goes to the child before, Shift+Tab (`forwards` false) to
/// the child after, each wrapping round at the ends.
pub open spec fn tab_distance(c: int, k: int, n: int, forwards: bool) -> int {
    if forwards {
        if k <= c { c - k } else { c - k + n }
    } else {
        if k >= c { k - c } else { k - c + n }
    }
}

/// The position `m` Tab presses from `c`.
spec fn tab_pos(c: int, m: int, n: int, forwards: bool) -> int {
    if forwards {
        if m <= c { c - m } else { c - m + n }
    } else {
        if c + m < n { c + m } else { c + m - n }
    }
}

/// Scanning from `m` steps past the start visits the positions after it in
/// tab order and stops at the first that can take the focus.
proof fn lemma_next_from_scan(children: Seq<Child>, c: int, m: int, forwards: bool, fuel: nat)
    requires
        0 <= c < children.len(),
        0 <= m < children.len(),
        fuel + m >= children.len() - 1,
    ensures
        match next_from(children, c, tab_pos(c, m, children.len() as int, forwards), forwards, fuel) {
            Some(j) => exists|k: int| #![trigger tab_pos(c, k, children.len() as int, forwards)]
                m < k < children.len() && j == tab_pos(c, k, children.len() as int, forwards)
                && takes_focus(children[j])
                && forall|l: int| m < l < k ==> !takes_focus(#[trigger] children[tab_pos(c, l, children.len() as int, forwards)]),
            None => forall|l: int| m < l < children.len() ==> !takes_focus(#[trigger] children[tab_pos(c, l, children.len() as int, forwards)]),
        },
    decreases fuel,
{
    let n = children.len() as int;
    let i = tab_pos(c, m, n, forwards);
    let j = tab_step(i, n, forwards);
    if m + 1 < n {
        assert(j == tab_pos(c, m + 1, n, forwards));
        assert(j != c);
        if takes_focus(children[j]) {
            assert(eligible(children[j]));
        } else {
            assert(!eligible(children[j]));
            lemma_next_from_scan(children, c, m + 1, forwards, (fuel - 1) as nat);
            match next_from(children, c, j, forwards, (fuel - 1) as nat) {
                Some(r) => {
                    let k = choose|k: int| #![trigger tab_pos(c, k, n, forwards)]
                        m + 1 < k < n && r == tab_pos(c, k, n, forwards) && takes_focus(children[r])
                        && forall|l: int| m + 1 < l < k ==> !takes_focus(#[trigger] children[tab_pos(c, l, n, forwards)]);
                    assert forall|l: int| m < l < k implies !takes_focus(#[trigger] children[tab_pos(c, l, n, forwards)]) by {
                        if l == m + 1 {
                        }
                    }
                },
                None => {
                    assert forall|l: int| m < l < n implies !takes_focus(#[trigger] children[tab_pos(c, l, n, forwards)]) by {
                        if l == m + 1 {
                        }
                    }
                },
            }
        }
    } else {
        assert(j == c);
    }
}

/// Tab and Shift+Tab move to the nearest child in tab order that can take
/// the focus, wrapping round at the ends: the answer is such a child other
/// than the current one, no child between them in tab order can take the
/// focus, and there is an answer exactly when some other child can take the
/// focus.
pub proof fn law_tab_finds_nearest(children: Seq<Child>, id: ViewId, c: int, forwards: bool)
    requires
        index_of(children, id) == Some(c),
    ensures
        (exists|k: int| 0 <= k < children.len() && k != c && #[trigger] takes_focus(children[k]))
            <==> find_next(children, Some(id), forwards) is Some,
        find_next(children, Some(id), forwards) matches Some(j) ==> {
            &&& 0 <= j < children.len()
            &&& j != c
            &&& takes_focus(children[j])
            &&& forall|k: int| 0 <= k < children.len() && 0 < tab_distance(c, k, children.len() as int, forwards)
                < tab_distance(c, j, children.len() as int, forwards) ==> !#[trigger] takes_focus(children[k])
        },
{
    let n = children.len() as int;
    lemma_id_pos(child_ids(children), id);
    assert(0 <= c < n);
    assert(tab_pos(c, 0, n, forwards) == c);
    lemma_next_from_scan(children, c, 0, forwards, n as nat);
    // Every position other than `c` is `tab_distance` presses away.
    assert forall|k: int| 0 <= k < n && k != c implies
        0 < tab_distance(c, k, n, forwards) < n && #[trigger] tab_pos(c, tab_distance(c, k, n, forwards), n, forwards) == k by {
    }
    match find_next(children, Some(id), forwards) {
        Some(j) => {
            let k = choose|k: int| #![trigger tab_pos(c, k, n, forwards)]
                0 < k < n && j == tab_pos(c, k, n, forwards) && takes_focus(children[j])
                && forall|l: int| 0 < l < k ==> !takes_focus(#[trigger] children[tab_pos(c, l, n, forwards)]);
            assert(tab_distance(c, j, n, forwards) == k);
            assert forall|q: int| 0 <= q < n && 0 < tab_distance(c, q, n, forwards) < tab_distance(c, j, n, forwards)
                implies !#[trigger] takes_focus(children[q]) by {
                let l = tab_distance(c, q, n, forwards);
                assert(tab_pos(c, l, n, forwards) == q);
            }
        },
        None => {
            assert forall|q: int| 0 <= q < n && q != c implies !#[trigger] takes_focus(children[q]) by {
                let l = tab_distance(c, q, n, forwards);
                assert(tab_pos(c, l, n, forwards) == q);
            }
        },
    }
}

} // verus!
