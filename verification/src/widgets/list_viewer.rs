//! The list-viewer base: `range` items laid out column-major in `num_cols`
//! columns, a focused item, a `top_item` scroll offset, and two sibling
//! scroll bars reached through deferred requests.
//!
//! The shared navigation logic works on [`ListViewerState`]; a concrete list
//! widget embeds one and supplies its item texts through [`ListViewer`].
use vstd::prelude::*;
use crate::command::Command;
use crate::event::{Event, Key, KeyEvent, MouseEvent, ctrl_to_arrow, spec_ctrl_to_arrow};
use crate::view::geometry::{Point, Rect, fits_i32};
use crate::view::state::{ViewState, StateFlag, bounds_fit, fresh_view_state, with_flag};
use crate::view::{Context, Deferred, ViewId};
use crate::view::draw::{DrawCtx, DrawOp, Frame, apply_ops, lemma_apply_ops_append, lemma_apply_single, put_cell, put_text, skipped};
use crate::theme::{Role, Theme};

verus! {

/// Rust's truncating remainder (`a % b` on signed integers).
pub open spec fn trunc_rem(a: int, b: int) -> int {
    if a >= 0 { a % b } else { -((-a) % b) }
}

/// Rust's truncating division (`a / b` on signed integers).
pub open spec fn trunc_div(a: int, b: int) -> int {
    if a >= 0 { a / b } else { -((-a) / b) }
}

/// The shared state of every list viewer.
#[derive(Clone, Copy, Debug, PartialEq, Eq, Structural)]
pub struct ListViewerState {
    /// View state (geometry, flags, ...).
    pub state: ViewState,
    /// The number of columns the items are laid out in (at least 1).
    pub num_cols: i32,
    /// The item drawn at the top-left cell.
    pub top_item: i32,
    /// The focused (cursor) item.
    pub focused: i32,
    /// The number of items.
    pub range: i32,
    /// The horizontal scroll bar's value: how many leading columns of each
    /// item's text are skipped.
    pub indent: i32,
    /// The horizontal scroll bar, if any.
    pub h_scroll_bar: Option<ViewId>,
    /// The vertical scroll bar, if any.
    pub v_scroll_bar: Option<ViewId>,
}

/// A freshly constructed list viewer: selectable, first-click, nothing
/// focused or scrolled, no items; `num_cols` below 1 is clamped to 1.
pub open spec fn fresh_list_viewer(bounds: Rect, num_cols: i32, h: Option<ViewId>, v: Option<ViewId>) -> ListViewerState {
    let st = fresh_view_state(bounds);
    ListViewerState {
        state: ViewState {
            options: crate::view::state::Options { first_click: true, selectable: true, ..st.options },
            ..st
        },
        num_cols: if num_cols >= 1 { num_cols } else { 1 },
        top_item: 0,
        focused: 0,
        range: 0,
        indent: 0,
        h_scroll_bar: h,
        v_scroll_bar: v,
    }
}

impl ListViewerState {
    /// `TListViewer::TListViewer`: selectable, first-click, everything zeroed.
    pub fn new(bounds: Rect, num_cols: i32, h_scroll_bar: Option<ViewId>, v_scroll_bar: Option<ViewId>) -> (lv: Self)
        requires
            bounds_fit(bounds),
        ensures
            lv == fresh_list_viewer(bounds, num_cols, h_scroll_bar, v_scroll_bar),
    {
        let num_cols = if num_cols >= 1 { num_cols } else { 1 };
        let mut state = ViewState::new(bounds);
        state.options.first_click = true;
        state.options.selectable = true;
        ListViewerState {
            state,
            num_cols,
            top_item: 0,
            focused: 0,
            range: 0,
            indent: 0,
            h_scroll_bar,
            v_scroll_bar,
        }
    }
}

// ---------------------------------------------------------------------------
// focus / range
// ---------------------------------------------------------------------------

/// `item` clamped into `0..range` (only the upper end when `range > 0`).
pub open spec fn clamp_item(item: int, range: int) -> int {
    if item < 0 {
        0
    } else if item >= range && range > 0 {
        range - 1
    } else {
        item
    }
}

/// The `top_item` that brings `item` into view.
pub open spec fn scrolled_top(top: int, item: int, size_y: int, num_cols: int) -> int {
    if size_y > 0 {
        if item < top {
            if num_cols == 1 { item } else { item - trunc_rem(item, size_y) }
        } else if item >= top + size_y * num_cols {
            if num_cols == 1 {
                item - size_y + 1
            } else {
                item - trunc_rem(item, size_y) - size_y * (num_cols - 1)
            }
        } else {
            top
        }
    } else {
        top
    }
}

/// The arithmetic of focusing `item` stays within `i32`.
pub open spec fn focus_item_fits(lv: ListViewerState, item: int) -> bool {
    let sy = lv.state.size.y as int;
    let nc = lv.num_cols as int;
    let top = lv.top_item as int;
    sy > 0 ==> {
        if item < top {
            nc != 1 ==> fits_i32(item - trunc_rem(item, sy))
        } else {
            &&& fits_i32(sy * nc)
            &&& fits_i32(top + sy * nc)
            &&& item >= top + sy * nc ==> {
                if nc == 1 {
                    fits_i32(item - sy) && fits_i32(item - sy + 1)
                } else {
                    &&& fits_i32(item - trunc_rem(item, sy))
                    &&& fits_i32(nc - 1)
                    &&& fits_i32(sy * (nc - 1))
                    &&& fits_i32(item - trunc_rem(item, sy) - sy * (nc - 1))
                }
            }
        }
    }
}

/// Does `v` fit an `i32`?
fn fits32(v: i64) -> (r: bool)
    ensures
        r == fits_i32(v as int),
{
    -0x8000_0000 <= v && v <= 0x7fff_ffff
}

/// Does the arithmetic of focusing `item` stay within `i32` (see
/// [`focus_item_fits`])?
pub fn focus_item_fits_check(lv: &ListViewerState, item: i32) -> (r: bool)
    ensures
        r == focus_item_fits(*lv, item as int),
{
    let sy = lv.state.size.y as i64;
    let nc = lv.num_cols as i64;
    let top = lv.top_item as i64;
    let it = item as i64;
    if sy <= 0 {
        return true;
    }
    assert(-0x4000_0000_0000_0000 <= sy * nc <= 0x4000_0000_0000_0000) by (nonlinear_arith)
        requires
            0 < sy <= 0x7fff_ffff,
            -0x8000_0000 <= nc <= 0x7fff_ffff;
    let rem = it % sy;
    assert(rem == trunc_rem(it as int, sy as int));
    if it < top {
        return nc == 1 || fits32(it - rem);
    }
    let span = sy * nc;
    if !fits32(span) || !fits32(top + span) {
        return false;
    }
    if it < top + span {
        return true;
    }
    if nc == 1 {
        return fits32(it - sy) && fits32(it - sy + 1);
    }
    if !fits32(it - rem) || !fits32(nc - 1) {
        return false;
    }
    assert(-0x4000_0000_0000_0000 <= sy * (nc - 1) <= 0x4000_0000_0000_0000) by (nonlinear_arith)
        requires
            0 < sy <= 0x7fff_ffff,
            -0x8000_0000 <= nc - 1 <= 0x7fff_ffff;
    let span1 = sy * (nc - 1);
    fits32(span1) && fits32(it - rem - span1)
}

/// The state after focusing `item`.
pub open spec fn focused_state(lv: ListViewerState, item: int) -> ListViewerState {
    ListViewerState {
        focused: item as i32,
        top_item: scrolled_top(lv.top_item as int, item, lv.state.size.y as int, lv.num_cols as int) as i32,
        ..lv
    }
}

/// The requests focusing `item` defers: the vertical bar's value follows the
/// focus.
pub open spec fn focus_requests(lv: ListViewerState, item: int) -> Seq<Deferred> {
    match lv.v_scroll_bar {
        Some(v) => seq![Deferred::ScrollBarSetParams {
            id: v,
            value: Some(item as i32),
            min: None,
            max: None,
            page_step: None,
            arrow_step: None,
        }],
        None => Seq::empty(),
    }
}

/// `TListViewer::focusItem`: focus `item`, push it to the vertical bar, and
/// scroll so that it is visible.
pub fn focus_item(lv: &mut ListViewerState, item: i32, ctx: &mut Context)
    requires
        focus_item_fits(*old(lv), item as int),
    ensures
        *final(lv) == focused_state(*old(lv), item as int),
        final(ctx).deferred@ == old(ctx).deferred@ + focus_requests(*old(lv), item as int),
        final(ctx).out@ == old(ctx).out@,
{
    let ghost d0 = ctx.deferred@;
    lv.focused = item;
    if let Some(v) = lv.v_scroll_bar {
        ctx.request_scroll_bar_params(v, Some(item), None, None, None, None);
    }
    assert(ctx.deferred@ =~= d0 + focus_requests(*old(lv), item as int));
    let size_y = lv.state.size.y;
    let num_cols = lv.num_cols;
    let top_item = lv.top_item;
    if size_y > 0 {
        if item < top_item {
            lv.top_item = if num_cols == 1 { item } else { item - item % size_y };
        } else if item >= top_item + size_y * num_cols {
            lv.top_item = if num_cols == 1 {
                item - size_y + 1
            } else {
                item - item % size_y - (size_y * (num_cols - 1))
            };
        }
    }
}

/// The arithmetic of `focus_item_num(item)` stays within `i32`.
pub open spec fn focus_item_num_fits(lv: ListViewerState, item: int) -> bool {
    &&& (item >= lv.range && lv.range > 0 ==> item >= 0)
    &&& lv.range != 0 ==> focus_item_fits(lv, clamp_item(item, lv.range as int))
}

/// The state after `focus_item_num(item)`.
pub open spec fn focus_num_state(lv: ListViewerState, item: int) -> ListViewerState {
    if lv.range != 0 {
        focused_state(lv, clamp_item(item, lv.range as int))
    } else {
        lv
    }
}

/// The requests `focus_item_num(item)` defers.
pub open spec fn focus_num_requests(lv: ListViewerState, item: int) -> Seq<Deferred> {
    if lv.range != 0 {
        focus_requests(lv, clamp_item(item, lv.range as int))
    } else {
        Seq::empty()
    }
}

/// `TListViewer::focusItemNum`: clamp `item` into the list, then focus it
/// (only when the list is non-empty).
pub fn focus_item_num(lv: &mut ListViewerState, item: i32, ctx: &mut Context)
    requires
        focus_item_num_fits(*old(lv), item as int),
    ensures
        *final(lv) == focus_num_state(*old(lv), item as int),
        final(ctx).deferred@ == old(ctx).deferred@ + focus_num_requests(*old(lv), item as int),
        final(ctx).out@ == old(ctx).out@,
{
    let mut target = item;
    if target < 0 {
        target = 0;
    } else if target >= lv.range && lv.range > 0 {
        target = lv.range - 1;
    }
    if lv.range != 0 {
        focus_item(lv, target, ctx);
    } else {
        assert(ctx.deferred@ =~= old(ctx).deferred@ + focus_num_requests(*old(lv), item as int));
    }
}

/// The state after `set_range(a_range)`: the focus resets when it falls off
/// the end.
pub open spec fn ranged_state(lv: ListViewerState, a_range: int) -> ListViewerState {
    ListViewerState {
        range: a_range as i32,
        focused: if lv.focused >= a_range { 0 } else { lv.focused },
        ..lv
    }
}

/// The requests `set_range(a_range)` defers: the vertical bar's value and
/// bounds.
pub open spec fn range_requests(lv: ListViewerState, a_range: int) -> Seq<Deferred> {
    match lv.v_scroll_bar {
        Some(v) => seq![Deferred::ScrollBarSetParams {
            id: v,
            value: Some(ranged_state(lv, a_range).focused),
            min: Some(0),
            max: Some((a_range - 1) as i32),
            page_step: None,
            arrow_step: None,
        }],
        None => Seq::empty(),
    }
}

/// `TListViewer::setRange`: set the number of items, resetting the focus if
/// it now falls past the end, and republish the vertical bar's range.
pub fn set_range(lv: &mut ListViewerState, a_range: i32, ctx: &mut Context)
    requires
        old(lv).v_scroll_bar is Some ==> a_range > i32::MIN,
    ensures
        *final(lv) == ranged_state(*old(lv), a_range as int),
        final(ctx).deferred@ == old(ctx).deferred@ + range_requests(*old(lv), a_range as int),
        final(ctx).out@ == old(ctx).out@,
{
    lv.range = a_range;
    if lv.focused >= a_range {
        lv.focused = 0;
    }
    let focused = lv.focused;
    if let Some(v) = lv.v_scroll_bar {
        ctx.request_scroll_bar_params(v, Some(focused), Some(0), Some(a_range - 1), None, None);
    }
    assert(ctx.deferred@ =~= old(ctx).deferred@ + range_requests(*old(lv), a_range as int));
}

/// The scroll-bar read-sync: the horizontal value becomes the indent, the
/// vertical value is focused via `focus_item_num`.
pub fn apply_scroll(lv: &mut ListViewerState, h: Option<i32>, v: Option<i32>, ctx: &mut Context)
    requires
        v matches Some(vv) ==> focus_item_num_fits(*old(lv), vv as int),
    ensures
        ({
            let lv1 = match h {
                Some(hv) => ListViewerState { indent: hv, ..*old(lv) },
                None => *old(lv),
            };
            &&& *final(lv) == match v {
                Some(vv) => focus_num_state(lv1, vv as int),
                None => lv1,
            }
            &&& final(ctx).deferred@ == old(ctx).deferred@ + match v {
                Some(vv) => focus_num_requests(lv1, vv as int),
                None => Seq::empty(),
            }
        }),
        final(ctx).out@ == old(ctx).out@,
{
    if let Some(hv) = h {
        lv.indent = hv;
    }
    if let Some(vv) = v {
        focus_item_num(lv, vv, ctx);
    } else {
        assert(ctx.deferred@ =~= old(ctx).deferred@ + Seq::<Deferred>::empty());
    }
}

/// The page/arrow step updates of the constructor: the vertical bar pages by
/// `size.y - 1` (one column) or `size.y * num_cols` and steps by 1 or
/// `size.y`; the horizontal bar pages by a column width and steps by 1.
pub open spec fn step_requests(lv: ListViewerState) -> Seq<Deferred> {
    let sy = lv.state.size.y as int;
    let sx = lv.state.size.x as int;
    let nc = lv.num_cols as int;
    let vreq = match lv.v_scroll_bar {
        Some(v) => seq![Deferred::ScrollBarSetParams {
            id: v,
            value: None,
            min: None,
            max: None,
            page_step: Some((if nc == 1 { sy - 1 } else { sy * nc }) as i32),
            arrow_step: Some((if nc == 1 { 1 } else { sy }) as i32),
        }],
        None => Seq::empty(),
    };
    let hreq = match lv.h_scroll_bar {
        Some(h) => seq![Deferred::ScrollBarSetParams {
            id: h,
            value: None,
            min: None,
            max: None,
            page_step: Some(trunc_div(sx, nc) as i32),
            arrow_step: Some(1),
        }],
        None => Seq::empty(),
    };
    vreq + hreq
}

/// The arithmetic of `update_steps` stays within `i32`.
pub open spec fn steps_fit(lv: ListViewerState) -> bool {
    &&& lv.v_scroll_bar is Some ==> (if lv.num_cols == 1 {
        fits_i32(lv.state.size.y - 1)
    } else {
        fits_i32(lv.state.size.y * lv.num_cols)
    })
    &&& lv.h_scroll_bar is Some ==> lv.num_cols >= 1
}

/// The constructor's `setStep` calls, published once the bars exist.
pub fn update_steps(lv: &ListViewerState, ctx: &mut Context)
    requires
        steps_fit(*lv),
    ensures
        final(ctx).deferred@ == old(ctx).deferred@ + step_requests(*lv),
        final(ctx).out@ == old(ctx).out@,
{
    let size = lv.state.size;
    let num_cols = lv.num_cols;
    if let Some(v) = lv.v_scroll_bar {
        let (pg_step, ar_step) = if num_cols == 1 {
            (size.y - 1, 1)
        } else {
            (size.y * num_cols, size.y)
        };
        ctx.request_scroll_bar_params(v, None, None, None, Some(pg_step), Some(ar_step));
    }
    let ghost d1 = ctx.deferred@;
    if let Some(h) = lv.h_scroll_bar {
        ctx.request_scroll_bar_params(h, None, None, None, Some(size.x / num_cols), Some(1));
    }
    assert(ctx.deferred@ =~= old(ctx).deferred@ + step_requests(*lv));
}

/// The state after `set_state(flag, enable)`.
pub open spec fn flagged_state(lv: ListViewerState, flag: StateFlag, enable: bool) -> ListViewerState {
    ListViewerState { state: ViewState { state: with_flag(lv.state.state, flag, enable), ..lv.state }, ..lv }
}

/// The events `set_state` posts: focus changes are broadcast.
pub open spec fn state_events(lv: ListViewerState, flag: StateFlag, enable: bool) -> Seq<Event> {
    if flag == StateFlag::Focused {
        seq![Event::Broadcast {
            command: if enable { Command::ReceivedFocus } else { Command::ReleasedFocus },
            source: lv.state.id,
        }]
    } else {
        Seq::empty()
    }
}

/// The requests `set_state` defers: on an active/selected change both bars
/// are shown iff the list is active and visible.
pub open spec fn state_requests(lv: ListViewerState, flag: StateFlag, enable: bool) -> Seq<Deferred> {
    let after = flagged_state(lv, flag, enable);
    let vis = after.state.state.active && after.state.state.visible;
    if flag == StateFlag::Active || flag == StateFlag::Selected {
        let hreq = match lv.h_scroll_bar {
            Some(h) => seq![Deferred::SetVisible { id: h, visible: vis }],
            None => Seq::empty(),
        };
        let vreq = match lv.v_scroll_bar {
            Some(v) => seq![Deferred::SetVisible { id: v, visible: vis }],
            None => Seq::empty(),
        };
        hreq + vreq
    } else {
        Seq::empty()
    }
}

/// `TListViewer::setState`: flip the flag (broadcasting focus changes), then
/// on an active/selected change show or hide both scroll bars.
#[verifier::spinoff_prover]
pub fn set_state(lv: &mut ListViewerState, flag: StateFlag, enable: bool, ctx: &mut Context)
    ensures
        *final(lv) == flagged_state(*old(lv), flag, enable),
        final(ctx).out@ == old(ctx).out@ + state_events(*old(lv), flag, enable),
        final(ctx).deferred@ == old(ctx).deferred@ + state_requests(*old(lv), flag, enable),
{
    lv.state.set_flag(flag, enable);
    if flag == StateFlag::Focused {
        let source = lv.state.id();
        ctx.broadcast(if enable { Command::ReceivedFocus } else { Command::ReleasedFocus }, source);
    }
    assert(ctx.out@ =~= old(ctx).out@ + state_events(*old(lv), flag, enable));
    if flag == StateFlag::Active || flag == StateFlag::Selected {
        let visible = lv.state.state.active && lv.state.state.visible;
        if let Some(h) = lv.h_scroll_bar {
            ctx.request_set_visible(h, visible);
        }
        if let Some(v) = lv.v_scroll_bar {
            ctx.request_set_visible(v, visible);
        }
    }
    assert(ctx.deferred@ =~= old(ctx).deferred@ + state_requests(*old(lv), flag, enable));
}


// ---------------------------------------------------------------------------
// events
// ---------------------------------------------------------------------------

/// Is `ke` a bare Space press (no Ctrl, no Alt)?
pub open spec fn is_plain_space(ke: KeyEvent) -> bool {
    ke.key == Key::Char(' ') && !ke.modifiers.ctrl && !ke.modifiers.alt
}

/// Does the key press select the focused item (Space on an existing item)?
pub open spec fn key_selects(lv: ListViewerState, ke: KeyEvent) -> bool {
    is_plain_space(ke) && lv.focused < lv.range
}

/// The item a key press moves the focus to, or `None` when the list does not
/// handle the key.
pub open spec fn key_target(lv: ListViewerState, ke: KeyEvent) -> Option<int> {
    let focused = lv.focused as int;
    let sy = lv.state.size.y as int;
    let nc = lv.num_cols as int;
    let top = lv.top_item as int;
    if key_selects(lv, ke) {
        Some(focused)
    } else if ke.key == Key::PageDown && ke.modifiers.ctrl {
        Some(lv.range - 1)
    } else if ke.key == Key::PageUp && ke.modifiers.ctrl {
        Some(0)
    } else {
        match spec_ctrl_to_arrow(ke).key {
            Key::Up => Some(focused - 1),
            Key::Down => Some(focused + 1),
            Key::Right => if nc > 1 { Some(focused + sy) } else { None },
            Key::Left => if nc > 1 { Some(focused - sy) } else { None },
            Key::PageDown => Some(focused + sy * nc),
            Key::PageUp => Some(focused - sy * nc),
            Key::Home => Some(top),
            Key::End => Some(top + sy * nc - 1),
            _ => None,
        }
    }
}

/// The arithmetic of a key press stays within `i32`.
pub open spec fn key_fits(lv: ListViewerState, ke: KeyEvent) -> bool {
    let focused = lv.focused as int;
    let sy = lv.state.size.y as int;
    let nc = lv.num_cols as int;
    let top = lv.top_item as int;
    &&& if key_selects(lv, ke) {
        true
    } else if ke.key == Key::PageDown && ke.modifiers.ctrl {
        fits_i32(lv.range - 1)
    } else if ke.key == Key::PageUp && ke.modifiers.ctrl {
        true
    } else {
        match spec_ctrl_to_arrow(ke).key {
            Key::Up => fits_i32(focused - 1),
            Key::Down => fits_i32(focused + 1),
            Key::Right => nc > 1 ==> fits_i32(focused + sy),
            Key::Left => nc > 1 ==> fits_i32(focused - sy),
            Key::PageDown => fits_i32(sy * nc) && fits_i32(focused + sy * nc),
            Key::PageUp => fits_i32(sy * nc) && fits_i32(focused - sy * nc),
            Key::End => fits_i32(sy * nc) && fits_i32(top + sy * nc) && fits_i32(top + sy * nc - 1),
            _ => true,
        }
    }
    &&& key_target(lv, ke) matches Some(t) ==> focus_item_num_fits(lv, t)
}

/// The width of a column, divider included.
pub open spec fn col_width(lv: ListViewerState) -> int {
    trunc_div(lv.state.size.x as int, lv.num_cols as int) + 1
}

/// The item under the view-local point `p`.
pub open spec fn item_at(lv: ListViewerState, p: Point) -> int {
    p.y + lv.state.size.y * trunc_div(p.x as int, col_width(lv)) + lv.top_item
}

/// The arithmetic of a mouse press at `p` stays within `i32` (the list has
/// at least one column and a positive column width).
pub open spec fn mouse_fits(lv: ListViewerState, p: Point) -> bool {
    let q = trunc_div(p.x as int, col_width(lv));
    &&& lv.num_cols >= 1
    &&& col_width(lv) >= 1
    &&& fits_i32(col_width(lv))
    &&& fits_i32(lv.state.size.y * q)
    &&& fits_i32(p.y + lv.state.size.y * q)
    &&& fits_i32(item_at(lv, p))
    &&& focus_item_num_fits(lv, item_at(lv, p))
}

/// The arithmetic of handling `ev` stays within `i32`.
pub open spec fn event_fits(lv: ListViewerState, ev: Event) -> bool {
    match ev {
        Event::KeyDown(ke) => key_fits(lv, ke),
        Event::MouseDown(me) => mouse_fits(lv, me.position),
        _ => true,
    }
}

/// Is `source` one of the list's own scroll bars?
pub open spec fn from_own_bar(lv: ListViewerState, source: Option<ViewId>) -> bool {
    source is Some && (source == lv.h_scroll_bar || source == lv.v_scroll_bar)
}

/// The list's reaction to an event: its new state, the event afterwards,
/// the requests it defers, and the item it asks to select.
pub open spec fn spec_handle_event(lv: ListViewerState, ev: Event) -> (ListViewerState, Event, Seq<Deferred>, Option<int>) {
    match ev {
        Event::MouseDown(me) => {
            let t = item_at(lv, me.position);
            (
                focus_num_state(lv, t),
                Event::Nothing,
                focus_num_requests(lv, t),
                if me.flags.double_click && lv.range > t { Some(t) } else { None },
            )
        },
        Event::KeyDown(ke) => match key_target(lv, ke) {
            Some(t) => (
                focus_num_state(lv, t),
                Event::Nothing,
                focus_num_requests(lv, t),
                if key_selects(lv, ke) { Some(lv.focused as int) } else { None },
            ),
            None => (lv, ev, Seq::empty(), None),
        },
        Event::Broadcast { command, source } => {
            let reqs = if !lv.state.options.selectable || !from_own_bar(lv, source) || lv.state.id is None {
                Seq::empty()
            } else if command == Command::ScrollBarClicked {
                seq![Deferred::FocusById(lv.state.id->0)]
            } else if command == Command::ScrollBarChanged {
                seq![Deferred::SyncListViewer { list: lv.state.id->0, h: lv.h_scroll_bar, v: lv.v_scroll_bar }]
            } else {
                Seq::empty()
            };
            (lv, ev, reqs, None)
        },
        _ => (lv, ev, Seq::empty(), None),
    }
}

/// `TListViewer::handleEvent`: a mouse press focuses the item under the
/// mouse (a double click also selects it); the navigation keys move the focus
/// (Space selects the focused item); a change or click broadcast from one of
/// the list's own scroll bars defers a read-sync or a focus request.
///
/// Returns the item to select, which the concrete widget then selects.
pub fn handle_event(lv: &mut ListViewerState, ev: &mut Event, ctx: &mut Context) -> (sel: Option<i32>)
    requires
        event_fits(*old(lv), *old(ev)),
    ensures
        ({
            let (lv2, ev2, reqs, s) = spec_handle_event(*old(lv), *old(ev));
            &&& *final(lv) == lv2
            &&& *final(ev) == ev2
            &&& final(ctx).deferred@ == old(ctx).deferred@ + reqs
            &&& match s {
                Some(i) => sel == Some(i as i32),
                None => sel is None,
            }
        }),
        final(ctx).out@ == old(ctx).out@,
{
    match *ev {
        Event::MouseDown(me) => {
            let size = lv.state.size;
            let num_cols = lv.num_cols;
            let col_width = size.x / num_cols + 1;
            let top_item = lv.top_item;
            let mouse = me.position;
            let new_item = mouse.y + size.y * (mouse.x / col_width) + top_item;
            focus_item_num(lv, new_item, ctx);
            ev.clear();
            if me.flags.double_click && lv.range > new_item {
                Some(new_item)
            } else {
                None
            }
        },
        Event::KeyDown(ke) => {
            let focused = lv.focused;
            let range = lv.range;
            let size_y = lv.state.size.y;
            let num_cols = lv.num_cols;
            let selects = matches!(ke.key, Key::Char(' ')) && !ke.modifiers.ctrl && !ke.modifiers.alt
                && focused < range;
            let new_item: i32;
            if selects {
                new_item = focused;
            } else if matches!(ke.key, Key::PageDown) && ke.modifiers.ctrl {
                new_item = range - 1;
            } else if matches!(ke.key, Key::PageUp) && ke.modifiers.ctrl {
                new_item = 0;
            } else {
                let mapped = ctrl_to_arrow(ke);
                new_item = match mapped.key {
                    Key::Up => focused - 1,
                    Key::Down => focused + 1,
                    Key::Right => {
                        if num_cols > 1 {
                            focused + size_y
                        } else {
                            assert(ctx.deferred@ =~= old(ctx).deferred@ + Seq::<Deferred>::empty());
                            return None;
                        }
                    },
                    Key::Left => {
                        if num_cols > 1 {
                            focused - size_y
                        } else {
                            assert(ctx.deferred@ =~= old(ctx).deferred@ + Seq::<Deferred>::empty());
                            return None;
                        }
                    },
                    Key::PageDown => focused + size_y * num_cols,
                    Key::PageUp => focused - size_y * num_cols,
                    Key::Home => lv.top_item,
                    Key::End => lv.top_item + (size_y * num_cols) - 1,
                    _ => {
                        assert(ctx.deferred@ =~= old(ctx).deferred@ + Seq::<Deferred>::empty());
                        return None;
                    },
                };
            }
            focus_item_num(lv, new_item, ctx);
            ev.clear();
            if selects {
                Some(focused)
            } else {
                None
            }
        },
        Event::Broadcast { command, source } => {
            if !lv.state.options.selectable {
                assert(ctx.deferred@ =~= old(ctx).deferred@ + Seq::<Deferred>::empty());
                return None;
            }
            let h = lv.h_scroll_bar;
            let v = lv.v_scroll_bar;
            let own = source.is_some() && (source == h || source == v);
            if command == Command::ScrollBarClicked && own {
                if let Some(id) = lv.state.id() {
                    ctx.request_focus(id);
                }
            } else if command == Command::ScrollBarChanged && own {
                if let Some(id) = lv.state.id() {
                    ctx.request_sync_list_viewer(id, h, v);
                }
            }
            assert(ctx.deferred@ =~= old(ctx).deferred@ + spec_handle_event(*old(lv), *old(ev)).2);
            None
        },
        _ => {
            assert(ctx.deferred@ =~= old(ctx).deferred@ + Seq::<Deferred>::empty());
            None
        },
    }
}


// ---------------------------------------------------------------------------
// cursor
// ---------------------------------------------------------------------------

/// The view-local cursor cell of the focused item: with `d` the focused
/// item's offset from `top_item`, the item sits in row `d % size.y` of column
/// `d / size.y`, one cell into the column. `None` when the list is not
/// active and selected, is empty, or the focused item is not on the page.
pub open spec fn spec_focused_cursor(lv: ListViewerState) -> Option<Point> {
    let sy = lv.state.size.y as int;
    let nc = lv.num_cols as int;
    let d = lv.focused - lv.top_item;
    if !(lv.state.state.selected && lv.state.state.active) || lv.range <= 0 || sy <= 0 || nc <= 0 {
        None
    } else if 0 <= d < sy * nc {
        Some(Point { x: ((d / sy) * col_width(lv) + 1) as i32, y: (d % sy) as i32 })
    } else {
        None
    }
}

/// The arithmetic of locating the cursor stays within `i32`.
pub open spec fn cursor_fits(lv: ListViewerState) -> bool {
    &&& lv.num_cols >= 1
    &&& col_width(lv) >= 0
    &&& fits_i32(col_width(lv))
    &&& fits_i32(lv.state.size.y * lv.num_cols)
    &&& fits_i32(lv.top_item + lv.state.size.y * lv.num_cols)
    &&& fits_i32(col_width(lv) * lv.num_cols + 1)
}

/// The offset from `top_item` of the item in row `i` of column `j`.
pub open spec fn cell_offset(i: int, j: int, sy: int) -> int {
    j * sy + i
}

proof fn lemma_cell_of_offset(d: int, sy: int, nc: int, i: int, j: int)
    requires
        sy > 0,
        0 <= i < sy,
        0 <= j,
        d == j * sy + i,
    ensures
        d / sy == j,
        d % sy == i,
{
    vstd::arithmetic::div_mod::lemma_fundamental_div_mod_converse(d, sy, j, i);
}

proof fn lemma_offset_in_grid(d: int, sy: int, nc: int)
    requires
        sy > 0,
        nc > 0,
        0 <= d < sy * nc,
    ensures
        0 <= d % sy < sy,
        0 <= d / sy < nc,
        d == (d / sy) * sy + d % sy,
{
    vstd::arithmetic::div_mod::lemma_fundamental_div_mod(d, sy);
    vstd::arithmetic::div_mod::lemma_div_pos_is_pos(d, sy);
    vstd::arithmetic::div_mod::lemma_multiply_divide_lt(d, sy, nc);
    vstd::arithmetic::div_mod::lemma_mod_pos_bound(d, sy);
    assert((d / sy) * sy == sy * (d / sy)) by (nonlinear_arith);
}

/// The cursor position of the focused cell, found by scanning the visible
/// grid as drawing does.
pub fn focused_cursor(lv: &ListViewerState) -> (r: Option<Point>)
    requires
        cursor_fits(*lv),
    ensures
        r == spec_focused_cursor(*lv),
{
    if !(lv.state.state.selected && lv.state.state.active) || lv.range <= 0 {
        return None;
    }
    let size = lv.state.size;
    let num_cols = lv.num_cols;
    let cw = size.x / num_cols + 1;
    let top_item = lv.top_item;
    let focused = lv.focused;
    let ghost d = focused - top_item;
    let ghost sy = size.y as int;
    let ghost nc = num_cols as int;
    let mut i: i32 = 0;
    while i < size.y
        invariant
            0 <= i,
            size == lv.state.size,
            num_cols == lv.num_cols,
            top_item == lv.top_item,
            focused == lv.focused,
            sy == size.y,
            nc == num_cols,
            d == focused - top_item,
            cw == col_width(*lv),
            cursor_fits(*lv),
            sy > 0 ==> i <= sy,
            lv.state.state.selected && lv.state.state.active && lv.range > 0,
            forall|ii: int, jj: int| 0 <= ii < i && 0 <= jj < nc ==> #[trigger] cell_offset(ii, jj, sy) != d,
        decreases size.y - i,
    {
        let mut j: i32 = 0;
        while j < num_cols
            invariant
                0 <= i < sy,
                0 <= j <= nc,
                size == lv.state.size,
                num_cols == lv.num_cols,
                top_item == lv.top_item,
                focused == lv.focused,
                sy == size.y,
                nc == num_cols,
                d == focused - top_item,
                cw == col_width(*lv),
                cursor_fits(*lv),
                lv.state.state.selected && lv.state.state.active && lv.range > 0,
                forall|ii: int, jj: int| 0 <= ii < i && 0 <= jj < nc ==> #[trigger] cell_offset(ii, jj, sy) != d,
                forall|jj: int| 0 <= jj < j ==> #[trigger] cell_offset(i as int, jj, sy) != d,
            decreases num_cols - j,
        {
            assert(0 <= j * sy <= (nc - 1) * sy) by (nonlinear_arith)
                requires 0 <= j < nc, sy > 0;
            assert((nc - 1) * sy + sy == sy * nc) by (nonlinear_arith);
            let item = j * size.y + i + top_item;
            if focused == item {
                proof {
                    lemma_cell_of_offset(d, sy, nc, i as int, j as int);
                    assert(0 <= d < sy * nc);
                    assert(0 <= j * cw <= (nc - 1) * cw) by (nonlinear_arith)
                        requires 0 <= j < nc, cw >= 0;
                    assert((nc - 1) * cw + cw == cw * nc) by (nonlinear_arith);
                }
                return Some(Point { x: j * cw + 1, y: i });
            }
            j = j + 1;
        }
        i = i + 1;
    }
    proof {
        if sy > 0 && 0 <= d < sy * nc {
            lemma_offset_in_grid(d, sy, nc);
            let ii = d % sy;
            let jj = d / sy;
            assert(cell_offset(ii, jj, sy) == d);
            assert(false);
        }
    }
    None
}


// ---------------------------------------------------------------------------
// laws
// ---------------------------------------------------------------------------

/// Focusing an existing (non-negative) item scrolls it onto the visible
/// page: afterwards it lies in `top_item .. top_item + size.y * num_cols`.
pub proof fn law_focus_item_visible(lv: ListViewerState, item: int)
    requires
        lv.state.size.y > 0,
        lv.num_cols >= 1,
        0 <= item <= i32::MAX,
        focus_item_fits(lv, item),
    ensures
        focused_state(lv, item).focused == item,
        focused_state(lv, item).top_item <= item < focused_state(lv, item).top_item
            + lv.state.size.y * lv.num_cols,
{
    let sy = lv.state.size.y as int;
    let nc = lv.num_cols as int;
    let top = lv.top_item as int;
    assert(sy <= sy * nc) by (nonlinear_arith)
        requires sy > 0, nc >= 1;
    assert(sy * (nc - 1) + sy == sy * nc) by (nonlinear_arith);
    let r = trunc_rem(item, sy);
    assert(-sy < r < sy) by {
        if item >= 0 {
            vstd::arithmetic::div_mod::lemma_mod_pos_bound(item, sy);
        } else {
            vstd::arithmetic::div_mod::lemma_mod_pos_bound(-item, sy);
        }
    }
    assert(item >= 0 ==> r >= 0) by {
        if item >= 0 {
            vstd::arithmetic::div_mod::lemma_mod_pos_bound(item, sy);
        }
    }
    assert(item < 0 ==> r <= 0) by {
        if item < 0 {
            vstd::arithmetic::div_mod::lemma_mod_pos_bound(-item, sy);
        }
    }
    let t = scrolled_top(top, item, sy, nc);
    if item < top {
        if nc != 1 {
            assert(sy * (nc - 1) >= sy) by (nonlinear_arith)
                requires sy > 0, nc >= 2;
        }
        assert(fits_i32(t));
        assert(t <= item < t + sy * nc);
    } else if item >= top + sy * nc {
        if nc != 1 {
            assert(sy * (nc - 1) >= sy) by (nonlinear_arith)
                requires sy > 0, nc >= 2;
        }
        assert(fits_i32(t));
        assert(t <= item < t + sy * nc);
    } else {
        assert(t == top);
    }
    assert(focused_state(lv, item).top_item == t);
}

/// On a non-empty list `focus_item_num` always lands on an existing item.
pub proof fn law_focus_item_num_in_range(lv: ListViewerState, item: int)
    requires
        lv.range > 0,
    ensures
        0 <= focus_num_state(lv, item).focused < lv.range,
{
}

/// A mouse press focuses the item drawn in the cell under the mouse: with
/// columns `size.x / num_cols + 1` wide, a press at view-local `(x, y)` hits
/// the item `y + size.y * column + top_item`, which is focused after being
/// clamped into the list's items; the press is consumed.
pub proof fn law_mouse_focuses_item_under_pointer(lv: ListViewerState, me: MouseEvent)
    requires
        lv.range > 0,
        lv.num_cols >= 1,
        lv.state.size.x >= 0,
        me.position.x >= 0,
    ensures
        ({
            let column = me.position.x as int / (lv.state.size.x as int / lv.num_cols as int + 1);
            let hit = me.position.y + lv.state.size.y * column + lv.top_item;
            let after = spec_handle_event(lv, Event::MouseDown(me));
            &&& after.1 == Event::Nothing
            &&& after.0.range == lv.range
            &&& after.0.focused == if hit < 0 { 0 } else if hit >= lv.range { lv.range - 1 } else { hit }
        }),
{
}

/// A list viewer's well-formedness: its top item and item count are not
/// negative and it has at least one column. Construction establishes it and every list
/// operation keeps it.
pub open spec fn lv_wf(lv: ListViewerState) -> bool {
    lv.top_item >= 0 && lv.num_cols >= 1 && lv.range >= 0
}

/// Focusing an item that is not negative keeps a list well-formed.
pub proof fn lemma_focused_wf(lv: ListViewerState, item: int)
    requires
        lv_wf(lv),
        0 <= item <= i32::MAX,
        focus_item_fits(lv, item),
    ensures
        lv_wf(focused_state(lv, item)),
{
    let sy = lv.state.size.y as int;
    let nc = lv.num_cols as int;
    let top = lv.top_item as int;
    if sy > 0 {
        let r = trunc_rem(item, sy);
        assert(0 <= r < sy && r <= item) by (nonlinear_arith)
            requires
                r == item % sy,
                item >= 0,
                sy > 0;
        let t = scrolled_top(top, item, sy, nc);
        if item < top {
            assert(t >= 0 && fits_i32(t));
        } else if item >= top + sy * nc {
            if nc != 1 {
                assert(sy * nc == sy * (nc - 1) + sy) by (nonlinear_arith);
            }
            assert(t >= 1 && fits_i32(t));
        } else {
            assert(t == top);
        }
        assert(focused_state(lv, item).top_item == t);
    }
}

/// `focus_item_num` keeps a list well-formed.
pub proof fn lemma_focus_num_wf(lv: ListViewerState, item: int)
    requires
        lv_wf(lv),
        focus_item_num_fits(lv, item),
    ensures
        lv_wf(focus_num_state(lv, item)),
{
    if lv.range != 0 {
        lemma_focused_wf(lv, clamp_item(item, lv.range as int));
    }
}

/// Handling an event keeps a list well-formed.
pub proof fn lemma_handle_event_wf(lv: ListViewerState, ev: Event)
    requires
        lv_wf(lv),
        event_fits(lv, ev),
    ensures
        lv_wf(spec_handle_event(lv, ev).0),
{
    match ev {
        Event::MouseDown(me) => {
            lemma_focus_num_wf(lv, item_at(lv, me.position));
        },
        Event::KeyDown(ke) => {
            if let Some(t) = key_target(lv, ke) {
                lemma_focus_num_wf(lv, t);
            }
        },
        _ => {},
    }
}

/// On a non-empty list, a key press or mouse press either is consumed and
/// leaves the focus on an existing item, or is passed on untouched with the
/// list unchanged; the item count never changes.
pub proof fn law_handle_event_focus_in_range(lv: ListViewerState, ev: Event)
    requires
        lv.range > 0,
        ev is KeyDown || ev is MouseDown,
    ensures
        spec_handle_event(lv, ev).0.range == lv.range,
        spec_handle_event(lv, ev).1 is Nothing ==> 0 <= spec_handle_event(lv, ev).0.focused < lv.range,
        !(spec_handle_event(lv, ev).1 is Nothing) ==> spec_handle_event(lv, ev).1 == ev && spec_handle_event(lv, ev).0 == lv,
{
    match ev {
        Event::MouseDown(me) => {
            law_focus_item_num_in_range(lv, item_at(lv, me.position));
        },
        Event::KeyDown(ke) => {
            if let Some(t) = key_target(lv, ke) {
                law_focus_item_num_in_range(lv, t);
            }
        },
        _ => {},
    }
}

/// After `set_range` the focus is either still inside the new range or reset
/// to the first item.
pub proof fn law_set_range_focus(lv: ListViewerState, a_range: int)
    requires
        fits_i32(a_range),
    ensures
        ranged_state(lv, a_range).range == a_range,
        ranged_state(lv, a_range).focused < a_range || ranged_state(lv, a_range).focused == 0,
{
}


// ---------------------------------------------------------------------------
// the list-viewer interface and drawing
// ---------------------------------------------------------------------------

/// A concrete list widget: its embedded [`ListViewerState`], the text of each
/// item, and which items are drawn selected.
pub trait ListViewer {
    /// The embedded list state.
    spec fn lv_view(&self) -> ListViewerState;

    /// The text of `item` (empty for items that do not exist).
    spec fn text_of(&self, item: int) -> Seq<char>;

    /// Is `item` drawn in the selected colour?
    spec fn selected_of(&self, item: int) -> bool;

    /// Borrow the embedded list state.
    fn lv(&self) -> (r: &ListViewerState)
        ensures
            *r == self.lv_view();

    /// The text for `item` (`getText`).
    fn get_text(&self, item: i32) -> (s: String)
        ensures
            s@ == self.text_of(item as int);

    /// Whether `item` is drawn selected (`isSelected`).
    fn is_selected(&self, item: i32) -> (b: bool)
        ensures
            b == self.selected_of(item as int);

    /// The user committed to `item` (`selectItem`).
    fn select_item(&mut self, item: i32, ctx: &mut Context);
}

/// The placeholder drawn in an empty list.
pub open spec fn empty_text() -> Seq<char> {
    seq!['<', 'e', 'm', 'p', 't', 'y', '>']
}

/// The item drawn in row `i` of column `j`.
pub open spec fn item_in_cell(lv: ListViewerState, i: int, j: int) -> int {
    j * lv.state.size.y + i + lv.top_item
}

/// Is the list drawn in its active colours (selected and active)?
pub open spec fn is_active(lv: ListViewerState) -> bool {
    lv.state.state.selected && lv.state.state.active
}

/// The drawing operations for the cell in row `i` of column `j`: blank the
/// column in the item's colour, draw the item's text (or, for the first cell
/// of an empty list, the placeholder) after a one-cell gap, then the column
/// divider in the last cell of the column.
pub open spec fn cell_ops<L: ListViewer>(l: &L, theme: Theme, i: int, j: int) -> Seq<DrawOp> {
    let lv = l.lv_view();
    let active = is_active(lv);
    let normal = if active { theme.spec_style(Role::ListNormalActive) } else { theme.spec_style(Role::ListNormalInactive) };
    let item = item_in_cell(lv, i, j);
    let cw = col_width(lv);
    let cur_col = j * cw;
    let color = if active && lv.focused == item && lv.range > 0 {
        theme.spec_style(Role::ListFocused)
    } else if item < lv.range && l.selected_of(item) {
        theme.spec_style(Role::ListSelected)
    } else {
        normal
    };
    let fill = DrawOp::Fill(
        Rect {
            a: Point { x: cur_col as i32, y: i as i32 },
            b: Point { x: (cur_col + cw) as i32, y: (i + 1) as i32 },
        },
        ' ',
        color,
    );
    let text = if item < lv.range {
        seq![DrawOp::Text(cur_col + 1, i, skipped(l.text_of(item), lv.indent as int), color)]
    } else if i == 0 && j == 0 {
        seq![DrawOp::Text(cur_col + 1, i, empty_text(), theme.spec_style(Role::ListNormalActive))]
    } else {
        Seq::empty()
    };
    let divider = DrawOp::Text(cur_col + cw - 1, i, seq![theme.spec_glyphs().frame_v], theme.spec_style(Role::ListDivider));
    seq![fill] + text + seq![divider]
}

/// The operations for the first `n` cells of the grid, row by row.
pub open spec fn grid_ops<L: ListViewer>(l: &L, theme: Theme, n: int) -> Seq<DrawOp>
    decreases n,
{
    if n <= 0 {
        Seq::empty()
    } else {
        let nc = l.lv_view().num_cols as int;
        grid_ops(l, theme, n - 1) + cell_ops(l, theme, (n - 1) / nc, (n - 1) % nc)
    }
}

/// Everything `draw` does: every cell of the `size.y` × `num_cols` grid.
pub open spec fn list_draw_ops<L: ListViewer>(l: &L, theme: Theme) -> Seq<DrawOp> {
    let lv = l.lv_view();
    if lv.state.size.y > 0 {
        grid_ops(l, theme, lv.state.size.y * lv.num_cols)
    } else {
        Seq::empty()
    }
}

/// Writing a one-character text writes one cell.
pub proof fn lemma_single_char_text(fr: Frame, cells: Seq<crate::view::Cell>, x: int, y: int, c: char, style: crate::color::Style)
    ensures
        put_text(fr, cells, x, y, seq![c], style) == put_cell(fr, cells, x, y, crate::view::Cell { symbol: c, style }),
{
    reveal_with_fuel(put_text, 2);
    assert(seq![c].drop_first() =~= Seq::<char>::empty());
    assert(seq![c][0] == c);
}

/// `TListViewer::draw`: lay the items out column-major in `num_cols`
/// columns, each cell coloured by state (focused, selected, normal), with a
/// column divider and the `<empty>` placeholder for an empty list.
pub fn draw<L: ListViewer>(this: &L, ctx: &mut DrawCtx)
    requires
        old(ctx).wf(),
        cursor_fits(this.lv_view()),
    ensures
        final(ctx).wf(),
        final(ctx).same_frame(old(ctx)),
        final(ctx).spec_cells() == apply_ops(old(ctx).frame(), old(ctx).spec_cells(), list_draw_ops(this, old(ctx).spec_theme())),
{
    let lv = this.lv();
    let ghost theme = ctx.spec_theme();
    let active = lv.state.state.selected && lv.state.state.active;
    let normal = if active { ctx.style(Role::ListNormalActive) } else { ctx.style(Role::ListNormalInactive) };
    let selected = ctx.style(Role::ListSelected);
    let focused_color = ctx.style(Role::ListFocused);
    let divider_color = ctx.style(Role::ListDivider);
    let empty_color = ctx.style(Role::ListNormalActive);
    let vbar = ctx.glyphs().frame_v;
    let size = lv.state.size;
    let indent = lv.indent;
    let num_cols = lv.num_cols;
    let top_item = lv.top_item;
    let range = lv.range;
    let focused = lv.focused;
    let cw = size.x / num_cols + 1;
    let empty = "<empty>";
    proof {
        reveal_strlit("<empty>");
        assert(empty@ =~= empty_text());
    }
    let ghost sy = size.y as int;
    let ghost nc = num_cols as int;
    let ghost start = ctx.spec_cells();
    let ghost fr0 = ctx.frame();
    let mut i: i32 = 0;
    while i < size.y
        invariant
            0 <= i,
            sy > 0 ==> i <= sy,
            sy <= 0 ==> i == 0,
            *lv == this.lv_view(),
            size == lv.state.size,
            num_cols == lv.num_cols,
            indent == lv.indent,
            top_item == lv.top_item,
            range == lv.range,
            focused == lv.focused,
            active == is_active(*lv),
            sy == size.y,
            nc == num_cols,
            cw == col_width(*lv),
            cursor_fits(*lv),
            theme == ctx.spec_theme(),
            normal == (if active { theme.spec_style(Role::ListNormalActive) } else { theme.spec_style(Role::ListNormalInactive) }),
            selected == theme.spec_style(Role::ListSelected),
            focused_color == theme.spec_style(Role::ListFocused),
            divider_color == theme.spec_style(Role::ListDivider),
            empty_color == theme.spec_style(Role::ListNormalActive),
            vbar == theme.spec_glyphs().frame_v,
            empty@ == empty_text(),
            ctx.wf(),
            ctx.same_frame(old(ctx)),
            ctx.spec_cells() == apply_ops(fr0, start, grid_ops(this, theme, i * nc)),
            start == old(ctx).spec_cells(),
            fr0 == old(ctx).frame(),
        decreases size.y - i,
    {
        let mut j: i32 = 0;
        while j < num_cols
            invariant
                0 <= i < sy,
                0 <= j <= nc,
                *lv == this.lv_view(),
                size == lv.state.size,
                num_cols == lv.num_cols,
                indent == lv.indent,
                top_item == lv.top_item,
                range == lv.range,
                focused == lv.focused,
                active == is_active(*lv),
                sy == size.y,
                nc == num_cols,
                cw == col_width(*lv),
                cursor_fits(*lv),
                theme == ctx.spec_theme(),
                normal == (if active { theme.spec_style(Role::ListNormalActive) } else { theme.spec_style(Role::ListNormalInactive) }),
                selected == theme.spec_style(Role::ListSelected),
                focused_color == theme.spec_style(Role::ListFocused),
                divider_color == theme.spec_style(Role::ListDivider),
                empty_color == theme.spec_style(Role::ListNormalActive),
                vbar == theme.spec_glyphs().frame_v,
                empty@ == empty_text(),
                ctx.wf(),
                ctx.same_frame(old(ctx)),
                ctx.spec_cells() == apply_ops(fr0, start, grid_ops(this, theme, i * nc + j)),
                start == old(ctx).spec_cells(),
                fr0 == old(ctx).frame(),
            decreases num_cols - j,
        {
            proof {
                assert(0 <= j * sy <= (nc - 1) * sy) by (nonlinear_arith)
                    requires 0 <= j < nc, sy > 0;
                assert((nc - 1) * sy + sy == sy * nc) by (nonlinear_arith);
                assert(0 <= j * cw <= (nc - 1) * cw) by (nonlinear_arith)
                    requires 0 <= j < nc, cw >= 0;
                assert((nc - 1) * cw + cw == cw * nc) by (nonlinear_arith);
            }
            let item = j * size.y + i + top_item;
            let cur_col = j * cw;
            let color = if active && focused == item && range > 0 {
                focused_color
            } else if item < range && this.is_selected(item) {
                selected
            } else {
                normal
            };
            let ghost before = ctx.spec_cells();
            let ghost k = i * nc + j;
            proof {
                assert(0 <= k < sy * nc) by (nonlinear_arith)
                    requires 0 <= i < sy, 0 <= j < nc, k == i * nc + j;
                vstd::arithmetic::div_mod::lemma_fundamental_div_mod_converse(k, nc, i as int, j as int);
                assert(grid_ops(this, theme, k + 1) == grid_ops(this, theme, k) + cell_ops(this, theme, i as int, j as int));
            }
            let ghost ops = cell_ops(this, theme, i as int, j as int);
            ctx.fill(Rect::new(cur_col, i, cur_col + cw, i + 1), ' ', color);
            let ghost after_fill = ctx.spec_cells();
            if item < range {
                let text = this.get_text(item);
                ctx.put_str_part(cur_col + 1, i, text.as_str(), indent, color);
            } else if i == 0 && j == 0 {
                ctx.put_str(cur_col + 1, i, empty, empty_color);
            }
            let ghost after_text = ctx.spec_cells();
            ctx.put_char(cur_col + cw - 1, i, vbar, divider_color);
            proof {
                let fr = ctx.frame();
                lemma_single_char_text(fr, after_text, (cur_col + cw - 1) as int, i as int, vbar, divider_color);
                assert(item == item_in_cell(*lv, i as int, j as int));
                let fill_op = DrawOp::Fill(
                    Rect {
                        a: Point { x: cur_col, y: i },
                        b: Point { x: (cur_col + cw) as i32, y: (i + 1) as i32 },
                    },
                    ' ',
                    color,
                );
                let mid = if item < range {
                    seq![DrawOp::Text(cur_col + 1, i as int, skipped(this.text_of(item as int), indent as int), color)]
                } else if i == 0 && j == 0 {
                    seq![DrawOp::Text(cur_col + 1, i as int, empty_text(), empty_color)]
                } else {
                    Seq::<DrawOp>::empty()
                };
                let div_op = DrawOp::Text(cur_col + cw - 1, i as int, seq![vbar], divider_color);
                assert(ops =~= seq![fill_op] + mid + seq![div_op]);
                lemma_apply_single(fr, before, fill_op);
                assert(apply_ops(fr, before, seq![fill_op]) == after_fill);
                assert(apply_ops(fr, after_fill, mid) == after_text) by {
                    if mid.len() == 1 {
                        lemma_apply_single(fr, after_fill, mid[0]);
                        assert(mid =~= seq![mid[0]]);
                    } else {
                        assert(mid =~= Seq::<DrawOp>::empty());
                    }
                }
                lemma_apply_single(fr, after_text, div_op);
                assert(apply_ops(fr, after_text, seq![div_op]) == ctx.spec_cells());
                lemma_apply_ops_append(fr, before, seq![fill_op], mid);
                lemma_apply_ops_append(fr, before, seq![fill_op] + mid, seq![div_op]);
                lemma_apply_ops_append(fr, start, grid_ops(this, theme, k), ops);
                assert(i * nc + (j + 1) == k + 1);
            }
            j = j + 1;
        }
        proof {
            assert(i * nc + nc == (i + 1) * nc) by (nonlinear_arith);
        }
        i = i + 1;
    }
    proof {
        if sy > 0 {
            assert(i == sy);
        } else {
            assert(i * nc == 0);
            assert(grid_ops(this, theme, 0) =~= Seq::<DrawOp>::empty());
        }
    }
}

} // verus!
