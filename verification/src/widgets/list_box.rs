//! List boxes over owned strings: the plain [`ListBox`] and the
//! incrementally searchable, case-insensitively sorted [`SortedListBox`].
use vstd::prelude::*;
use crate::command::Command;
use crate::data::FieldValue;
use crate::event::{Event, KeyEvent};
use crate::view::geometry::{Point, Rect};
use crate::view::state::{ViewState, StateFlag, bounds_fit};
use crate::view::{Context, Deferred, ViewId};
use crate::view::draw::{DrawCtx, apply_ops};
use crate::collate::{ci_sort, ci_sorted, is_ci_sorted, ci_lower_bound, law_ci_sorted_is_sorted, law_ci_sorted_permutes, lemma_lower_bound_splits, lemma_lower_bound_at, lemma_lower_bound_nonneg};
use crate::text::{ci_less, ci_lt, chars_of, string_of};
use crate::view::geometry::fits_i32;
use crate::widgets::type_search::{
    SearchInput, search_reaction, reset_pos, is_released, edit_search, key_search_input, released, settle,
    alpha_input, shift_moment, confirms,
};
use crate::widgets::list_viewer::{
    self, ListViewer, ListViewerState, fresh_list_viewer, ranged_state, focused_state,
    range_requests, focus_requests, focus_item_fits, spec_handle_event, event_fits, cursor_fits,
    spec_focused_cursor, flagged_state, state_events, state_requests, focus_item_num_fits,
    focus_num_state, focus_num_requests, list_draw_ops, lv_wf, lemma_focused_wf, lemma_focus_num_wf,
    lemma_handle_event_wf, trunc_rem,
};

verus! {

/// The character view of each string.
pub open spec fn texts(items: Seq<String>) -> Seq<Seq<char>> {
    items.map_values(|s: String| s@)
}

/// The text of `item`, empty when there is no such item.
pub open spec fn item_text(items: Seq<Seq<char>>, item: int) -> Seq<char> {
    if 0 <= item < items.len() {
        items[item]
    } else {
        Seq::empty()
    }
}

/// The state of a list after `new_list` put `len` items in it: the range
/// is published and, for a non-empty list, the first item focused.
pub open spec fn listed_state(lv: ListViewerState, len: int) -> ListViewerState {
    if len > 0 {
        focused_state(ranged_state(lv, len), 0)
    } else {
        ranged_state(lv, len)
    }
}

/// The requests `new_list` defers.
pub open spec fn listed_requests(lv: ListViewerState, len: int) -> Seq<Deferred> {
    range_requests(lv, len) + if len > 0 {
        focus_requests(ranged_state(lv, len), 0)
    } else {
        Seq::empty()
    }
}

/// The arithmetic of `new_list` with `len` items stays within `i32`.
pub open spec fn listing_fits(lv: ListViewerState, len: int) -> bool {
    &&& 0 <= len <= i32::MAX
    &&& len > 0 ==> focus_item_fits(ranged_state(lv, len), 0)
}

/// Publishing a listing keeps a list well-formed, and a non-empty listing
/// in a list with rows starts at the top: its first row shows the first
/// item.
pub proof fn lemma_listed_wf(lv: ListViewerState, len: int)
    requires
        lv_wf(lv),
        listing_fits(lv, len),
    ensures
        lv_wf(listed_state(lv, len)),
        len > 0 && lv.state.size.y > 0 ==> listed_state(lv, len).top_item == 0,
{
    let r = ranged_state(lv, len);
    assert(lv_wf(r));
    if len > 0 {
        lemma_focused_wf(r, 0);
        let sy = r.state.size.y as int;
        let nc = r.num_cols as int;
        if sy > 0 {
            assert(sy * nc >= 1) by (nonlinear_arith)
                requires
                    sy > 0,
                    nc >= 1;
            assert(trunc_rem(0, sy) == 0);
        }
    }
}

/// The broadcast announcing that the list `source` had an item selected.
pub open spec fn selected_broadcast(source: Option<ViewId>) -> Event {
    Event::Broadcast { command: Command::ListItemSelected, source }
}

/// A list viewer over owned strings (`TListBox`).
pub struct ListBox {
    lv: ListViewerState,
    items: Vec<String>,
}

impl ListBox {
    /// The items, as character sequences.
    pub closed spec fn spec_items(&self) -> Seq<Seq<char>> {
        texts(self.items@)
    }

    /// The list is well-formed (see [`lv_wf`]).
    pub open spec fn wf(&self) -> bool {
        lv_wf(self.lv_view())
    }

    /// An empty list box (`TListBox::TListBox`); its range is published later
    /// by [`new_list`](Self::new_list).
    pub fn new(bounds: Rect, num_cols: i32, h: Option<ViewId>, v: Option<ViewId>) -> (lb: Self)
        requires
            bounds_fit(bounds),
        ensures
            lb.wf(),
            lb.lv_view() == fresh_list_viewer(bounds, num_cols, h, v),
            lb.spec_items() == Seq::<Seq<char>>::empty(),
    {
        let lb = ListBox { lv: ListViewerState::new(bounds, num_cols, h, v), items: Vec::new() };
        assert(texts(lb.items@) =~= Seq::<Seq<char>>::empty());
        lb
    }

    /// Replace the items (`TListBox::newList`): publish the new range and,
    /// for a non-empty list, focus the first item.
    pub fn new_list(&mut self, items: Vec<String>, ctx: &mut Context)
        requires
            listing_fits(old(self).lv_view(), items@.len() as int),
        ensures
            old(self).wf() ==> final(self).wf(),
            old(self).wf() && items@.len() > 0 && old(self).lv_view().state.size.y > 0
                ==> final(self).lv_view().top_item == 0,
            final(self).spec_items() == texts(items@),
            final(self).lv_view() == listed_state(old(self).lv_view(), items@.len() as int),
            final(ctx).deferred@ == old(ctx).deferred@ + listed_requests(old(self).lv_view(), items@.len() as int),
            final(ctx).out@ == old(ctx).out@,
    {
        let len = items.len() as i32;
        self.items = items;
        list_viewer::set_range(&mut self.lv, len, ctx);
        let ghost d1 = ctx.deferred@;
        if self.lv.range > 0 {
            list_viewer::focus_item(&mut self.lv, 0, ctx);
        }
        assert(ctx.deferred@ =~= old(ctx).deferred@ + listed_requests(old(self).lv, len as int));
        proof {
            if lv_wf(old(self).lv) {
                lemma_listed_wf(old(self).lv, len as int);
            }
        }
    }

    /// The items (`TListBox::list`).
    pub fn list(&self) -> (r: &[String])
        ensures
            texts(r@) == self.spec_items(),
    {
        self.items.as_slice()
    }

    /// The view state.
    pub fn state(&self) -> (r: &ViewState)
        ensures
            *r == self.lv_view().state,
    {
        &self.lv.state
    }

    /// The view state, for the owner to update (its id, its flags).
    pub fn state_mut(&mut self) -> (r: &mut ViewState)
        ensures
            *r == old(self).lv_view().state,
            final(self).lv_view() == (ListViewerState { state: *final(r), ..old(self).lv_view() }),
            final(self).spec_items() == old(self).spec_items(),
            old(self).wf() ==> final(self).wf(),
    {
        &mut self.lv.state
    }

    /// Draw the list (the shared list-viewer drawing).
    pub fn draw(&self, ctx: &mut DrawCtx)
        requires
            old(ctx).wf(),
            cursor_fits(self.lv_view()),
        ensures
            final(ctx).wf(),
            final(ctx).same_frame(old(ctx)),
            final(ctx).spec_cells() == apply_ops(old(ctx).frame(), old(ctx).spec_cells(), list_draw_ops(self, old(ctx).spec_theme())),
    {
        list_viewer::draw(self, ctx);
    }

    /// Handle an event (the shared list-viewer handling); an item the user
    /// commits to is announced by a `ListItemSelected` broadcast.
    pub fn handle_event(&mut self, ev: &mut Event, ctx: &mut Context)
        requires
            event_fits(old(self).lv_view(), *old(ev)),
        ensures
            old(self).wf() ==> final(self).wf(),
            ({
                let (lv2, ev2, reqs, s) = spec_handle_event(old(self).lv_view(), *old(ev));
                &&& final(self).lv_view() == lv2
                &&& final(self).spec_items() == old(self).spec_items()
                &&& *final(ev) == ev2
                &&& final(ctx).deferred@ == old(ctx).deferred@ + reqs
                &&& final(ctx).out@ == old(ctx).out@ + if s is Some {
                    seq![selected_broadcast(old(self).lv_view().state.id)]
                } else {
                    Seq::empty()
                }
            }),
    {
        let sel = list_viewer::handle_event(&mut self.lv, ev, ctx);
        if let Some(item) = sel {
            self.select_item(item, ctx);
        }
        assert(ctx.out@ =~= old(ctx).out@ + if spec_handle_event(old(self).lv, *old(ev)).3 is Some {
            seq![selected_broadcast(old(self).lv.state.id)]
        } else {
            Seq::empty()
        });
        proof {
            if lv_wf(old(self).lv) {
                lemma_handle_event_wf(old(self).lv, *old(ev));
            }
        }
    }

    /// Set or clear a state flag (the shared list-viewer handling).
    pub fn set_state(&mut self, flag: StateFlag, enable: bool, ctx: &mut Context)
        ensures
            old(self).wf() ==> final(self).wf(),
            final(self).lv_view() == flagged_state(old(self).lv_view(), flag, enable),
            final(self).spec_items() == old(self).spec_items(),
            final(ctx).out@ == old(ctx).out@ + state_events(old(self).lv_view(), flag, enable),
            final(ctx).deferred@ == old(ctx).deferred@ + state_requests(old(self).lv_view(), flag, enable),
    {
        list_viewer::set_state(&mut self.lv, flag, enable, ctx);
    }

    /// Where the terminal cursor goes: on the focused item.
    pub fn cursor_request(&self) -> (r: Option<Point>)
        requires
            cursor_fits(self.lv_view()),
        ensures
            r == spec_focused_cursor(self.lv_view()),
    {
        list_viewer::focused_cursor(&self.lv)
    }

    /// Take over the scroll bars' values (the shared read-sync).
    pub fn apply_list_scroll(&mut self, h: Option<i32>, v: Option<i32>, ctx: &mut Context)
        requires
            v matches Some(vv) ==> focus_item_num_fits(
                match h {
                    Some(hv) => ListViewerState { indent: hv, ..old(self).lv_view() },
                    None => old(self).lv_view(),
                },
                vv as int,
            ),
        ensures
            ({
                let lv1 = match h {
                    Some(hv) => ListViewerState { indent: hv, ..old(self).lv_view() },
                    None => old(self).lv_view(),
                };
                &&& final(self).lv_view() == match v {
                    Some(vv) => focus_num_state(lv1, vv as int),
                    None => lv1,
                }
                &&& final(ctx).deferred@ == old(ctx).deferred@ + match v {
                    Some(vv) => focus_num_requests(lv1, vv as int),
                    None => Seq::empty(),
                }
            }),
            final(self).spec_items() == old(self).spec_items(),
            final(ctx).out@ == old(ctx).out@,
            old(self).wf() ==> final(self).wf(),
    {
        list_viewer::apply_scroll(&mut self.lv, h, v, ctx);
        proof {
            if lv_wf(old(self).lv) {
                if let Some(vv) = v {
                    let lv1 = match h {
                        Some(hv) => ListViewerState { indent: hv, ..old(self).lv },
                        None => old(self).lv,
                    };
                    lemma_focus_num_wf(lv1, vv as int);
                }
            }
        }
    }

    /// The dialog value: the focused item's index.
    pub fn value(&self) -> (r: Option<FieldValue>)
        ensures
            r == Some(FieldValue::Int(self.lv_view().focused)),
    {
        Some(FieldValue::Int(self.lv.focused))
    }
}

impl ListViewer for ListBox {
    closed spec fn lv_view(&self) -> ListViewerState {
        self.lv
    }

    open spec fn text_of(&self, item: int) -> Seq<char> {
        item_text(self.spec_items(), item)
    }

    open spec fn selected_of(&self, item: int) -> bool {
        item == self.lv_view().focused
    }

    fn lv(&self) -> (r: &ListViewerState) {
        &self.lv
    }

    /// The item's string, empty out of range.
    fn get_text(&self, item: i32) -> (s: String) {
        if item >= 0 && (item as usize) < self.items.len() {
            self.items[item as usize].clone()
        } else {
            String::new()
        }
    }

    /// The focused item is drawn selected.
    fn is_selected(&self, item: i32) -> (b: bool) {
        item == self.lv.focused
    }

    /// Announce the selection to the owner (`cmListItemSelected`).
    fn select_item(&mut self, item: i32, ctx: &mut Context)
        ensures
            final(ctx).out@ == old(ctx).out@.push(selected_broadcast(old(self).lv_view().state.id)),
            final(ctx).deferred@ == old(ctx).deferred@,
            *final(self) == *old(self),
    {
        let source = self.lv.state.id();
        ctx.broadcast(Command::ListItemSelected, source);
    }
}


/// The longest item a searchable list holds: search positions are `i32`.
pub open spec fn searchable_len(t: Seq<char>) -> bool {
    t.len() <= i32::MAX - 2
}

/// A list box whose items are kept case-insensitively sorted and that
/// jumps to the first item starting with what the user types
/// (`TSortedListBox`).
pub struct SortedListBox {
    inner: ListBox,
    search_pos: i32,
    shift_state: u8,
}

impl SortedListBox {
    /// The items, as character sequences.
    pub closed spec fn spec_items(&self) -> Seq<Seq<char>> {
        self.inner.spec_items()
    }

    /// The index of the last matched character in the focused item's text;
    /// -1 when no search is under way.
    pub closed spec fn spec_search_pos(&self) -> int {
        self.search_pos as int
    }

    /// The shift state captured when the search last started or emptied.
    pub closed spec fn spec_shift_state(&self) -> u8 {
        self.shift_state
    }

    /// The list is well-formed, the items are sorted, the range counts
    /// them, and the search position lies within an item.
    pub closed spec fn wf(&self) -> bool {
        &&& self.inner.wf()
        &&& is_ci_sorted(self.spec_items())
        &&& self.inner.lv.range == self.spec_items().len()
        &&& forall|i: int| 0 <= i < self.spec_items().len() ==> searchable_len(#[trigger] self.spec_items()[i])
        &&& -1 <= self.search_pos < i32::MAX - 1
    }

    /// An empty sorted list box showing the cursor one cell in
    /// (`TSortedListBox::TSortedListBox`).
    pub fn new(bounds: Rect, num_cols: i32, h: Option<ViewId>, v: Option<ViewId>) -> (lb: Self)
        requires
            bounds_fit(bounds),
        ensures
            lb.wf(),
            lb.lv_view() == ({
                let f = fresh_list_viewer(bounds, num_cols, h, v);
                ListViewerState {
                    state: ViewState {
                        state: crate::view::state::StateFlags { cursor_vis: true, ..f.state.state },
                        cursor: Point { x: 1, y: 0 },
                        ..f.state
                    },
                    ..f
                }
            }),
            lb.spec_items() == Seq::<Seq<char>>::empty(),
            lb.spec_search_pos() == -1,
    {
        let mut inner = ListBox::new(bounds, num_cols, h, v);
        inner.lv.state.show_cursor();
        inner.lv.state.set_cursor(1, 0);
        SortedListBox { inner, search_pos: -1, shift_state: 0 }
    }

    /// Replace the items, sorted case-insensitively (a stable sort by the
    /// ASCII-folded strings), and end any search (`TSortedListBox::newList`).
    pub fn new_list(&mut self, items: Vec<String>, ctx: &mut Context)
        requires
            old(self).wf(),
            listing_fits(old(self).lv_view(), items@.len() as int),
            forall|i: int| 0 <= i < items@.len() ==> searchable_len(#[trigger] items@[i]@),
        ensures
            final(self).wf(),
            final(self).spec_items() == ci_sorted(texts(items@)),
            final(self).lv_view() == listed_state(old(self).lv_view(), items@.len() as int),
            final(self).spec_search_pos() == -1,
            final(ctx).deferred@ == old(ctx).deferred@ + listed_requests(old(self).lv_view(), items@.len() as int),
            final(ctx).out@ == old(ctx).out@,
    {
        let ghost t = texts(items@);
        let sorted = ci_sort(items);
        proof {
            law_ci_sorted_is_sorted(t);
            law_ci_sorted_permutes(t);
            assert(sorted@.len() == texts(sorted@).len());
        }
        self.inner.new_list(sorted, ctx);
        self.search_pos = -1;
        proof {
            let r = ci_sorted(t);
            assert forall|i: int| 0 <= i < r.len() implies searchable_len(#[trigger] r[i]) by {
                broadcast use vstd::seq_lib::group_to_multiset_ensures;
                assert(r.contains(r[i]));
                assert(r.to_multiset().count(r[i]) > 0);
                assert(t.to_multiset().count(r[i]) > 0);
                assert(t.contains(r[i]));
                let m = choose|m: int| 0 <= m < t.len() && t[m] == r[i];
                assert(t[m] == items@[m]@);
            }
        }
    }

    /// The items.
    pub fn list(&self) -> (r: &[String])
        ensures
            texts(r@) == self.spec_items(),
    {
        self.inner.list()
    }

    /// The search position (-1 when no search is under way).
    pub fn search_pos(&self) -> (r: i32)
        ensures
            r == self.spec_search_pos(),
    {
        self.search_pos
    }

    /// The view state.
    pub fn state(&self) -> (r: &ViewState)
        ensures
            *r == self.lv_view().state,
    {
        self.inner.state()
    }

    /// The first item that is not before `key` case-insensitively (the
    /// insertion point of `key`); the item count when there is none.
    pub fn search(&self, key: &str) -> (r: i32)
        requires
            self.wf(),
        ensures
            r == ci_lower_bound(self.spec_items(), key@),
    {
        let ghost s = self.spec_items();
        let range = self.inner.lv.range;
        let mut lo: i32 = 0;
        let mut hi: i32 = range;
        while lo < hi
            invariant
                s == self.spec_items(),
                self.wf(),
                range == s.len(),
                0 <= lo <= hi <= range,
                forall|k: int| 0 <= k < lo ==> ci_lt(#[trigger] s[k], key@),
                forall|k: int| hi <= k < range ==> !ci_lt(#[trigger] s[k], key@),
            decreases hi - lo,
        {
            let mid = lo + (hi - lo) / 2;
            let t = self.inner.get_text(mid);
            proof {
                lemma_lower_bound_splits(s, key@, mid as int);
            }
            if ci_less(t.as_str(), key) {
                proof {
                    assert forall|k: int| 0 <= k < mid + 1 implies ci_lt(#[trigger] s[k], key@) by {
                        lemma_lower_bound_splits(s, key@, k);
                    }
                }
                lo = mid + 1;
            } else {
                proof {
                    assert forall|k: int| mid <= k < range implies !ci_lt(#[trigger] s[k], key@) by {
                        lemma_lower_bound_splits(s, key@, k);
                    }
                }
                hi = mid;
            }
        }
        proof {
            lemma_lower_bound_at(s, key@, lo as int);
        }
        lo
    }

    /// Handle an event (`TSortedListBox::handleEvent`): the list handles it
    /// first, and a focus move or loss ends the search; then a character
    /// key edits the search text (see
    /// [`search_reaction`](crate::widgets::type_search::search_reaction)),
    /// and the first item not before it is focused when it starts with the
    /// typed prefix. The key is consumed when the search moved or it is a
    /// letter.
    pub fn handle_event(&mut self, ev: &mut Event, ctx: &mut Context)
        requires
            old(self).wf(),
            event_fits(old(self).lv_view(), *old(ev)),
            forall|v: int| 0 <= v < old(self).lv_view().range
                ==> focus_item_fits(#[trigger] spec_handle_event(old(self).lv_view(), *old(ev)).0, v),
        ensures
            final(self).wf(),
            final(self).spec_items() == old(self).spec_items(),
            ({
                let (lv1, ev1, reqs1, s) = spec_handle_event(old(self).lv_view(), *old(ev));
                lv1.focused != old(self).lv_view().focused || is_released(ev1) ==> final(self).spec_search_pos() == -1
            }),
            ({
                let (lv1, ev1, reqs1, s) = spec_handle_event(old(self).lv_view(), *old(ev));
                let items = old(self).spec_items();
                let pos0 = reset_pos(old(self).lv_view().focused as int, lv1, ev1, old(self).spec_search_pos());
                let (lv2, ev2, pos2, sh2, reqs2) = search_reaction(
                    lv1,
                    ev1,
                    pos0,
                    old(self).spec_shift_state(),
                    |i: int| item_text(items, i),
                    |sh: u8, k: Seq<char>| ci_lower_bound(items, k),
                    |ke: KeyEvent| 0u8,
                    old(self).lv_view().focused as int,
                );
                &&& final(self).lv_view() == lv2
                &&& *final(ev) == ev2
                &&& final(self).spec_search_pos() == pos2
                &&& final(self).spec_shift_state() == sh2
                &&& final(ctx).deferred@ == old(ctx).deferred@ + reqs1 + reqs2
                &&& final(ctx).out@ == old(ctx).out@ + if s is Some {
                    seq![selected_broadcast(old(self).lv_view().state.id)]
                } else {
                    Seq::empty()
                }
            }),
    {
        let ghost items = self.spec_items();
        let old_value = self.inner.lv.focused;
        self.inner.handle_event(ev, ctx);
        let ghost d1 = ctx.deferred@;
        if old_value != self.inner.lv.focused || released(ev) {
            self.search_pos = -1;
        }
        let ke = match *ev {
            Event::KeyDown(ke) => ke,
            _ => {
                assert(ctx.deferred@ =~= d1 + Seq::<Deferred>::empty());
                return;
            },
        };
        let input = match key_search_input(ke) {
            Some(i) => i,
            None => {
                assert(ctx.deferred@ =~= d1 + Seq::<Deferred>::empty());
                return;
            },
        };
        let range = self.inner.lv.range;
        let value0 = self.inner.lv.focused;
        let cur: Vec<char> = if value0 < range {
            let t = self.inner.get_text(value0);
            chars_of(t.as_str())
        } else {
            Vec::new()
        };
        let old_pos = self.search_pos;
        proof {
            if 0 <= value0 < range {
                assert(searchable_len(items[value0 as int]));
            }
        }
        let (p, key) = match edit_search(old_pos, input, cur) {
            Some(r) => r,
            None => {
                assert(ctx.deferred@ =~= d1 + Seq::<Deferred>::empty());
                return;
            },
        };
        let captures = match input {
            SearchInput::Back => p == -1,
            SearchInput::Char(_) => p == 0,
            SearchInput::Dot => false,
        };
        if captures {
            // The search's shift state is recorded as it starts or empties;
            // a plain list's search does not depend on it, so it records none.
            self.shift_state = 0;
        }
        let key_str = string_of(&key);
        let value = self.search(key_str.as_str());
        let found: Vec<char> = if value < range {
            let t = self.inner.get_text(value);
            chars_of(t.as_str())
        } else {
            Vec::new()
        };
        proof {
            if value < range {
                lemma_lower_bound_nonneg(items, key@);
            }
        }
        let ghost lv_before = self.inner.lv;
        let pos = settle(&mut self.inner.lv, &key, &found, value, p, old_pos, old_value, ctx);
        self.search_pos = pos;
        if pos != old_pos || alpha_input(input) {
            ev.clear();
        }
        proof {
            if pos == p && p != old_pos {
                assert(found@.len() >= p + 1);
            }
            if confirms(lv_before, key@, found@, value as int, p as int) && value != old_value {
                lemma_lower_bound_nonneg(items, key@);
                lemma_focused_wf(lv_before, value as int);
            }
        }
    }

    /// Where the terminal cursor goes: on the focused item, just after the
    /// matched prefix.
    pub fn cursor_request(&self) -> (r: Option<Point>)
        requires
            self.wf(),
            cursor_fits(self.lv_view()),
            spec_focused_cursor(self.lv_view()) matches Some(b)
                ==> fits_i32(b.x + self.spec_search_pos() + 1),
        ensures
            r == match spec_focused_cursor(self.lv_view()) {
                Some(b) => Some(Point {
                    x: (b.x + if self.spec_search_pos() + 1 > 0 { self.spec_search_pos() + 1 } else { 0 }) as i32,
                    y: b.y,
                }),
                None => None,
            },
    {
        match self.inner.cursor_request() {
            Some(b) => {
                let adv = if self.search_pos + 1 > 0 { self.search_pos + 1 } else { 0 };
                Some(Point { x: b.x + adv, y: b.y })
            },
            None => None,
        }
    }

    /// Draw the list.
    pub fn draw(&self, ctx: &mut DrawCtx)
        requires
            old(ctx).wf(),
            cursor_fits(self.lv_view()),
        ensures
            final(ctx).wf(),
            final(ctx).same_frame(old(ctx)),
            final(ctx).spec_cells() == apply_ops(old(ctx).frame(), old(ctx).spec_cells(), list_draw_ops(self, old(ctx).spec_theme())),
    {
        list_viewer::draw(self, ctx);
    }

    /// Set or clear a state flag.
    pub fn set_state(&mut self, flag: StateFlag, enable: bool, ctx: &mut Context)
        requires
            old(self).wf(),
        ensures
            final(self).wf(),
            final(self).lv_view() == flagged_state(old(self).lv_view(), flag, enable),
            final(self).spec_items() == old(self).spec_items(),
            final(self).spec_search_pos() == old(self).spec_search_pos(),
            final(ctx).out@ == old(ctx).out@ + state_events(old(self).lv_view(), flag, enable),
            final(ctx).deferred@ == old(ctx).deferred@ + state_requests(old(self).lv_view(), flag, enable),
    {
        self.inner.set_state(flag, enable, ctx);
    }

    /// The dialog value: the focused item's index.
    pub fn value(&self) -> (r: Option<FieldValue>)
        ensures
            r == Some(FieldValue::Int(self.lv_view().focused)),
    {
        self.inner.value()
    }
}

impl ListViewer for SortedListBox {
    closed spec fn lv_view(&self) -> ListViewerState {
        self.inner.lv
    }

    open spec fn text_of(&self, item: int) -> Seq<char> {
        item_text(self.spec_items(), item)
    }

    open spec fn selected_of(&self, item: int) -> bool {
        item == self.lv_view().focused
    }

    fn lv(&self) -> (r: &ListViewerState) {
        &self.inner.lv
    }

    fn get_text(&self, item: i32) -> (s: String) {
        self.inner.get_text(item)
    }

    fn is_selected(&self, item: i32) -> (b: bool) {
        item == self.inner.lv.focused
    }

    fn select_item(&mut self, item: i32, ctx: &mut Context)
        ensures
            final(ctx).out@ == old(ctx).out@.push(selected_broadcast(old(self).lv_view().state.id)),
            final(ctx).deferred@ == old(ctx).deferred@,
            *final(self) == *old(self),
    {
        self.inner.select_item(item, ctx);
    }
}

} // verus!
