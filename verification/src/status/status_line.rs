//! The status line (`TStatusLine`): the items of the definition selected by
//! the current help context, laid out left to right, with an optional hint
//! after them.
use vstd::prelude::*;
use unicode_width::UnicodeWidthChar;
use crate::color::Style;
use crate::command::{Command, CommandSet};
use crate::event::Event;
use crate::status::defs::{HelpCtx, StatusDef, StatusItem, range_matches};
use crate::theme::{Role, Theme};
use crate::view::geometry::{Point, Rect};
use crate::view::state::{ViewState, GrowMode, Options, bounds_fit, fresh_view_state};
use crate::view::{Context, Deferred, ViewId};
use crate::view::draw::{DrawCtx, DrawOp, Frame, apply_ops, lemma_apply_ops_append, lemma_apply_single};
use crate::widgets::list_viewer::lemma_single_char_text;

verus! {

/// What `UnicodeWidthChar::width` answers for `c`: its display width in
/// columns, `None` for a control character.
pub uninterp spec fn char_display_width(c: char) -> Option<usize>;

/// `unicode_width::UnicodeWidthChar::width` on `c`. Its source answers 1
/// for the printable ASCII range, `None` for the C0 controls and for
/// U+007F..U+009F, and otherwise a width of at most 3 from its tables;
/// which width each character gets is left to the name.
#[verifier::external_body]
fn char_width(c: char) -> (r: Option<usize>)
    ensures
        r == char_display_width(c),
        0x20 <= (c as u32) < 0x7F ==> r == Some(1usize),
        ((c as u32) < 0x20 || 0x7F <= (c as u32) < 0xA0) ==> r is None,
        (c as u32) >= 0xA0 ==> (r is Some && r->0 <= 3),
{
    UnicodeWidthChar::width(c)
}

/// The columns `c` takes in a control string: its display width, or 1 for
/// a control character.
pub open spec fn char_cols(c: char) -> int {
    match char_display_width(c) {
        Some(w) => w as int,
        None => 1,
    }
}

/// The display width of the control string `s`, its `~` markers ignored.
pub open spec fn cstr_width(s: Seq<char>) -> int
    decreases s.len(),
{
    if s.len() == 0 {
        0
    } else {
        cstr_width(s.drop_last()) + if s.last() == '~' { 0 } else { char_cols(s.last()) }
    }
}

/// A character takes no negative number of columns.
proof fn lemma_char_cols(c: char)
    ensures
        0 <= char_cols(c),
{
}

/// The width of a prefix is at most the width of the whole.
pub proof fn lemma_cstr_width_prefix(s: Seq<char>, k: int)
    requires
        0 <= k <= s.len(),
    ensures
        0 <= cstr_width(s.take(k)) <= cstr_width(s),
    decreases s.len(),
{
    if k < s.len() {
        assert(s.drop_last().take(k) =~= s.take(k));
        lemma_cstr_width_prefix(s.drop_last(), k);
        lemma_char_cols(s.last());
    } else {
        assert(s.take(k) =~= s);
        lemma_cstr_width_nonneg(s);
    }
}

/// Widths are not negative.
pub proof fn lemma_cstr_width_nonneg(s: Seq<char>)
    ensures
        cstr_width(s) >= 0,
    decreases s.len(),
{
    if s.len() > 0 {
        lemma_cstr_width_nonneg(s.drop_last());
        lemma_char_cols(s.last());
    }
}


/// `cstrlen`: the display width of the control string `s`, its `~`
/// markers ignored; a control character counts one column.
pub fn cstrlen(s: &str) -> (r: i32)
    requires
        cstr_width(s@) <= i32::MAX,
    ensures
        r == cstr_width(s@),
{
    let n = s.unicode_len();
    let mut total: i32 = 0;
    let mut k: usize = 0;
    assert(s@.take(0) =~= Seq::<char>::empty());
    while k < n
        invariant
            n == s@.len(),
            k <= n,
            cstr_width(s@) <= i32::MAX,
            total == cstr_width(s@.take(k as int)),
        decreases n - k,
    {
        let c = s.get_char(k);
        assert(s@.take(k as int + 1).drop_last() =~= s@.take(k as int));
        assert(s@.take(k as int + 1).last() == c);
        proof {
            lemma_cstr_width_prefix(s@, k as int + 1);
        }
        if c != '~' {
            let w: i32 = match char_width(c) {
                Some(w) => w as i32,
                None => 1,
            };
            total = total + w;
        }
        k = k + 1;
    }
    assert(s@.take(n as int) =~= s@);
    total
}

/// The display width of the control string `s` (see [`cstrlen`]), or
/// `None` when it exceeds `i32::MAX`.
pub fn checked_cstrlen(s: &str) -> (r: Option<i32>)
    ensures
        match r {
            Some(w) => w == cstr_width(s@),
            None => cstr_width(s@) > i32::MAX,
        },
{
    let n = s.unicode_len();
    let mut total: i64 = 0;
    let mut k: usize = 0;
    assert(s@.take(0) =~= Seq::<char>::empty());
    while k < n
        invariant
            n == s@.len(),
            k <= n,
            total == cstr_width(s@.take(k as int)),
            0 <= total <= i32::MAX,
        decreases n - k,
    {
        let c = s.get_char(k);
        assert(s@.take(k as int + 1).drop_last() =~= s@.take(k as int));
        assert(s@.take(k as int + 1).last() == c);
        if c != '~' {
            let w: i64 = match char_width(c) {
                Some(w) => w as i64,
                None => 1,
            };
            total = total + w;
        }
        if total > i32::MAX as i64 {
            proof {
                lemma_cstr_width_prefix(s@, k as int + 1);
            }
            return None;
        }
        k = k + 1;
    }
    assert(s@.take(n as int) =~= s@);
    Some(total as i32)
}

/// The columns an item takes: its label's width and a space on each side;
/// nothing for an item without a label.
pub open spec fn item_cols(it: StatusItem) -> int {
    match it.text {
        Some(t) => cstr_width(t@) + 2,
        None => 0,
    }
}

/// The column where item `k` starts: the columns of the items before it.
pub open spec fn item_start(items: Seq<StatusItem>, k: int) -> int
    decreases k,
{
    if k <= 0 {
        0
    } else {
        item_start(items, k - 1) + item_cols(items[k - 1])
    }
}

/// The starts grow with the index.
pub proof fn lemma_item_start_mono(items: Seq<StatusItem>, j: int, k: int)
    requires
        0 <= j <= k,
    ensures
        0 <= item_start(items, j) <= item_start(items, k),
    decreases k,
{
    if k > 0 {
        lemma_item_start_mono(items, if j < k { j } else { k - 1 }, k - 1);
        match items[k - 1].text {
            Some(t) => lemma_cstr_width_nonneg(t@),
            None => {},
        }
    }
}

/// The line of items fits the `i32` columns, with room for the hint's
/// separator.
pub open spec fn layout_fits(items: Seq<StatusItem>) -> bool {
    item_start(items, items.len() as int) <= i32::MAX - 2
}

/// The four (plain, shortcut) style pairs a status item is drawn in: normal,
/// selected, disabled and selected-disabled.
#[derive(Clone, Copy, Debug)]
pub struct StatusColors {
    /// An enabled item.
    pub normal: (Style, Style),
    /// An enabled item under the mouse.
    pub select: (Style, Style),
    /// A disabled item.
    pub norm_disabled: (Style, Style),
    /// A disabled item under the mouse.
    pub sel_disabled: (Style, Style),
}

/// The status colours of a theme; a disabled item draws its shortcut like
/// the rest of it.
pub open spec fn colors_of(theme: Theme) -> StatusColors {
    let d = theme.spec_style(Role::StatusDisabled);
    let sd = theme.spec_style(Role::StatusSelDisabled);
    StatusColors {
        normal: (theme.spec_style(Role::StatusNormal), theme.spec_style(Role::StatusShortcut)),
        select: (theme.spec_style(Role::StatusSelect), theme.spec_style(Role::StatusShortcutSelect)),
        norm_disabled: (d, d),
        sel_disabled: (sd, sd),
    }
}

/// The style pair for an item.
pub open spec fn pair_for(c: StatusColors, enabled: bool, selected: bool) -> (Style, Style) {
    if enabled {
        if selected { c.select } else { c.normal }
    } else {
        if selected { c.sel_disabled } else { c.norm_disabled }
    }
}

impl StatusColors {
    /// The status colours of the context's theme.
    pub fn resolve(ctx: &DrawCtx) -> (c: Self)
        ensures
            c == colors_of(ctx.spec_theme()),
    {
        let d = ctx.style(Role::StatusDisabled);
        let sd = ctx.style(Role::StatusSelDisabled);
        StatusColors {
            normal: (ctx.style(Role::StatusNormal), ctx.style(Role::StatusShortcut)),
            select: (ctx.style(Role::StatusSelect), ctx.style(Role::StatusShortcutSelect)),
            norm_disabled: (d, d),
            sel_disabled: (sd, sd),
        }
    }

    /// The style pair for an item that is (not) enabled and (not) selected.
    pub fn item(&self, enabled: bool, selected: bool) -> (r: (Style, Style))
        ensures
            r == pair_for(*self, enabled, selected),
    {
        if enabled {
            if selected { self.select } else { self.normal }
        } else {
            if selected { self.sel_disabled } else { self.norm_disabled }
        }
    }
}

/// The separator drawn before the hint: a vertical bar and a space.
pub open spec fn hint_separator() -> Seq<char> {
    seq!['\u{2502}', ' ']
}

/// Is `r` the index of the first definition covering `ctx`, or `None` when
/// none does?
pub open spec fn is_first_match(defs: Seq<StatusDef>, ctx: HelpCtx, r: Option<usize>) -> bool {
    match r {
        Some(i) => i < defs.len() && range_matches(defs[i as int].range, ctx)
            && forall|k: int| 0 <= k < i ==> !range_matches(#[trigger] defs[k].range, ctx),
        None => forall|k: int| 0 <= k < defs.len() ==> !range_matches(#[trigger] defs[k].range, ctx),
    }
}

/// The state of a fresh status line over `bounds`: it grows with the
/// screen's bottom and right edges and pre-processes events.
pub open spec fn status_state(bounds: Rect) -> ViewState {
    let st = fresh_view_state(bounds);
    ViewState {
        grow_mode: GrowMode { lo_y: true, hi_x: true, hi_y: true, ..st.grow_mode },
        options: Options { pre_process: true, ..st.options },
        ..st
    }
}

/// The status line (`TStatusLine`).
pub struct StatusLine {
    state: ViewState,
    defs: Vec<StatusDef>,
    items_def: Option<usize>,
    help_ctx: HelpCtx,
    cmd_set: Option<CommandSet>,
}

/// What handling `ev` does, `ev2` and `ctx2` being the event and the
/// context afterwards: a command-set change broadcast defers a menu update;
/// a mouse press posts the command of the enabled item under the mouse and
/// is consumed; anything else is left alone.
pub open spec fn status_handled(line: StatusLine, ev: Event, ev2: Event, ctx: Context, ctx2: Context) -> bool {
    match ev {
        Event::Broadcast { command, .. } => {
            &&& ev2 == ev
            &&& ctx2.out@ =~= ctx.out@
            &&& ctx2.deferred@ =~= ctx.deferred@ + if command == Command::CommandSetChanged && line.spec_state().id is Some {
                seq![Deferred::UpdateMenu(line.spec_state().id->0)]
            } else {
                Seq::empty()
            }
        },
        Event::MouseDown(m) => {
            &&& ev2 == Event::Nothing
            &&& ctx2.deferred@ =~= ctx.deferred@
            &&& ctx2.out@ =~= ctx.out@ + match hit_item(line.spec_items(), m.position) {
                Some(k) => if line.spec_enabled(line.spec_items()[k as int].command) {
                    seq![Event::Command(line.spec_items()[k as int].command)]
                } else {
                    Seq::empty()
                },
                None => Seq::empty(),
            }
        },
        _ => {
            &&& ev2 == ev
            &&& ctx2.out@ =~= ctx.out@
            &&& ctx2.deferred@ =~= ctx.deferred@
        },
    }
}

impl StatusLine {
    /// The view state.
    pub closed spec fn spec_state(&self) -> ViewState {
        self.state
    }

    /// The definitions.
    pub closed spec fn spec_defs(&self) -> Seq<StatusDef> {
        self.defs@
    }

    /// The selected definition.
    pub closed spec fn spec_items_def(&self) -> Option<usize> {
        self.items_def
    }

    /// The current help context.
    pub closed spec fn spec_help_ctx(&self) -> HelpCtx {
        self.help_ctx
    }

    /// The enabled commands last handed over, if any.
    pub closed spec fn spec_cmd_set(&self) -> Option<Set<Command>> {
        match self.cmd_set {
            Some(cs) => Some(cs.spec_codes()),
            None => None,
        }
    }

    /// Is `cmd` enabled? Before any command set was handed over, every
    /// command is.
    pub open spec fn spec_enabled(&self, cmd: Command) -> bool {
        match self.spec_cmd_set() {
            Some(s) => s.contains(cmd),
            None => true,
        }
    }

    /// The items of the selected definition (none when none is selected).
    pub open spec fn spec_items(&self) -> Seq<StatusItem> {
        match self.spec_items_def() {
            Some(i) => if i < self.spec_defs().len() { self.spec_defs()[i as int].items@ } else { Seq::empty() },
            None => Seq::empty(),
        }
    }

    /// A status line over `bounds` presenting `defs`, with no help context
    /// and no command set yet (`TStatusLine::TStatusLine`).
    pub fn new(bounds: Rect, defs: Vec<StatusDef>) -> (sl: Self)
        requires
            bounds_fit(bounds),
        ensures
            sl.spec_state() == status_state(bounds),
            sl.spec_defs() == defs@,
            sl.spec_help_ctx() == HelpCtx::NoContext,
            is_first_match(defs@, HelpCtx::NoContext, sl.spec_items_def()),
            sl.spec_cmd_set() is None,
    {
        let mut state = ViewState::new(bounds);
        state.grow_mode.lo_y = true;
        state.grow_mode.hi_x = true;
        state.grow_mode.hi_y = true;
        state.options.pre_process = true;
        let mut sl = StatusLine { state, defs, items_def: None, help_ctx: HelpCtx::NoContext, cmd_set: None };
        sl.find_items();
        sl
    }

    /// Select the first definition covering the help context
    /// (`TStatusLine::findItems`); none when none does.
    pub fn find_items(&mut self)
        ensures
            is_first_match(old(self).spec_defs(), old(self).spec_help_ctx(), final(self).spec_items_def()),
            final(self).spec_defs() == old(self).spec_defs(),
            final(self).spec_help_ctx() == old(self).spec_help_ctx(),
            final(self).spec_state() == old(self).spec_state(),
            final(self).spec_cmd_set() == old(self).spec_cmd_set(),
    {
        self.items_def = first_covering(&self.defs, self.help_ctx);
    }

    /// Set the help context and reselect the definition.
    pub fn set_help_ctx(&mut self, ctx: HelpCtx)
        ensures
            final(self).spec_help_ctx() == ctx,
            is_first_match(old(self).spec_defs(), ctx, final(self).spec_items_def()),
            final(self).spec_defs() == old(self).spec_defs(),
            final(self).spec_state() == old(self).spec_state(),
            final(self).spec_cmd_set() == old(self).spec_cmd_set(),
    {
        self.help_ctx = ctx;
        self.find_items();
    }

    /// The help context.
    pub fn help_ctx(&self) -> (r: HelpCtx)
        ensures
            r == self.spec_help_ctx(),
    {
        self.help_ctx
    }

    /// The items of the selected definition (none when none is selected).
    pub fn items(&self) -> (r: &[StatusItem])
        ensures
            r@ == self.spec_items(),
    {
        match self.items_def {
            Some(i) => {
                if i < self.defs.len() {
                    self.defs[i].items.as_slice()
                } else {
                    let e: &[StatusItem] = &[];
                    assert(e@ =~= Seq::<StatusItem>::empty());
                    e
                }
            },
            None => {
                let e: &[StatusItem] = &[];
                assert(e@ =~= Seq::<StatusItem>::empty());
                e
            },
        }
    }

    /// Is `command` enabled by the last command set handed over (every
    /// command is before the first)?
    pub fn command_enabled(&self, command: Command) -> (r: bool)
        ensures
            r == self.spec_enabled(command),
    {
        match &self.cmd_set {
            Some(cs) => cs.has(command),
            None => true,
        }
    }

    /// Do the labelled items fit the line's `i32` columns with room for the
    /// hint's separator (the bound [`draw`](StatusLine::draw),
    /// [`handle_event`](StatusLine::handle_event) and
    /// [`item_mouse_is_in`](StatusLine::item_mouse_is_in) ask for)?
    pub fn layout_fits(&self) -> (r: bool)
        ensures
            r == layout_fits(self.spec_items()),
    {
        let items = self.items();
        let n = items.len();
        let ghost its = self.spec_items();
        let mut total: i64 = 0;
        let mut k: usize = 0;
        while k < n
            invariant
                its == self.spec_items(),
                items@ == its,
                n == its.len(),
                k <= n,
                total == item_start(its, k as int),
                0 <= total <= i32::MAX - 2,
            decreases n - k,
        {
            let cols: i64 = match &items[k].text {
                Some(t) => match checked_cstrlen(t.as_str()) {
                    Some(w) => {
                        proof {
                            lemma_cstr_width_nonneg(t@);
                        }
                        w as i64 + 2
                    },
                    None => {
                        proof {
                            lemma_item_start_mono(its, k as int + 1, n as int);
                            lemma_item_start_mono(its, 0, k as int);
                        }
                        return false;
                    },
                },
                None => 0,
            };
            total = total + cols;
            if total > (i32::MAX - 2) as i64 {
                proof {
                    lemma_item_start_mono(its, k as int + 1, n as int);
                }
                return false;
            }
            k = k + 1;
        }
        true
    }

    /// The item whose span (its label and the space on either side) holds
    /// the view-local `mouse`, on the line's row (`itemMouseIsIn`).
    pub fn item_mouse_is_in(&self, mouse: Point) -> (r: Option<usize>)
        requires
            layout_fits(self.spec_items()),
        ensures
            r == hit_item(self.spec_items(), mouse),
            r is Some ==> r->0 < self.spec_items().len(),
    {
        if mouse.y != 0 {
            return None;
        }
        let items = self.items();
        let ghost its = self.spec_items();
        let mut i: i32 = 0;
        let mut idx: usize = 0;
        while idx < items.len()
            invariant
                items@ == its,
                its == self.spec_items(),
                layout_fits(its),
                mouse.y == 0,
                idx <= its.len(),
                i == item_start(its, idx as int),
                forall|j: int| 0 <= j < idx ==> !in_span(its, j, mouse.x as int),
            decreases its.len() - idx,
        {
            proof {
                lemma_item_start_mono(its, idx as int + 1, its.len() as int);
                lemma_item_start_mono(its, idx as int, idx as int + 1);
            }
            if let Some(text) = &items[idx].text {
                proof {
                    lemma_cstr_width_nonneg(text@);
                }
                let k = i + cstrlen(text.as_str()) + 2;
                if mouse.x >= i && mouse.x < k {
                    assert(its[idx as int].text == Some(*text));
                    assert(in_span(its, idx as int, mouse.x as int));
                    proof {
                        lemma_hit_first(its, idx as int, mouse);
                    }
                    return Some(idx);
                }
                i = k;
            }
            idx = idx + 1;
        }
        proof {
            lemma_hit_none(its, mouse);
        }
        None
    }
}

/// The index of the first definition covering `ctx`, if any.
pub fn first_covering(defs: &Vec<StatusDef>, ctx: HelpCtx) -> (r: Option<usize>)
    ensures
        is_first_match(defs@, ctx, r),
{
    let mut i: usize = 0;
    while i < defs.len()
        invariant
            i <= defs@.len(),
            forall|k: int| 0 <= k < i ==> !range_matches(#[trigger] defs@[k].range, ctx),
        decreases defs@.len() - i,
    {
        if defs[i].range.matches(ctx) {
            return Some(i);
        }
        i = i + 1;
    }
    None
}

/// Does item `k` have a label whose span holds column `x`?
pub open spec fn in_span(items: Seq<StatusItem>, k: int, x: int) -> bool {
    items[k].text is Some && item_start(items, k) <= x < item_start(items, k) + item_cols(items[k])
}

/// The first item whose span holds the view-local point `p` on the line's
/// row, if any.
pub open spec fn hit_item(items: Seq<StatusItem>, p: Point) -> Option<usize> {
    if p.y != 0 {
        None
    } else if exists|k: int| 0 <= k < items.len() && in_span(items, k, p.x as int) {
        let k = choose|k: int| 0 <= k < items.len() && in_span(items, k, p.x as int)
            && forall|j: int| 0 <= j < k ==> !in_span(items, j, p.x as int);
        Some(k as usize)
    } else {
        None
    }
}

/// The spans are disjoint: a hit on item `k` with none before is the hit.
proof fn lemma_hit_first(items: Seq<StatusItem>, k: int, p: Point)
    requires
        p.y == 0,
        0 <= k < items.len(),
        in_span(items, k, p.x as int),
        forall|j: int| 0 <= j < k ==> !in_span(items, j, p.x as int),
        k <= usize::MAX,
    ensures
        hit_item(items, p) == Some(k as usize),
{
    let x = p.x as int;
    assert(exists|m: int| 0 <= m < items.len() && in_span(items, m, x));
    let m = choose|m: int| 0 <= m < items.len() && in_span(items, m, x)
        && forall|j: int| 0 <= j < m ==> !in_span(items, j, x);
    assert(0 <= k < items.len() && in_span(items, k, x) && forall|j: int| 0 <= j < k ==> !in_span(items, j, x));
    if m != k {
        if m < k {
        } else {
            assert(!in_span(items, k, x));
        }
    }
}

/// No span holds the point: no hit.
proof fn lemma_hit_none(items: Seq<StatusItem>, p: Point)
    requires
        p.y == 0,
        forall|j: int| 0 <= j < items.len() ==> !in_span(items, j, p.x as int),
    ensures
        hit_item(items, p) is None,
{
}


/// The operations drawing item `k` of the line: a space, its label and a
/// space in the item's colours, when the label starts left of
/// `size.x - width`; nothing for an item without a label.
pub open spec fn status_item_ops(line: StatusLine, c: StatusColors, k: int) -> Seq<DrawOp> {
    let items = line.spec_items();
    match items[k].text {
        Some(t) => {
            let i = item_start(items, k);
            let l = cstr_width(t@);
            if i + l < line.spec_state().size.x {
                let (lo, hi) = pair_for(c, line.spec_enabled(items[k].command), false);
                seq![
                    DrawOp::Text(i, 0, seq![' '], lo),
                    DrawOp::CText(i + 1, 0, t@, lo, hi),
                    DrawOp::Text(i + l + 1, 0, seq![' '], lo),
                ]
            } else {
                Seq::empty()
            }
        },
        None => Seq::empty(),
    }
}

/// The operations drawing the first `n` items.
pub open spec fn status_items_ops(line: StatusLine, c: StatusColors, n: int) -> Seq<DrawOp>
    decreases n,
{
    if n <= 0 {
        Seq::empty()
    } else {
        status_items_ops(line, c, n - 1) + status_item_ops(line, c, n - 1)
    }
}

/// The operations drawing the hint after the items: the separator and the
/// hint, when the hint is not empty and there are more than two columns
/// left.
pub open spec fn status_hint_ops(line: StatusLine, c: StatusColors, hint: Option<Seq<char>>) -> Seq<DrawOp> {
    let items = line.spec_items();
    let i = item_start(items, items.len() as int);
    match hint {
        Some(t) => if i < line.spec_state().size.x - 2 && t.len() > 0 {
            seq![DrawOp::Text(i, 0, hint_separator(), c.normal.0), DrawOp::Text(i + 2, 0, t, c.normal.0)]
        } else {
            Seq::empty()
        },
        None => Seq::empty(),
    }
}

/// Everything `draw` does: blank the row, draw the items, then the hint.
pub open spec fn status_draw_ops(line: StatusLine, theme: Theme, hint: Option<Seq<char>>) -> Seq<DrawOp> {
    let c = colors_of(theme);
    let fill = DrawOp::Fill(
        Rect { a: Point { x: 0, y: 0 }, b: Point { x: line.spec_state().size.x, y: 1 } },
        ' ',
        c.normal.0,
    );
    seq![fill] + status_items_ops(line, c, line.spec_items().len() as int) + status_hint_ops(line, c, hint)
}

/// An empty hint draws exactly what no hint draws: neither the separator
/// nor a hint tail.
pub proof fn law_empty_hint_draws_nothing(line: StatusLine, theme: Theme)
    ensures
        status_draw_ops(line, theme, Some(Seq::<char>::empty())) == status_draw_ops(line, theme, None),
{
}

/// The characters of an optional string.
pub open spec fn opt_view(s: Option<&str>) -> Option<Seq<char>> {
    match s {
        Some(t) => Some(t@),
        None => None,
    }
}

impl StatusLine {
    /// Draw the line (`TStatusLine::draw`): blank the row in the normal
    /// colour, lay out the labelled items left to right (each with a space
    /// on either side, greyed when its command is disabled, skipped when it
    /// does not fit), then the separator and `hint` (the hint for the
    /// current help context, if any) when there is room.
    pub fn draw(&self, ctx: &mut DrawCtx, hint: Option<&str>)
        requires
            old(ctx).wf(),
            layout_fits(self.spec_items()),
        ensures
            final(ctx).wf(),
            final(ctx).same_frame(old(ctx)),
            final(ctx).spec_cells() == apply_ops(old(ctx).frame(), old(ctx).spec_cells(),
                status_draw_ops(*self, old(ctx).spec_theme(), opt_view(hint))),
    {
        let colors = StatusColors::resolve(ctx);
        let size = self.state.size;
        let ghost theme = ctx.spec_theme();
        let ghost fr = ctx.frame();
        let ghost start = ctx.spec_cells();
        let ghost fill = DrawOp::Fill(Rect { a: Point { x: 0, y: 0 }, b: Point { x: size.x, y: 1 } }, ' ', colors.normal.0);
        ctx.fill(Rect::new(0, 0, size.x, 1), ' ', colors.normal.0);
        proof {
            lemma_apply_single(fr, start, fill);
            assert(seq![fill] + status_items_ops(*self, colors, 0) =~= seq![fill]);
        }
        let items = self.items();
        let ghost its = self.spec_items();
        let mut i: i32 = 0;
        let mut k: usize = 0;
        while k < items.len()
            invariant
                items@ == its,
                its == self.spec_items(),
                layout_fits(its),
                size == self.state.size,
                colors == colors_of(theme),
                theme == ctx.spec_theme(),
                fr == ctx.frame(),
                fr == old(ctx).frame(),
                start == old(ctx).spec_cells(),
                fill == DrawOp::Fill(Rect { a: Point { x: 0, y: 0 }, b: Point { x: size.x, y: 1 } }, ' ', colors.normal.0),
                ctx.wf(),
                ctx.same_frame(old(ctx)),
                k <= its.len(),
                i == item_start(its, k as int),
                ctx.spec_cells() == apply_ops(fr, start, seq![fill] + status_items_ops(*self, colors, k as int)),
            decreases its.len() - k,
        {
            proof {
                lemma_item_start_mono(its, k as int + 1, its.len() as int);
                lemma_item_start_mono(its, k as int, k as int + 1);
            }
            let ghost before = ctx.spec_cells();
            let ghost ops = status_item_ops(*self, colors, k as int);
            if let Some(text) = &items[k].text {
                proof {
                    lemma_cstr_width_nonneg(text@);
                }
                let l = cstrlen(text.as_str());
                if i + l < size.x {
                    let enabled = self.command_enabled(items[k].command);
                    let (lo, hi) = colors.item(enabled, false);
                    ctx.put_char(i, 0, ' ', lo);
                    let ghost c1 = ctx.spec_cells();
                    ctx.put_cstr(i + 1, 0, text.as_str(), lo, hi);
                    let ghost c2 = ctx.spec_cells();
                    ctx.put_char(i + l + 1, 0, ' ', lo);
                    proof {
                        let a = DrawOp::Text(i as int, 0, seq![' '], lo);
                        let b = DrawOp::CText(i + 1, 0, text@, lo, hi);
                        let c = DrawOp::Text(i + l + 1, 0, seq![' '], lo);
                        assert(ops =~= seq![a] + seq![b] + seq![c]);
                        lemma_single_char_text(fr, before, i as int, 0, ' ', lo);
                        lemma_single_char_text(fr, c2, i + l + 1, 0, ' ', lo);
                        lemma_apply_single(fr, before, a);
                        lemma_apply_single(fr, c1, b);
                        lemma_apply_single(fr, c2, c);
                        lemma_apply_ops_append(fr, before, seq![a], seq![b]);
                        lemma_apply_ops_append(fr, before, seq![a] + seq![b], seq![c]);
                    }
                } else {
                    assert(ops =~= Seq::<DrawOp>::empty());
                }
                i = i + l + 2;
            } else {
                assert(ops =~= Seq::<DrawOp>::empty());
            }
            proof {
                assert(apply_ops(fr, before, ops) == ctx.spec_cells());
                lemma_apply_ops_append(fr, start, seq![fill] + status_items_ops(*self, colors, k as int), ops);
                assert(seq![fill] + status_items_ops(*self, colors, k as int + 1)
                    =~= (seq![fill] + status_items_ops(*self, colors, k as int)) + ops);
            }
            k = k + 1;
        }
        let ghost after_items = ctx.spec_cells();
        let ghost hops = status_hint_ops(*self, colors, opt_view(hint));
        let sep = "\u{2502} ";
        proof {
            reveal_strlit("\u{2502} ");
            assert(sep@ =~= hint_separator());
        }
        if (i as i64) < (size.x as i64) - 2 {
            match hint {
                Some(text) => {
                    if text.unicode_len() > 0 {
                        ctx.put_str(i, 0, sep, colors.normal.0);
                        let ghost c1 = ctx.spec_cells();
                        ctx.put_str(i + 2, 0, text, colors.normal.0);
                        proof {
                            let a = DrawOp::Text(i as int, 0, hint_separator(), colors.normal.0);
                            let b = DrawOp::Text(i + 2, 0, text@, colors.normal.0);
                            assert(hops =~= seq![a] + seq![b]);
                            lemma_apply_single(fr, after_items, a);
                            lemma_apply_single(fr, c1, b);
                            lemma_apply_ops_append(fr, after_items, seq![a], seq![b]);
                        }
                    } else {
                        assert(hops =~= Seq::<DrawOp>::empty());
                    }
                },
                None => {
                    assert(hops =~= Seq::<DrawOp>::empty());
                },
            }
        } else {
            assert(hops =~= Seq::<DrawOp>::empty());
        }
        proof {
            assert(apply_ops(fr, after_items, hops) == ctx.spec_cells());
            lemma_apply_ops_append(fr, start, seq![fill] + status_items_ops(*self, colors, its.len() as int), hops);
        }
    }

    /// Draw the line when its items fit the line's columns (see
    /// [`layout_fits`](StatusLine::layout_fits) and
    /// [`draw`](StatusLine::draw)); otherwise draw nothing. Says whether it
    /// drew.
    pub fn draw_checked(&self, ctx: &mut DrawCtx, hint: Option<&str>) -> (r: bool)
        requires
            old(ctx).wf(),
        ensures
            r == layout_fits(self.spec_items()),
            r ==> final(ctx).wf() && final(ctx).same_frame(old(ctx)) && final(ctx).spec_cells() == apply_ops(
                old(ctx).frame(),
                old(ctx).spec_cells(),
                status_draw_ops(*self, old(ctx).spec_theme(), opt_view(hint)),
            ),
            !r ==> *final(ctx) == *old(ctx),
    {
        if self.layout_fits() {
            self.draw(ctx, hint);
            true
        } else {
            false
        }
    }

    /// Handle an event when the items fit the line's columns (see
    /// [`layout_fits`](StatusLine::layout_fits) and
    /// [`handle_event`](StatusLine::handle_event)); otherwise leave the
    /// event and the context alone. Says whether it handled the event.
    pub fn handle_event_checked(&mut self, ev: &mut Event, ctx: &mut Context) -> (r: bool)
        ensures
            r == layout_fits(old(self).spec_items()),
            *final(self) == *old(self),
            r ==> status_handled(*old(self), *old(ev), *final(ev), *old(ctx), *final(ctx)),
            !r ==> *final(ev) == *old(ev) && *final(ctx) == *old(ctx),
    {
        if self.layout_fits() {
            self.handle_event(ev, ctx);
            true
        } else {
            false
        }
    }

    /// Handle an event (`TStatusLine::handleEvent`): a command-set change
    /// asks for the enabled commands to be handed over again; a mouse press
    /// on an item whose command is enabled posts that command, and every
    /// mouse press is consumed.
    pub fn handle_event(&mut self, ev: &mut Event, ctx: &mut Context)
        requires
            layout_fits(old(self).spec_items()),
        ensures
            *final(self) == *old(self),
            status_handled(*old(self), *old(ev), *final(ev), *old(ctx), *final(ctx)),
    {
        match *ev {
            Event::Broadcast { command, .. } => {
                if command == Command::CommandSetChanged {
                    if let Some(id) = self.state.id() {
                        ctx.request_update_menu(id);
                        return;
                    }
                }
                assert(ctx.deferred@ =~= old(ctx).deferred@ + Seq::<Deferred>::empty());
            },
            Event::MouseDown(m) => {
                match self.item_mouse_is_in(m.position) {
                    Some(idx) => {
                        let items = self.items();
                        let cmd = items[idx].command;
                        if self.command_enabled(cmd) {
                            ctx.post(cmd);
                        } else {
                            assert(ctx.out@ =~= old(ctx).out@ + Seq::<Event>::empty());
                        }
                    },
                    None => {
                        assert(ctx.out@ =~= old(ctx).out@ + Seq::<Event>::empty());
                    },
                }
                ev.clear();
            },
            _ => {},
        }
    }

    /// Take a copy of the enabled commands, so that `draw` greys the items
    /// whose command is disabled.
    pub fn update_menu_commands(&mut self, cs: &CommandSet)
        ensures
            final(self).spec_cmd_set() == Some(cs.spec_codes()),
            final(self).spec_state() == old(self).spec_state(),
            final(self).spec_defs() == old(self).spec_defs(),
            final(self).spec_items_def() == old(self).spec_items_def(),
            final(self).spec_help_ctx() == old(self).spec_help_ctx(),
    {
        self.cmd_set = Some(cs.snapshot());
    }

    /// The enabled commands last handed over, if any.
    pub fn cmd_set(&self) -> (r: Option<&CommandSet>)
        ensures
            match r {
                Some(c) => self.spec_cmd_set() == Some(c.spec_codes()),
                None => self.spec_cmd_set() is None,
            },
    {
        match &self.cmd_set {
            Some(c) => Some(c),
            None => None,
        }
    }

    /// The selected definition's index, if any.
    pub fn selected_def(&self) -> (r: Option<usize>)
        ensures
            r == self.spec_items_def(),
    {
        self.items_def
    }

    /// The view state.
    pub fn state(&self) -> (r: &ViewState)
        ensures
            *r == self.spec_state(),
    {
        &self.state
    }

    /// The view state, for the owner to update (its id, its geometry).
    pub fn state_mut(&mut self) -> (r: &mut ViewState)
        ensures
            *r == old(self).spec_state(),
            final(self).spec_state() == *final(r),
            final(self).spec_defs() == old(self).spec_defs(),
            final(self).spec_items_def() == old(self).spec_items_def(),
            final(self).spec_help_ctx() == old(self).spec_help_ctx(),
            final(self).spec_cmd_set() == old(self).spec_cmd_set(),
    {
        &mut self.state
    }
}

} // verus!
