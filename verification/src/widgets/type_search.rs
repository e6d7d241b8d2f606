//! Incremental type-to-search for sorted lists: typing characters extends
//! a search prefix taken from the focused item, Backspace shortens it, and
//! `.` jumps to the focused item's extension; the focus follows the first
//! item that starts with the prefix.
use vstd::prelude::*;
use crate::command::Command;
use crate::event::{Event, Key, KeyEvent};
use crate::text::{is_ascii_alpha, ascii_alpha, spec_ci_prefix_eq, ci_prefix_eq, lower};
use crate::view::{Context, Deferred};
use crate::widgets::list_viewer::{self, ListViewerState, focused_state, focus_requests, focus_item_fits};

verus! {

/// The shift bits of a keyboard state (`kbShift`).
pub const KB_SHIFT: u8 = 0x03;

/// What a key press contributes to the search.
#[derive(Clone, Copy, Debug, PartialEq, Eq, Structural)]
pub enum SearchInput {
    /// Backspace: take the last matched character back.
    Back,
    /// `.`: jump to the focused item's `.`.
    Dot,
    /// Any other character: match it next.
    Char(char),
}

/// The search input of a key press; `None` for keys that carry no
/// character.
pub open spec fn search_input(ke: KeyEvent) -> Option<SearchInput> {
    match ke.key {
        Key::Char(c) => if c == '.' { Some(SearchInput::Dot) } else { Some(SearchInput::Char(c)) },
        Key::Backspace => Some(SearchInput::Back),
        _ => None,
    }
}

/// The search input of a key press.
pub fn key_search_input(ke: KeyEvent) -> (r: Option<SearchInput>)
    ensures
        r == search_input(ke),
{
    match ke.key {
        Key::Char(c) => if c == '.' { Some(SearchInput::Dot) } else { Some(SearchInput::Char(c)) },
        Key::Backspace => Some(SearchInput::Back),
        _ => None,
    }
}

/// Is the input an ASCII letter (such a key is consumed even when nothing
/// matches)?
pub open spec fn is_alpha_input(input: SearchInput) -> bool {
    input matches SearchInput::Char(c) && is_ascii_alpha(c)
}

/// The shift bits held with a key press.
pub open spec fn shift_bits(ke: KeyEvent) -> u8 {
    if ke.modifiers.shift { KB_SHIFT } else { 0 }
}

/// The index of the first `c` in `s`, or -1.
pub open spec fn find_char(s: Seq<char>, c: char) -> int
    decreases s.len(),
{
    if s.len() == 0 {
        -1
    } else if s[0] == c {
        0
    } else {
        let r = find_char(s.drop_first(), c);
        if r < 0 { -1 } else { r + 1 }
    }
}

/// The first position holding `c`, characterised.
pub proof fn lemma_find_char(s: Seq<char>, c: char, i: int)
    requires
        0 <= i <= s.len(),
        forall|k: int| 0 <= k < i ==> s[k] != c,
        i == s.len() || s[i] == c,
    ensures
        find_char(s, c) == if i == s.len() { -1 } else { i },
    decreases s.len(),
{
    if s.len() > 0 && i > 0 {
        lemma_find_char(s.drop_first(), c, i - 1);
    }
}

/// The position of the first `c` in `v`, if any.
pub fn find_char_index(v: &[char], c: char) -> (r: Option<usize>)
    ensures
        match r {
            Some(i) => i == find_char(v@, c) && i < v@.len(),
            None => find_char(v@, c) == -1,
        },
{
    let mut i: usize = 0;
    while i < v.len()
        invariant
            i <= v@.len(),
            forall|k: int| 0 <= k < i ==> v@[k] != c,
        decreases v@.len() - i,
    {
        if v[i] == c {
            proof {
                lemma_find_char(v@, c, i as int);
            }
            return Some(i);
        }
        i = i + 1;
    }
    proof {
        lemma_find_char(v@, c, i as int);
    }
    None
}

/// `n` clamped into `0..=len`.
pub open spec fn clamp_len(n: int, len: int) -> int {
    if n < 0 { 0 } else if n > len { len } else { n }
}

/// The search position and the search text after `input`, given the
/// position `pos` and the focused item's text `cur`; `None` when Backspace
/// has nothing to take back. The search text is `cur` cut after the new
/// position (Backspace), `cur` itself (`.`), or `cur` with the typed
/// character at the new position and cut there.
pub open spec fn edited(pos: int, input: SearchInput, cur: Seq<char>) -> Option<(int, Seq<char>)> {
    match input {
        SearchInput::Back => if pos == -1 {
            None
        } else {
            Some((pos - 1, cur.take(clamp_len(pos, cur.len() as int))))
        },
        SearchInput::Dot => Some((find_char(cur, '.'), cur)),
        SearchInput::Char(c) => {
            let p = pos + 1;
            Some((p, if p < cur.len() { cur.update(p, c).take(p + 1) } else { cur.push(c) }))
        },
    }
}

/// Does this step capture the shift state (the search starts or empties)?
pub open spec fn shift_moment(input: SearchInput, p: int) -> bool {
    (input is Back && p == -1) || (input is Char && p == 0)
}

/// Apply a search input (see [`edited`]).
pub fn edit_search(pos: i32, input: SearchInput, cur: Vec<char>) -> (r: Option<(i32, Vec<char>)>)
    requires
        -1 <= pos < i32::MAX,
        cur@.len() < i32::MAX,
    ensures
        match (r, edited(pos as int, input, cur@)) {
            (Some((p, t)), Some((sp, st))) => p == sp && t@ == st,
            (None, None) => true,
            _ => false,
        },
        r matches Some((p, _)) ==> -1 <= p && (p <= pos + 1 || p < cur@.len()),
{
    match input {
        SearchInput::Back => {
            if pos == -1 {
                return None;
            }
            let mut cur = cur;
            let keep = pos as usize;
            let ghost c0 = cur@;
            cur.truncate(keep);
            assert(cur@ =~= c0.take(clamp_len(pos as int, c0.len() as int)));
            Some((pos - 1, cur))
        },
        SearchInput::Dot => {
            let mut i: usize = 0;
            while i < cur.len()
                invariant
                    i <= cur@.len(),
                    cur@.len() < i32::MAX,
                    input == SearchInput::Dot,
                    forall|k: int| 0 <= k < i ==> cur@[k] != '.',
                decreases cur@.len() - i,
            {
                if cur[i] == '.' {
                    proof {
                        lemma_find_char(cur@, '.', i as int);
                    }
                    return Some((i as i32, cur));
                }
                i = i + 1;
            }
            proof {
                lemma_find_char(cur@, '.', i as int);
            }
            Some((-1, cur))
        },
        SearchInput::Char(c) => {
            let mut cur = cur;
            let p = pos + 1;
            let idx = p as usize;
            let ghost c0 = cur@;
            if idx < cur.len() {
                cur.set(idx, c);
                cur.truncate(idx + 1);
                assert(cur@ =~= c0.update(p as int, c).take(p + 1));
            } else {
                cur.push(c);
            }
            Some((p, cur))
        },
    }
}

/// Was the event the owner's notice that the list lost the focus?
pub open spec fn is_released(ev: Event) -> bool {
    ev matches Event::Broadcast { command, .. } && command == Command::ReleasedFocus
}

/// Is `ev` the notice that the list lost the focus?
pub fn released(ev: &Event) -> (r: bool)
    ensures
        r == is_released(*ev),
{
    match ev {
        Event::Broadcast { command, .. } => *command == Command::ReleasedFocus,
        _ => false,
    }
}

/// The search position after the base list handled the event: any focus
/// move or loss of focus ends the search.
pub open spec fn reset_pos(old_focused: int, lv1: ListViewerState, ev1: Event, pos: int) -> int {
    if old_focused != lv1.focused || is_released(ev1) { -1 } else { pos }
}

/// Does the step find an item? `value` (the search's answer for the
/// search text `key`) must exist and start with the typed prefix.
pub open spec fn confirms(lv1: ListViewerState, key: Seq<char>, found: Seq<char>, value: int, p: int) -> bool {
    value < lv1.range && spec_ci_prefix_eq(key, found, clamp_len(p + 1, p + 1))
}

/// Are `a` and `b` the same character once ASCII case is ignored: equal, or
/// the capital and small form of one ASCII letter?
pub open spec fn same_ignoring_case(a: char, b: char) -> bool {
    ||| a == b
    ||| 'A' <= a <= 'Z' && b as int == a as int + 32
    ||| 'A' <= b <= 'Z' && a as int == b as int + 32
}

/// Lower-casing two characters gives the same one exactly when they are the
/// same ignoring ASCII case.
proof fn lemma_lower_same(a: char, b: char)
    ensures
        (lower(a) == lower(b)) <==> same_ignoring_case(a, b),
{
    assert(lower(a) as int == if 'A' <= a <= 'Z' { a as int + 32 } else { a as int });
    assert(lower(b) as int == if 'A' <= b <= 'Z' { b as int + 32 } else { b as int });
}

/// A search step confirms the item at the search's answer exactly when that
/// item exists and its first `p + 1` characters are those of the search text
/// with ASCII case ignored (`strnicmp`): an item spelled with other capitals
/// than the typed text is found all the same.
pub proof fn law_search_confirms_ignoring_case(lv: ListViewerState, key: Seq<char>, found: Seq<char>, value: int, p: int)
    requires
        -1 <= p,
    ensures
        confirms(lv, key, found, value, p) <==> {
            &&& value < lv.range
            &&& key.len() >= p + 1
            &&& found.len() >= p + 1
            &&& forall|i: int| 0 <= i < p + 1 ==> #[trigger] same_ignoring_case(key[i], found[i])
        },
{
    assert(clamp_len(p + 1, p + 1) == p + 1);
    assert forall|i: int| 0 <= i < p + 1 implies (lower(#[trigger] key[i]) == lower(found[i])) == same_ignoring_case(key[i], found[i]) by {
        lemma_lower_same(key[i], found[i]);
    }
}

/// The reaction of the incremental search to the event `ev1` the base list
/// left over. `text` gives each item's text, `found_at` the search's answer
/// for a shift state and search text, `capture` the shift state recorded
/// for a key press when the search starts or empties, `old_value` the focus
/// before the base list's handling. Yields the list state, the event, the
/// search position, the shift state and the deferred requests.
pub open spec fn search_reaction(
    lv1: ListViewerState,
    ev1: Event,
    pos0: int,
    shift0: u8,
    text: spec_fn(int) -> Seq<char>,
    found_at: spec_fn(u8, Seq<char>) -> int,
    capture: spec_fn(KeyEvent) -> u8,
    old_value: int,
) -> (ListViewerState, Event, int, u8, Seq<Deferred>) {
    match ev1 {
        Event::KeyDown(ke) => match search_input(ke) {
            None => (lv1, ev1, pos0, shift0, Seq::empty()),
            Some(input) => {
                let cur = if lv1.focused < lv1.range { text(lv1.focused as int) } else { Seq::empty() };
                match edited(pos0, input, cur) {
                    None => (lv1, ev1, pos0, shift0, Seq::empty()),
                    Some((p, key)) => {
                        let shift = if shift_moment(input, p) { capture(ke) } else { shift0 };
                        let value = found_at(shift, key);
                        let ok = confirms(lv1, key, text(value), value, p);
                        let pos = if ok { p } else { pos0 };
                        let moves = ok && value != old_value;
                        (
                            if moves { focused_state(lv1, value) } else { lv1 },
                            if pos != pos0 || is_alpha_input(input) { Event::Nothing } else { ev1 },
                            pos,
                            shift,
                            if moves { focus_requests(lv1, value) } else { Seq::empty() },
                        )
                    },
                }
            },
        },
        _ => (lv1, ev1, pos0, shift0, Seq::empty()),
    }
}

/// Settle a search step: when the search's answer `value` exists and its
/// text `found` starts with the typed prefix, keep the new position `p`
/// and focus the item (unless it was focused before the event); otherwise
/// fall back to `pos0`.
pub fn settle(
    lv: &mut ListViewerState,
    key: &Vec<char>,
    found: &Vec<char>,
    value: i32,
    p: i32,
    pos0: i32,
    old_value: i32,
    ctx: &mut Context,
) -> (pos: i32)
    requires
        -1 <= p < i32::MAX,
        confirms(*old(lv), key@, found@, value as int, p as int) && value != old_value
            ==> focus_item_fits(*old(lv), value as int),
    ensures
        ({
            let ok = confirms(*old(lv), key@, found@, value as int, p as int);
            let moves = ok && value != old_value;
            &&& pos == if ok { p } else { pos0 }
            &&& *final(lv) == if moves { focused_state(*old(lv), value as int) } else { *old(lv) }
            &&& final(ctx).deferred@ == old(ctx).deferred@ + if moves {
                focus_requests(*old(lv), value as int)
            } else {
                Seq::empty()
            }
            &&& final(ctx).out@ == old(ctx).out@
        }),
{
    let prefix_len = (p + 1) as usize;
    if value < lv.range && ci_prefix_eq(key.as_slice(), found.as_slice(), prefix_len) {
        if value != old_value {
            list_viewer::focus_item(lv, value, ctx);
        } else {
            assert(ctx.deferred@ =~= old(ctx).deferred@ + Seq::<Deferred>::empty());
        }
        p
    } else {
        assert(ctx.deferred@ =~= old(ctx).deferred@ + Seq::<Deferred>::empty());
        pos0
    }
}

/// Is the input's character an ASCII letter?
pub fn alpha_input(input: SearchInput) -> (r: bool)
    ensures
        r == is_alpha_input(input),
{
    match input {
        SearchInput::Char(c) => ascii_alpha(c),
        _ => false,
    }
}

/// The shift bits held with a key press.
pub fn key_shift_bits(ke: KeyEvent) -> (r: u8)
    ensures
        r == shift_bits(ke),
{
    if ke.modifiers.shift { KB_SHIFT } else { 0 }
}

} // verus!
