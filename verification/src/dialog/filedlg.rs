//! The file dialog's data: directory entries, file records and their
//! listing order, the sorted file collection, the directory tree list and
//! the file list with its wildcard filter and type-to-search.
use vstd::prelude::*;
use crate::collate::{bsearch, partitioned, lemma_bsearch};
use crate::widgets::type_search::{
    find_char, find_char_index, is_released, confirms, KB_SHIFT, SearchInput, search_reaction, reset_pos, edit_search,
    key_search_input, released, settle, alpha_input, key_shift_bits, shift_bits,
};
use crate::view::geometry::fits_i32;
use crate::text::{chars_of, string_of};
use crate::widgets::list_box::{texts, item_text, selected_broadcast, listing_fits, listed_state, listed_requests, lemma_listed_wf};
use crate::collate::{ci_sort, ci_sorted, law_ci_sorted_permutes};
use crate::data::FieldValue;
use crate::event::{Event, KeyEvent};
use crate::view::geometry::{Point, Rect};
use crate::view::state::{ViewState, StateFlag, bounds_fit};
use crate::view::{Context, Deferred, ViewId};
use crate::view::draw::{DrawCtx, apply_ops};
use crate::widgets::list_viewer::{
    self, ListViewer, ListViewerState, fresh_list_viewer, ranged_state, focused_state,
    range_requests, focus_requests, focus_item_fits, focus_item_fits_check, spec_handle_event, event_fits, cursor_fits,
    spec_focused_cursor, flagged_state, state_events, state_requests, focus_item_num_fits,
    focus_num_state, focus_num_requests, list_draw_ops, lv_wf, lemma_focused_wf, lemma_focus_num_wf,
    lemma_handle_event_wf,
};
use crate::text::{lex_lt, lex_less, lemma_lex_trichotomy, lemma_lex_transitive, lemma_lex_irreflexive};

verus! {

/// A directory-tree row: what the list draws and the directory it stands
/// for (`TDirEntry`).
#[derive(Clone, Debug, PartialEq, Eq)]
pub struct DirEntry {
    /// The drawn text, tree connectors included.
    pub display_text: String,
    /// The directory this row navigates to.
    pub directory: String,
}

impl DirEntry {
    /// A row drawing `display_text` for `directory`.
    pub fn new(display_text: &str, directory: &str) -> (e: Self)
        ensures
            e.display_text@ == display_text@,
            e.directory@ == directory@,
    {
        DirEntry { display_text: display_text.to_owned(), directory: directory.to_owned() }
    }

    /// The drawn text (`TDirEntry::text`).
    pub fn text(&self) -> (r: &str)
        ensures
            r@ == self.display_text@,
    {
        self.display_text.as_str()
    }

    /// The directory (`TDirEntry::dir`).
    pub fn dir(&self) -> (r: &str)
        ensures
            r@ == self.directory@,
    {
        self.directory.as_str()
    }
}

/// The directory bit of a record's attributes.
pub const FA_DIREC: u8 = 0x10;

/// A directory-listing record (`TSearchRec`).
#[derive(Clone, Debug, PartialEq, Eq)]
pub struct SearchRec {
    /// Attribute bits; only [`FA_DIREC`] is examined.
    pub attr: u8,
    /// Packed timestamp.
    pub time: i32,
    /// Size in bytes.
    pub size: i32,
    /// The file or directory name.
    pub name: String,
}

/// A record as plain values.
pub ghost struct RecView {
    pub attr: u8,
    pub time: i32,
    pub size: i32,
    pub name: Seq<char>,
}

impl View for SearchRec {
    type V = RecView;

    open spec fn view(&self) -> RecView {
        RecView { attr: self.attr, time: self.time, size: self.size, name: self.name@ }
    }
}

/// The parent-directory name.
pub open spec fn dotdot() -> Seq<char> {
    seq!['.', '.']
}

/// Does the attribute byte mark a directory?
pub open spec fn is_dir_attr(attr: u8) -> bool {
    (attr & FA_DIREC) != 0
}

/// The listing order of two records as -1, 0 or 1 (`TFileCollection::compare`):
/// equal names are equal, `..` comes last, directories after files, and
/// otherwise names in code-point order.
pub open spec fn listing_order(a: RecView, b: RecView) -> int {
    if a.name == b.name {
        0
    } else if a.name == dotdot() {
        1
    } else if b.name == dotdot() {
        -1
    } else if is_dir_attr(a.attr) && !is_dir_attr(b.attr) {
        1
    } else if is_dir_attr(b.attr) && !is_dir_attr(a.attr) {
        -1
    } else if lex_lt(a.name, b.name) {
        -1
    } else {
        1
    }
}

/// A record's section in a listing: files, then directories, then `..`.
pub open spec fn section(r: RecView) -> int {
    if r.name == dotdot() {
        2
    } else if is_dir_attr(r.attr) {
        1
    } else {
        0
    }
}

/// The strict order of a listing by section, then name.
pub open spec fn listed_before(a: RecView, b: RecView) -> bool {
    section(a) < section(b) || (section(a) == section(b) && lex_lt(a.name, b.name))
}

/// The records are in listing order and no name occurs twice.
pub open spec fn is_listing(s: Seq<RecView>) -> bool {
    forall|i: int, j: int| 0 <= i < j < s.len() ==> #[trigger] listed_before(s[i], s[j]) && s[i].name != #[trigger] s[j].name
}

/// Between records with different names the listing order is the section
/// order.
pub proof fn lemma_order_is_sections(a: RecView, b: RecView)
    requires
        a.name != b.name,
    ensures
        (listing_order(a, b) < 0) == listed_before(a, b),
        listing_order(a, b) != 0,
{
    lemma_lex_trichotomy(a.name, b.name);
}

/// Is `s` the parent-directory name?
pub fn is_dotdot(s: &str) -> (r: bool)
    ensures
        r == (s@ == dotdot()),
{
    if s.unicode_len() != 2 {
        return false;
    }
    let r = s.get_char(0) == '.' && s.get_char(1) == '.';
    proof {
        if r {
            assert(s@ =~= dotdot());
        }
    }
    r
}

/// Does `a` come strictly before `b` in the listing order?
pub fn listing_less(a: &SearchRec, b: &SearchRec) -> (r: bool)
    ensures
        r == (listing_order(a@, b@) < 0),
{
    if a.name == b.name {
        false
    } else if is_dotdot(a.name.as_str()) {
        false
    } else if is_dotdot(b.name.as_str()) {
        true
    } else {
        let a_dir = (a.attr & FA_DIREC) != 0;
        let b_dir = (b.attr & FA_DIREC) != 0;
        if a_dir && !b_dir {
            false
        } else if b_dir && !a_dir {
            true
        } else {
            lex_less(a.name.as_str(), b.name.as_str())
        }
    }
}

/// The records as plain values.
pub open spec fn rec_views(s: Seq<SearchRec>) -> Seq<RecView> {
    s.map_values(|r: SearchRec| r@)
}

/// Where `rec` goes among `s`: the binary-search boundary of the records
/// listed before it.
pub open spec fn insert_point(s: Seq<RecView>, rec: RecView) -> int {
    bsearch(|k: int| listing_order(s[k], rec) < 0, 0, s.len() as int)
}

/// A name-sorted directory listing (`TFileCollection`).
#[derive(Clone, Debug, PartialEq, Eq)]
pub struct FileCollection {
    items: Vec<SearchRec>,
}

impl FileCollection {
    /// The records as plain values.
    pub closed spec fn spec_items(&self) -> Seq<RecView> {
        rec_views(self.items@)
    }

    /// An empty collection.
    pub fn new() -> (fc: Self)
        ensures
            fc.spec_items() == Seq::<RecView>::empty(),
    {
        let fc = FileCollection { items: Vec::new() };
        assert(rec_views(fc.items@) =~= Seq::<RecView>::empty());
        fc
    }

    /// Insert `rec` at its place in the listing order (the boundary a
    /// binary search finds; in a listing that does not hold its name yet,
    /// after exactly the records listed before it).
    pub fn insert(&mut self, rec: SearchRec)
        ensures
            final(self).spec_items() == old(self).spec_items().insert(
                insert_point(old(self).spec_items(), rec@),
                rec@,
            ),
    {
        let ghost s = self.spec_items();
        let ghost pred = |k: int| listing_order(s[k], rec@) < 0;
        let mut lo: usize = 0;
        let mut hi: usize = self.items.len();
        while lo < hi
            invariant
                s == rec_views(self.items@),
                pred == (|k: int| listing_order(s[k], rec@) < 0),
                lo <= hi <= self.items@.len(),
                bsearch(pred, lo as int, hi as int) == insert_point(s, rec@),
            decreases hi - lo,
        {
            let mid = lo + (hi - lo) / 2;
            if listing_less(&self.items[mid], &rec) {
                assert(pred(mid as int));
                lo = mid + 1;
            } else {
                hi = mid;
            }
        }
        proof {
            lemma_bsearch(pred, 0, s.len() as int);
        }
        let ghost rv = rec@;
        self.items.insert(lo, rec);
        assert(rec_views(self.items@) =~= s.insert(lo as int, rv));
    }

    /// The record at `index`, if any.
    pub fn at(&self, index: usize) -> (r: Option<&SearchRec>)
        ensures
            match r {
                Some(x) => index < self.spec_items().len() && x@ == self.spec_items()[index as int],
                None => index >= self.spec_items().len(),
            },
    {
        if index < self.items.len() {
            Some(&self.items[index])
        } else {
            None
        }
    }

    /// The number of records.
    pub fn len(&self) -> (n: usize)
        ensures
            n == self.spec_items().len(),
    {
        self.items.len()
    }

    /// Is the collection empty?
    pub fn is_empty(&self) -> (b: bool)
        ensures
            b == (self.spec_items().len() == 0),
    {
        self.items.len() == 0
    }

    /// The records, in order.
    pub fn items(&self) -> (r: &[SearchRec])
        ensures
            rec_views(r@) == self.spec_items(),
    {
        self.items.as_slice()
    }

    /// The records, in order, by value.
    pub fn into_items(self) -> (r: Vec<SearchRec>)
        ensures
            rec_views(r@) == self.spec_items(),
    {
        self.items
    }
}

/// No two neighbours are out of listing order, and no name occurs twice.
pub open spec fn neighbours_in_order(s: Seq<RecView>) -> bool {
    &&& forall|i: int| 0 <= i < s.len() - 1 ==> listing_order(#[trigger] s[i], s[i + 1]) <= 0
    &&& forall|i: int, j: int| 0 <= i < j < s.len() ==> (#[trigger] s[i]).name != (#[trigger] s[j]).name
}

/// Neighbours in order with distinct names make a listing.
proof fn lemma_neighbours_listing(s: Seq<RecView>)
    requires
        neighbours_in_order(s),
    ensures
        is_listing(s),
{
    assert forall|d: int, i: int| 1 <= d && 0 <= i && i + d < s.len() implies #[trigger] listed_before(s[i], s[i + d]) by {
        lemma_neighbours_step(s, d, i);
    }
    assert forall|i: int, j: int| 0 <= i < j < s.len() implies #[trigger] listed_before(s[i], s[j]) && s[i].name != #[trigger] s[j].name by {
        assert(listed_before(s[i], s[i + (j - i)]));
    }
}

/// Records `d` apart, in a sequence whose neighbours are in order, are in
/// order.
proof fn lemma_neighbours_step(s: Seq<RecView>, d: int, i: int)
    requires
        neighbours_in_order(s),
        1 <= d,
        0 <= i,
        i + d < s.len(),
    ensures
        listed_before(s[i], s[i + d]),
    decreases d,
{
    assert(listing_order(s[i], s[i + 1]) <= 0);
    assert(s[i].name != s[i + 1].name);
    lemma_order_is_sections(s[i], s[i + 1]);
    if d > 1 {
        lemma_neighbours_step(s, d - 1, i + 1);
        lemma_listed_trans(s[i], s[i + 1], s[i + 1 + (d - 1)]);
    }
}

/// Inserting a record with a new name into a collection whose neighbours
/// are in order (`TFileCollection::insert`): the result holds the old
/// records and the new one, as often as before; its neighbours are still in
/// order with no name twice; the old records keep their relative order; and
/// the new record stands at the first position whose old record does not
/// come before it.
pub proof fn law_insert_in_order(s: Seq<RecView>, rec: RecView)
    requires
        neighbours_in_order(s),
        forall|i: int| 0 <= i < s.len() ==> (#[trigger] s[i]).name != rec.name,
    ensures
        ({
            let p = insert_point(s, rec);
            let r = s.insert(p, rec);
            &&& 0 <= p <= s.len()
            &&& r.to_multiset() == s.push(rec).to_multiset()
            &&& neighbours_in_order(r)
            &&& r[p] == rec
            &&& r.remove(p) == s
            &&& forall|k: int| 0 <= k < p ==> listing_order(#[trigger] s[k], rec) < 0
            &&& p < s.len() ==> listing_order(s[p], rec) >= 0
        }),
{
    lemma_neighbours_listing(s);
    law_insert_keeps_listing(s, rec);
    lemma_bsearch(|k: int| listing_order(s[k], rec) < 0, 0, s.len() as int);
    let p = insert_point(s, rec);
    let r = s.insert(p, rec);
    assert forall|k: int| 0 <= k < p implies listing_order(#[trigger] s[k], rec) < 0 by {
        assert(s[k].name != rec.name);
        lemma_order_is_sections(s[k], rec);
    }
    if p < s.len() {
        assert(s[p].name != rec.name);
        lemma_order_is_sections(s[p], rec);
        if listed_before(s[p], rec) {
            lemma_listed_trans(rec, s[p], rec);
            lemma_lex_irreflexive(rec.name);
        }
    }
    lemma_listing_neighbours(r);
    lemma_seq_insert_parts(s, p, rec);
}

/// A listing has its neighbours in order.
proof fn lemma_listing_neighbours(r: Seq<RecView>)
    requires
        is_listing(r),
    ensures
        neighbours_in_order(r),
{
    assert forall|i: int| 0 <= i < r.len() - 1 implies listing_order(#[trigger] r[i], r[i + 1]) <= 0 by {
        let j = i + 1;
        assert(listed_before(r[i], r[j]) && r[i].name != r[j].name);
        lemma_order_is_sections(r[i], r[j]);
    }
    assert forall|i: int, j: int| 0 <= i < j < r.len() implies (#[trigger] r[i]).name != (#[trigger] r[j]).name by {
        assert(listed_before(r[i], r[j]) && r[i].name != r[j].name);
    }
}

/// Inserting `x` at `p` keeps the other elements in order and the
/// elements as often as appending does.
proof fn lemma_seq_insert_parts<A>(s: Seq<A>, p: int, x: A)
    requires
        0 <= p <= s.len(),
    ensures
        s.insert(p, x).remove(p) == s,
        s.insert(p, x).to_multiset() == s.push(x).to_multiset(),
{
    let r = s.insert(p, x);
    assert(r.remove(p) =~= s);
    let a = s.take(p);
    let b = s.skip(p);
    assert(r =~= a + (seq![x] + b));
    assert(s.push(x) =~= a + (b + seq![x]));
    vstd::seq_lib::lemma_multiset_commutative(a, seq![x] + b);
    vstd::seq_lib::lemma_multiset_commutative(seq![x], b);
    vstd::seq_lib::lemma_multiset_commutative(a, b + seq![x]);
    vstd::seq_lib::lemma_multiset_commutative(b, seq![x]);
    assert(seq![x].to_multiset().add(b.to_multiset()) =~= b.to_multiset().add(seq![x].to_multiset()));
}

impl Default for FileCollection {
    /// An empty collection.
    fn default() -> (fc: Self)
        ensures
            fc.spec_items() == Seq::<RecView>::empty(),
    {
        FileCollection::new()
    }
}

/// Inserting a record whose name is new into a listing keeps it a listing,
/// and the record lands after exactly the records listed before it.
pub proof fn law_insert_keeps_listing(s: Seq<RecView>, rec: RecView)
    requires
        is_listing(s),
        forall|i: int| 0 <= i < s.len() ==> (#[trigger] s[i]).name != rec.name,
    ensures
        is_listing(s.insert(insert_point(s, rec), rec)),
        forall|k: int| 0 <= k < insert_point(s, rec) ==> listed_before(#[trigger] s[k], rec),
        forall|k: int| insert_point(s, rec) <= k < s.len() ==> listed_before(rec, #[trigger] s[k]),
{
    let pred = |k: int| listing_order(s[k], rec) < 0;
    assert forall|k: int| 0 <= k < s.len() implies (#[trigger] pred(k)) == listed_before(s[k], rec) by {
        lemma_order_is_sections(s[k], rec);
    }
    assert(partitioned(pred, 0, s.len() as int)) by {
        assert forall|i: int, j: int| 0 <= i <= j < s.len() && #[trigger] pred(j) implies #[trigger] pred(i) by {
            if i < j {
                lemma_listed_trans(s[i], s[j], rec);
            }
        }
    }
    lemma_bsearch(pred, 0, s.len() as int);
    let b = insert_point(s, rec);
    assert forall|k: int| b <= k < s.len() implies listed_before(rec, #[trigger] s[k]) by {
        assert(!pred(k));
        lemma_listed_total(rec, s[k]);
    }
    assert forall|k: int| 0 <= k < b implies listed_before(#[trigger] s[k], rec) by {
        assert(pred(k));
    }
    let r = s.insert(b, rec);
    assert forall|i: int, j: int| 0 <= i < j < r.len() implies #[trigger] listed_before(r[i], r[j]) && r[i].name != #[trigger] r[j].name by {
        if j < b {
            assert(r[i] == s[i] && r[j] == s[j]);
            assert(listed_before(s[i], s[j]) && s[i].name != s[j].name);
        } else if j == b {
            assert(r[i] == s[i] && r[j] == rec);
            assert(listed_before(s[i], rec));
            assert(s[i].name != rec.name);
        } else if i < b {
            assert(r[i] == s[i] && r[j] == s[j - 1]);
            assert(listed_before(s[i], rec));
            assert(listed_before(rec, s[j - 1]));
            lemma_listed_trans(s[i], rec, s[j - 1]);
            assert(listed_before(s[i], s[j - 1]) && s[i].name != s[j - 1].name);
        } else if i == b {
            assert(r[i] == rec && r[j] == s[j - 1]);
            assert(listed_before(rec, s[j - 1]));
            assert(s[j - 1].name != rec.name);
        } else {
            assert(r[i] == s[i - 1] && r[j] == s[j - 1]);
            assert(listed_before(s[i - 1], s[j - 1]) && s[i - 1].name != s[j - 1].name);
        }
    }
}

/// The listing order is transitive.
pub proof fn lemma_listed_trans(a: RecView, b: RecView, c: RecView)
    requires
        listed_before(a, b),
        listed_before(b, c),
    ensures
        listed_before(a, c),
{
    if section(a) == section(b) && section(b) == section(c) {
        lemma_lex_transitive(a.name, b.name, c.name);
        lemma_lex_irreflexive(a.name);
    } else if section(a) == section(c) {
    }
}

/// Records with different names are ordered one way or the other.
pub proof fn lemma_listed_total(a: RecView, b: RecView)
    requires
        a.name != b.name,
        !listed_before(b, a),
    ensures
        listed_before(a, b),
{
    lemma_lex_trichotomy(a.name, b.name);
}


// ---------------------------------------------------------------------------
// the directory tree
// ---------------------------------------------------------------------------

/// The connector of the root and of each ancestor: `└─┬`.
pub open spec fn path_dir() -> Seq<char> {
    seq!['\u{2514}', '\u{2500}', '\u{252C}']
}

/// The connector of the first subdirectory: `└┬─`.
pub open spec fn first_dir() -> Seq<char> {
    seq!['\u{2514}', '\u{252C}', '\u{2500}']
}

/// The connector of the other subdirectories: ` ├─`.
pub open spec fn middle_dir() -> Seq<char> {
    seq![' ', '\u{251C}', '\u{2500}']
}

/// `n` spaces.
pub open spec fn spaces(n: int) -> Seq<char> {
    Seq::new(n as nat, |i: int| ' ')
}

/// The non-empty `/`-separated parts of `s`, the part read so far being
/// `acc`.
pub open spec fn split_parts(s: Seq<char>, acc: Seq<char>) -> Seq<Seq<char>>
    decreases s.len(),
{
    let done = if acc.len() > 0 { seq![acc] } else { Seq::<Seq<char>>::empty() };
    if s.len() == 0 {
        done
    } else if s[0] == '/' {
        done + split_parts(s.drop_first(), Seq::empty())
    } else {
        split_parts(s.drop_first(), acc.push(s[0]))
    }
}

/// The non-empty `/`-separated parts of `dir`.
pub open spec fn segments(dir: Seq<char>) -> Seq<Seq<char>> {
    split_parts(dir, Seq::empty())
}

/// The absolute path through the parts `segs`: `/` before each.
pub open spec fn abs_path(segs: Seq<Seq<char>>) -> Seq<char>
    decreases segs.len(),
{
    if segs.len() == 0 {
        Seq::empty()
    } else {
        abs_path(segs.drop_last()) + seq!['/'] + segs.last()
    }
}

/// Row `k` of the tree before the last row's corner is fixed: the root,
/// then each ancestor one indent step deeper, then the subdirectories one
/// step below the current directory. Each row is (drawn text, directory).
pub open spec fn raw_row(dir: Seq<char>, subdirs: Seq<Seq<char>>, k: int) -> (Seq<char>, Seq<char>) {
    let segs = segments(dir);
    let n = segs.len() as int;
    if k == 0 {
        (path_dir() + seq!['/'], seq!['/'])
    } else if k <= n {
        (spaces(2 * k) + path_dir() + segs[k - 1], abs_path(segs.take(k)))
    } else {
        let i = k - n - 1;
        (spaces(2 * n + 2) + (if i == 0 { first_dir() } else { middle_dir() }) + subdirs[i], dir + subdirs[i])
    }
}

/// The last row's corner: the two characters after its first `└` become
/// `─` (where they exist); failing a `└`, its first `├` becomes `└`.
pub open spec fn corner_fixed(c: Seq<char>) -> Seq<char> {
    let i = find_char(c, '\u{2514}');
    if i >= 0 {
        let c1 = if i + 1 < c.len() { c.update(i + 1, '\u{2500}') } else { c };
        if i + 2 < c.len() { c1.update(i + 2, '\u{2500}') } else { c1 }
    } else {
        let j = find_char(c, '\u{251C}');
        if j >= 0 { c.update(j, '\u{2514}') } else { c }
    }
}

/// The rows of the directory tree of `dir` with the subdirectories
/// `subdirs`, its last row's corner fixed.
pub open spec fn tree_rows(dir: Seq<char>, subdirs: Seq<Seq<char>>) -> Seq<(Seq<char>, Seq<char>)> {
    let n = 1 + segments(dir).len() + subdirs.len();
    Seq::new(n as nat, |k: int| if k == n - 1 {
        (corner_fixed(raw_row(dir, subdirs, k).0), raw_row(dir, subdirs, k).1)
    } else {
        raw_row(dir, subdirs, k)
    })
}

/// The rows as plain values.
pub open spec fn entry_views(v: Seq<DirEntry>) -> Seq<(Seq<char>, Seq<char>)> {
    v.map_values(|e: DirEntry| (e.display_text@, e.directory@))
}

/// `v` with `s` appended.
fn push_all(v: &mut Vec<char>, s: &[char])
    ensures
        final(v)@ == old(v)@ + s@,
{
    let mut i: usize = 0;
    while i < s.len()
        invariant
            i <= s@.len(),
            v@ == old(v)@ + s@.take(i as int),
        decreases s@.len() - i,
    {
        v.push(s[i]);
        assert(s@.take(i as int + 1) =~= s@.take(i as int).push(s@[i as int]));
        i = i + 1;
    }
    assert(s@.take(s@.len() as int) =~= s@);
}

/// `n` spaces.
fn spaces_vec(n: usize) -> (v: Vec<char>)
    ensures
        v@ == spaces(n as int),
{
    let mut v: Vec<char> = Vec::new();
    let mut i: usize = 0;
    while i < n
        invariant
            i <= n,
            v@ == spaces(i as int),
        decreases n - i,
    {
        v.push(' ');
        assert(v@ =~= spaces(i as int + 1));
        i = i + 1;
    }
    v
}

/// The character sequences held by `v`.
pub open spec fn char_rows(v: Seq<Vec<char>>) -> Seq<Seq<char>> {
    v.map_values(|x: Vec<char>| x@)
}

/// The non-empty `/`-separated parts of `dir`.
fn split_segments(dir: &str) -> (r: Vec<Vec<char>>)
    ensures
        char_rows(r@) == segments(dir@),
{
    let n = dir.unicode_len();
    let mut r: Vec<Vec<char>> = Vec::new();
    let mut acc: Vec<char> = Vec::new();
    let mut i: usize = 0;
    assert(dir@.skip(0) =~= dir@);
    assert(char_rows(r@) + split_parts(dir@, acc@) =~= segments(dir@));
    while i < n
        invariant
            n == dir@.len(),
            i <= n,
            segments(dir@) == char_rows(r@) + split_parts(dir@.skip(i as int), acc@),
        decreases n - i,
    {
        let c = dir.get_char(i);
        let ghost rest = dir@.skip(i as int);
        let ghost before = char_rows(r@);
        assert(rest[0] == c);
        assert(rest.drop_first() =~= dir@.skip(i as int + 1));
        let ghost a0 = acc@;
        assert(rest.len() > 0);
        if c == '/' {
            assert(split_parts(rest, a0) == (if a0.len() > 0 { seq![a0] } else { Seq::<Seq<char>>::empty() })
                + split_parts(rest.drop_first(), Seq::empty()));
            if acc.len() > 0 {
                let ghost a = acc@;
                r.push(acc);
                assert(char_rows(r@) =~= before + seq![a]);
                acc = Vec::new();
                assert(before + (seq![a] + split_parts(rest.drop_first(), Seq::empty()))
                    =~= char_rows(r@) + split_parts(rest.drop_first(), Seq::empty()));
            } else {
                assert(a0 =~= Seq::<char>::empty());
                assert(Seq::<Seq<char>>::empty() + split_parts(rest.drop_first(), Seq::empty())
                    =~= split_parts(rest.drop_first(), Seq::empty()));
            }
        } else {
            assert(split_parts(rest, a0) == split_parts(rest.drop_first(), a0.push(c)));
            acc.push(c);
        }
        i = i + 1;
    }
    let ghost before = char_rows(r@);
    assert(dir@.skip(n as int) =~= Seq::<char>::empty());
    if acc.len() > 0 {
        let ghost a = acc@;
        r.push(acc);
        assert(char_rows(r@) =~= before + seq![a]);
    } else {
        assert(before + Seq::<Seq<char>>::empty() =~= before);
    }
    r
}


/// The parts of `s` number at most its length (plus one for a pending part).
proof fn lemma_split_parts_len(s: Seq<char>, acc: Seq<char>)
    ensures
        split_parts(s, acc).len() <= s.len() + if acc.len() > 0 { 1int } else { 0int },
    decreases s.len(),
{
    if s.len() > 0 {
        if s[0] == '/' {
            lemma_split_parts_len(s.drop_first(), Seq::empty());
        } else {
            lemma_split_parts_len(s.drop_first(), acc.push(s[0]));
        }
    }
}

/// The last row's corner fixed (see [`corner_fixed`]).
fn fix_corner(t: Vec<char>) -> (r: Vec<char>)
    ensures
        r@ == corner_fixed(t@),
{
    let mut t = t;
    match find_char_index(t.as_slice(), '\u{2514}') {
        Some(i) => {
            if t.len() - i > 1 {
                t.set(i + 1, '\u{2500}');
            }
            if t.len() - i > 2 {
                t.set(i + 2, '\u{2500}');
            }
            t
        },
        None => {
            match find_char_index(t.as_slice(), '\u{251C}') {
                Some(j) => {
                    t.set(j, '\u{2514}');
                    t
                },
                None => t,
            }
        },
    }
}

/// The rows as plain values.
pub open spec fn pair_views(v: Seq<(Vec<char>, Vec<char>)>) -> Seq<(Seq<char>, Seq<char>)> {
    v.map_values(|p: (Vec<char>, Vec<char>)| (p.0@, p.1@))
}

/// The connector `c` as characters.
fn connector(first: bool, middle: bool) -> (r: Vec<char>)
    ensures
        r@ == if !first && !middle { path_dir() } else if first { first_dir() } else { middle_dir() },
{
    let mut v: Vec<char> = Vec::new();
    if !first && !middle {
        v.push('\u{2514}');
        v.push('\u{2500}');
        v.push('\u{252C}');
    } else if first {
        v.push('\u{2514}');
        v.push('\u{252C}');
        v.push('\u{2500}');
    } else {
        v.push(' ');
        v.push('\u{251C}');
        v.push('\u{2500}');
    }
    assert(v@ =~= if !first && !middle { path_dir() } else if first { first_dir() } else { middle_dir() });
    v
}

impl DirListBox {
    /// The directory tree of `dir` (a `/`-terminated absolute path) with its
    /// (already sorted) subdirectories `subdirs`: the root, each ancestor one
    /// indent step deeper, then the subdirectories below the current
    /// directory, the last row's connector turned into a corner. Also returns
    /// the current directory's row.
    pub fn build_tree(dir: &str, subdirs: &[String]) -> (r: (Vec<DirEntry>, usize))
        requires
            dir@.len() <= usize::MAX / 4,
            subdirs@.len() <= usize::MAX / 4,
        ensures
            entry_views(r.0@) == tree_rows(dir@, texts(subdirs@)),
            r.1 == segments(dir@).len(),
    {
        let ghost subs = texts(subdirs@);
        let segs = split_segments(dir);
        proof {
            lemma_split_parts_len(dir@, Seq::empty());
        }
        let ghost sg = segments(dir@);
        let mut rows: Vec<(Vec<char>, Vec<char>)> = Vec::new();
        let mut t0 = connector(false, false);
        t0.push('/');
        let mut d0: Vec<char> = Vec::new();
        d0.push('/');
        assert(t0@ =~= path_dir() + seq!['/']);
        assert(d0@ =~= seq!['/']);
        rows.push((t0, d0));
        assert(pair_views(rows@) =~= Seq::new(1, |k: int| raw_row(dir@, subs, k)));
        let mut path: Vec<char> = Vec::new();
        let mut i: usize = 0;
        assert(sg.take(0) =~= Seq::<Seq<char>>::empty());
        while i < segs.len()
            invariant
                sg == segments(dir@),
                char_rows(segs@) == sg,
                sg.len() <= dir@.len(),
                dir@.len() <= usize::MAX / 4,
                i <= segs@.len(),
                path@ == abs_path(sg.take(i as int)),
                pair_views(rows@) == Seq::new(i as nat + 1, |k: int| raw_row(dir@, subs, k)),
            decreases segs@.len() - i,
        {
            let seg = &segs[i];
            assert(seg@ == sg[i as int]);
            path.push('/');
            push_all(&mut path, seg.as_slice());
            assert(sg.take(i as int + 1).drop_last() =~= sg.take(i as int));
            assert(path@ =~= abs_path(sg.take(i as int + 1)));
            let mut t = spaces_vec((i + 1) * 2);
            let c = connector(false, false);
            push_all(&mut t, c.as_slice());
            push_all(&mut t, seg.as_slice());
            let ghost before = pair_views(rows@);
            rows.push((t, path.clone()));
            assert(pair_views(rows@) =~= Seq::new(i as nat + 2, |k: int| raw_row(dir@, subs, k))) by {
                assert(pair_views(rows@) =~= before.push(raw_row(dir@, subs, i as int + 1)));
            }
            i = i + 1;
        }
        let cur = segs.len();
        let sub_indent = cur * 2 + 2;
        let dir_chars = chars_of(dir);
        let mut j: usize = 0;
        while j < subdirs.len()
            invariant
                sg == segments(dir@),
                cur == sg.len(),
                sg.len() <= dir@.len(),
                dir@.len() <= usize::MAX / 4,
                subdirs@.len() <= usize::MAX / 4,
                sub_indent == 2 * cur + 2,
                dir_chars@ == dir@,
                subs == texts(subdirs@),
                j <= subdirs@.len(),
                pair_views(rows@) == Seq::new(cur as nat + 1 + j as nat, |k: int| raw_row(dir@, subs, k)),
            decreases subdirs@.len() - j,
        {
            let name = chars_of(subdirs[j].as_str());
            assert(name@ == subs[j as int]);
            let mut t = spaces_vec(sub_indent);
            let c = connector(j == 0, j != 0);
            push_all(&mut t, c.as_slice());
            push_all(&mut t, name.as_slice());
            let mut d = dir_chars.clone();
            push_all(&mut d, name.as_slice());
            let ghost before = pair_views(rows@);
            rows.push((t, d));
            assert(pair_views(rows@) =~= Seq::new(cur as nat + 2 + j as nat, |k: int| raw_row(dir@, subs, k))) by {
                assert(pair_views(rows@) =~= before.push(raw_row(dir@, subs, cur + 1 + j)));
            }
            j = j + 1;
        }
        let ghost n = cur + 1 + subdirs@.len();
        let ghost before = pair_views(rows@);
        let (t_last, d_last) = rows.pop().unwrap();
        let fixed = fix_corner(t_last);
        rows.push((fixed, d_last));
        assert(pair_views(rows@) =~= tree_rows(dir@, subs)) by {
            assert(pair_views(rows@).len() == n);
            assert(n == 1 + segments(dir@).len() + subs.len());
            assert forall|k: int| 0 <= k < n implies pair_views(rows@)[k] == tree_rows(dir@, subs)[k] by {
                if k < n - 1 {
                    assert(pair_views(rows@)[k] == before[k]);
                } else {
                    assert(before[k] == raw_row(dir@, subs, k));
                }
            }
        }
        let mut entries: Vec<DirEntry> = Vec::new();
        let mut k: usize = 0;
        while k < rows.len()
            invariant
                k <= rows@.len(),
                entry_views(entries@) == pair_views(rows@).take(k as int),
            decreases rows@.len() - k,
        {
            let e = DirEntry { display_text: string_of(&rows[k].0), directory: string_of(&rows[k].1) };
            let ghost before = entry_views(entries@);
            entries.push(e);
            assert(entry_views(entries@) =~= pair_views(rows@).take(k as int + 1)) by {
                assert(entry_views(entries@) =~= before.push(pair_views(rows@)[k as int]));
            }
            k = k + 1;
        }
        assert(pair_views(rows@).take(rows@.len() as int) =~= pair_views(rows@));
        (entries, cur)
    }
}


/// Does the name start with `.` (a hidden entry)?
pub open spec fn starts_with_dot(s: Seq<char>) -> bool {
    s.len() > 0 && s[0] == '.'
}

/// Does `s` start with `.`?
pub fn dot_first(s: &str) -> (r: bool)
    ensures
        r == starts_with_dot(s@),
{
    s.unicode_len() > 0 && s.get_char(0) == '.'
}

/// The (name, is-directory) pairs as plain values.
pub open spec fn raw_views(v: Seq<(String, bool)>) -> Seq<(Seq<char>, bool)> {
    v.map_values(|p: (String, bool)| (p.0@, p.1))
}

/// The names of the directories among `entries` that are not hidden, in
/// order.
pub open spec fn dir_names(entries: Seq<(Seq<char>, bool)>) -> Seq<Seq<char>>
    decreases entries.len(),
{
    if entries.len() == 0 {
        Seq::empty()
    } else {
        let r = dir_names(entries.drop_last());
        let (name, is_dir) = entries.last();
        if is_dir && !starts_with_dot(name) { r.push(name) } else { r }
    }
}

/// The directory tree shown for `dir` with the directory entries
/// `entries`: the visible subdirectories, sorted case-insensitively.
pub open spec fn dir_tree(dir: Seq<char>, entries: Seq<(Seq<char>, bool)>) -> Seq<(Seq<char>, Seq<char>)> {
    tree_rows(dir, ci_sorted(dir_names(entries)))
}

/// The rows of a tree are the root, the ancestors and the subdirectories.
proof fn lemma_dir_tree_len(dir: Seq<char>, entries: Seq<(Seq<char>, bool)>)
    ensures
        dir_tree(dir, entries).len() == 1 + segments(dir).len() + dir_names(entries).len(),
        dir_names(entries).len() <= entries.len(),
    decreases entries.len(),
{
    law_ci_sorted_permutes(dir_names(entries));
    if entries.len() > 0 {
        lemma_dir_tree_len(dir, entries.drop_last());
    }
}

/// The arithmetic of `new_directory` stays within the machine's integers.
pub open spec fn tree_fits(lv: ListViewerState, dir: Seq<char>, entries: Seq<(Seq<char>, bool)>) -> bool {
    let n = dir_tree(dir, entries).len();
    &&& dir.len() <= usize::MAX / 4
    &&& entries.len() <= usize::MAX / 4
    &&& n <= i32::MAX
    &&& focus_item_fits(ranged_state(lv, n as int), segments(dir).len() as int)
}

/// The directory tree pane of the file dialogs (`TDirListBox`): the current
/// directory's ancestors and its subdirectories, the current directory's
/// row drawn selected.
pub struct DirListBox {
    lv: ListViewerState,
    items: Vec<DirEntry>,
    cur: usize,
    dir: String,
}

impl DirListBox {
    /// The rows as plain values.
    pub closed spec fn spec_items(&self) -> Seq<(Seq<char>, Seq<char>)> {
        entry_views(self.items@)
    }

    /// The list is well-formed (see [`lv_wf`]).
    pub open spec fn wf(&self) -> bool {
        lv_wf(self.lv_view())
    }

    /// The current directory's row.
    pub closed spec fn spec_cur(&self) -> int {
        self.cur as int
    }

    /// The current directory.
    pub closed spec fn spec_dir(&self) -> Seq<char> {
        self.dir@
    }

    /// An empty tree (`TDirListBox::TDirListBox`): one column.
    pub fn new(bounds: Rect, h: Option<ViewId>, v: Option<ViewId>) -> (d: Self)
        requires
            bounds_fit(bounds),
        ensures
            d.wf(),
            d.lv_view() == fresh_list_viewer(bounds, 1, h, v),
            d.spec_items() == Seq::<(Seq<char>, Seq<char>)>::empty(),
            d.spec_cur() == 0,
            d.spec_dir() == Seq::<char>::empty(),
    {
        let d = DirListBox { lv: ListViewerState::new(bounds, 1, h, v), items: Vec::new(), cur: 0, dir: String::new() };
        assert(entry_views(d.items@) =~= Seq::<(Seq<char>, Seq<char>)>::empty());
        d
    }

    /// The rows.
    pub fn list(&self) -> (r: &[DirEntry])
        ensures
            entry_views(r@) == self.spec_items(),
    {
        self.items.as_slice()
    }

    /// Can the tree of `dir` with these entries be shown: does the
    /// arithmetic of [`new_directory`](DirListBox::new_directory) stay within
    /// the machine's integers ([`tree_fits`])?
    pub fn fits_directory(&self, dir: &str, entries: &[(String, bool)]) -> (r: bool)
        ensures
            r == tree_fits(self.lv_view(), dir@, raw_views(entries@)),
    {
        let ghost raw = raw_views(entries@);
        proof {
            lemma_dir_tree_len(dir@, raw);
        }
        let dlen = dir.unicode_len();
        if dlen > usize::MAX / 4 || entries.len() > usize::MAX / 4 {
            return false;
        }
        let mut count: usize = 0;
        let mut i: usize = 0;
        assert(dir_names(raw.take(0)) =~= Seq::<Seq<char>>::empty());
        while i < entries.len()
            invariant
                raw == raw_views(entries@),
                i <= entries@.len(),
                entries@.len() <= usize::MAX / 4,
                count == dir_names(raw.take(i as int)).len(),
                count <= i,
            decreases entries@.len() - i,
        {
            assert(raw.take(i as int + 1).drop_last() =~= raw.take(i as int));
            assert(raw.take(i as int + 1).last() == raw[i as int]);
            let (name, is_dir) = &entries[i];
            if *is_dir && !dot_first(name.as_str()) {
                count = count + 1;
            }
            i = i + 1;
        }
        assert(raw.take(entries@.len() as int) =~= raw);
        let segs = split_segments(dir);
        proof {
            lemma_split_parts_len(dir@, Seq::empty());
        }
        assert(segs@.len() == segments(dir@).len());
        let n = 1 + segs.len() + count;
        if n > 0x7fff_ffff {
            return false;
        }
        let mut l2 = self.lv;
        l2.range = n as i32;
        if l2.focused >= n as i32 {
            l2.focused = 0;
        }
        assert(l2 == ranged_state(self.lv, n as int));
        focus_item_fits_check(&l2, segs.len() as i32)
    }

    /// Show the tree of `dir` (`TDirListBox::newDirectory`), given the
    /// directory's entries as (name, is-directory) pairs: the visible
    /// subdirectories, sorted case-insensitively, below the ancestors; the
    /// range is published and the current directory focused.
    pub fn new_directory(&mut self, dir: &str, entries: Vec<(String, bool)>, ctx: &mut Context)
        requires
            tree_fits(old(self).lv_view(), dir@, raw_views(entries@)),
        ensures
            old(self).wf() ==> final(self).wf(),
            ({
                let n = dir_tree(dir@, raw_views(entries@)).len() as int;
                let cur = segments(dir@).len() as int;
                &&& final(self).spec_items() == dir_tree(dir@, raw_views(entries@))
                &&& final(self).spec_cur() == cur
                &&& final(self).spec_dir() == dir@
                &&& final(self).lv_view() == focused_state(ranged_state(old(self).lv_view(), n), cur)
                &&& final(ctx).deferred@ == old(ctx).deferred@ + range_requests(old(self).lv_view(), n)
                    + focus_requests(ranged_state(old(self).lv_view(), n), cur)
                &&& final(ctx).out@ == old(ctx).out@
            }),
    {
        let ghost raw = raw_views(entries@);
        proof {
            lemma_dir_tree_len(dir@, raw);
        }
        self.dir = dir.to_owned();
        let mut subdirs: Vec<String> = Vec::new();
        let mut i: usize = 0;
        assert(texts(subdirs@) =~= dir_names(raw.take(0)));
        while i < entries.len()
            invariant
                raw == raw_views(entries@),
                i <= entries@.len(),
                texts(subdirs@) == dir_names(raw.take(i as int)),
            decreases entries@.len() - i,
        {
            assert(raw.take(i as int + 1).drop_last() =~= raw.take(i as int));
            assert(raw.take(i as int + 1).last() == raw[i as int]);
            let (name, is_dir) = &entries[i];
            if *is_dir && !dot_first(name.as_str()) {
                let ghost before = texts(subdirs@);
                subdirs.push(name.clone());
                assert(texts(subdirs@) =~= before.push(name@));
            }
            i = i + 1;
        }
        assert(raw.take(entries@.len() as int) =~= raw);
        proof {
            lemma_dir_tree_len(dir@, raw);
            law_ci_sorted_permutes(dir_names(raw));
        }
        let sorted = ci_sort(subdirs);
        assert(sorted@.len() == texts(sorted@).len());
        let (items, cur) = DirListBox::build_tree(dir, sorted.as_slice());
        assert(items@.len() == entry_views(items@).len());
        self.items = items;
        self.cur = cur;
        let len = self.items.len() as i32;
        list_viewer::set_range(&mut self.lv, len, ctx);
        let ghost d1 = ctx.deferred@;
        let ghost lv1 = self.lv;
        list_viewer::focus_item(&mut self.lv, cur as i32, ctx);
        proof {
            if lv_wf(old(self).lv) {
                lemma_focused_wf(lv1, cur as int);
            }
        }
    }

    /// The view state.
    pub fn state(&self) -> (r: &ViewState)
        ensures
            *r == self.lv_view().state,
    {
        &self.lv.state
    }

    /// Draw the tree (the shared list-viewer drawing).
    pub fn draw(&self, ctx: &mut DrawCtx)
        requires
            old(ctx).wf(),
            cursor_fits(self.lv_view()),
        ensures
            final(ctx).wf(),
            final(ctx).same_frame(old(ctx)),
            final(ctx).spec_cells() == apply_ops(old(ctx).frame(), old(ctx).spec_cells(), list_draw_ops(self, old(ctx).spec_theme())),
    {
        list_viewer::draw(self, ctx);
    }

    /// Handle an event (the shared list-viewer handling; selecting a row
    /// does nothing here).
    pub fn handle_event(&mut self, ev: &mut Event, ctx: &mut Context)
        requires
            event_fits(old(self).lv_view(), *old(ev)),
        ensures
            old(self).wf() ==> final(self).wf(),
            ({
                let (lv2, ev2, reqs, s) = spec_handle_event(old(self).lv_view(), *old(ev));
                &&& final(self).lv_view() == lv2
                &&& final(self).spec_items() == old(self).spec_items()
                &&& final(self).spec_cur() == old(self).spec_cur()
                &&& *final(ev) == ev2
                &&& final(ctx).deferred@ == old(ctx).deferred@ + reqs
                &&& final(ctx).out@ == old(ctx).out@
            }),
    {
        let sel = list_viewer::handle_event(&mut self.lv, ev, ctx);
        if let Some(item) = sel {
            self.select_item(item, ctx);
        }
        proof {
            if lv_wf(old(self).lv) {
                lemma_handle_event_wf(old(self).lv, *old(ev));
            }
        }
    }

    /// Set or clear a state flag (the shared list-viewer handling).
    pub fn set_state(&mut self, flag: StateFlag, enable: bool, ctx: &mut Context)
        ensures
            old(self).wf() ==> final(self).wf(),
            final(self).lv_view() == flagged_state(old(self).lv_view(), flag, enable),
            final(self).spec_items() == old(self).spec_items(),
            final(self).spec_cur() == old(self).spec_cur(),
            final(ctx).out@ == old(ctx).out@ + state_events(old(self).lv_view(), flag, enable),
            final(ctx).deferred@ == old(ctx).deferred@ + state_requests(old(self).lv_view(), flag, enable),
    {
        list_viewer::set_state(&mut self.lv, flag, enable, ctx);
    }

    /// Where the terminal cursor goes: on the focused row.
    pub fn cursor_request(&self) -> (r: Option<Point>)
        requires
            cursor_fits(self.lv_view()),
        ensures
            r == spec_focused_cursor(self.lv_view()),
    {
        list_viewer::focused_cursor(&self.lv)
    }

    /// Take over the scroll bars' values (the shared read-sync).
    pub fn apply_list_scroll(&mut self, h: Option<i32>, v: Option<i32>, ctx: &mut Context)
        requires
            v matches Some(vv) ==> focus_item_num_fits(
                match h {
                    Some(hv) => ListViewerState { indent: hv, ..old(self).lv_view() },
                    None => old(self).lv_view(),
                },
                vv as int,
            ),
        ensures
            ({
                let lv1 = match h {
                    Some(hv) => ListViewerState { indent: hv, ..old(self).lv_view() },
                    None => old(self).lv_view(),
                };
                &&& final(self).lv_view() == match v {
                    Some(vv) => focus_num_state(lv1, vv as int),
                    None => lv1,
                }
                &&& final(ctx).deferred@ == old(ctx).deferred@ + match v {
                    Some(vv) => focus_num_requests(lv1, vv as int),
                    None => Seq::empty(),
                }
            }),
            final(self).spec_items() == old(self).spec_items(),
            final(ctx).out@ == old(ctx).out@,
            old(self).wf() ==> final(self).wf(),
    {
        list_viewer::apply_scroll(&mut self.lv, h, v, ctx);
        proof {
            if lv_wf(old(self).lv) {
                if let Some(vv) = v {
                    let lv1 = match h {
                        Some(hv) => ListViewerState { indent: hv, ..old(self).lv },
                        None => old(self).lv,
                    };
                    lemma_focus_num_wf(lv1, vv as int);
                }
            }
        }
    }

    /// The dialog value: the focused row's index.
    pub fn value(&self) -> (r: Option<FieldValue>)
        ensures
            r == Some(FieldValue::Int(self.lv_view().focused)),
    {
        Some(FieldValue::Int(self.lv.focused))
    }
}

impl ListViewer for DirListBox {
    closed spec fn lv_view(&self) -> ListViewerState {
        self.lv
    }

    open spec fn text_of(&self, item: int) -> Seq<char> {
        if 0 <= item < self.spec_items().len() { self.spec_items()[item].0 } else { Seq::empty() }
    }

    open spec fn selected_of(&self, item: int) -> bool {
        item as usize == self.spec_cur()
    }

    fn lv(&self) -> (r: &ListViewerState) {
        &self.lv
    }

    /// The row's drawn text, empty out of range.
    fn get_text(&self, item: i32) -> (s: String) {
        if item >= 0 && (item as usize) < self.items.len() {
            self.items[item as usize].display_text.clone()
        } else {
            String::new()
        }
    }

    /// The current directory's row is drawn selected.
    fn is_selected(&self, item: i32) -> (b: bool) {
        item as usize == self.cur
    }

    /// Selecting a row does nothing here; changing into it is the owning
    /// dialog's business.
    fn select_item(&mut self, item: i32, ctx: &mut Context)
        ensures
            *final(ctx) == *old(ctx),
            *final(self) == *old(self),
    {
    }
}


// ---------------------------------------------------------------------------
// the file list
// ---------------------------------------------------------------------------

/// Does `name` match the glob `pattern`? `*` matches any run of characters
/// (the empty one too), `?` exactly one character, anything else itself;
/// the comparison is case-sensitive.
pub open spec fn glob(pattern: Seq<char>, name: Seq<char>) -> bool
    decreases pattern.len(), name.len(),
{
    if pattern.len() == 0 {
        name.len() == 0
    } else if pattern[0] == '*' {
        glob(pattern.drop_first(), name) || (name.len() > 0 && glob(pattern, name.drop_first()))
    } else {
        name.len() > 0 && (pattern[0] == '?' || pattern[0] == name[0]) && glob(pattern.drop_first(), name.drop_first())
    }
}

/// The glob of suffixes, unfolded once.
proof fn lemma_glob_step(p: Seq<char>, s: Seq<char>, i: int, j: int)
    requires
        0 <= i < p.len(),
        0 <= j <= s.len(),
    ensures
        glob(p.skip(i), s.skip(j)) == if p[i] == '*' {
            glob(p.skip(i + 1), s.skip(j)) || (j < s.len() && glob(p.skip(i), s.skip(j + 1)))
        } else {
            j < s.len() && (p[i] == '?' || p[i] == s[j]) && glob(p.skip(i + 1), s.skip(j + 1))
        },
{
    assert(p.skip(i)[0] == p[i]);
    assert(p.skip(i).drop_first() =~= p.skip(i + 1));
    if j < s.len() {
        assert(s.skip(j)[0] == s[j]);
        assert(s.skip(j).drop_first() =~= s.skip(j + 1));
    }
}

/// The pattern `*` matches every name, the empty one included.
pub proof fn law_star_matches_every_name(name: Seq<char>)
    ensures
        glob(seq!['*'], name),
    decreases name.len(),
{
    let star = seq!['*'];
    assert(star.len() == 1 && star[0] == '*');
    assert(star.drop_first() =~= Seq::<char>::empty());
    if name.len() > 0 {
        law_star_matches_every_name(name.drop_first());
        assert(glob(star, name.drop_first()));
    } else {
        assert(glob(star.drop_first(), name));
    }
    assert(glob(star, name) == (glob(star.drop_first(), name) || (name.len() > 0 && glob(star, name.drop_first()))));
}

/// A pattern without `*` or `?` matches exactly the name spelled the same
/// way, case included.
pub proof fn law_plain_pattern_matches_itself(pattern: Seq<char>, name: Seq<char>)
    requires
        forall|k: int| 0 <= k < pattern.len() ==> pattern[k] != '*' && pattern[k] != '?',
    ensures
        glob(pattern, name) <==> pattern == name,
    decreases pattern.len(),
{
    if pattern.len() > 0 && name.len() > 0 {
        assert forall|k: int| 0 <= k < pattern.drop_first().len() implies pattern.drop_first()[k] != '*' && pattern.drop_first()[k] != '?' by {
            assert(pattern.drop_first()[k] == pattern[k + 1]);
        }
        law_plain_pattern_matches_itself(pattern.drop_first(), name.drop_first());
        if pattern[0] == name[0] && pattern.drop_first() == name.drop_first() {
            assert forall|k: int| 0 <= k < pattern.len() implies pattern[k] == name[k] by {
                if k > 0 {
                    assert(pattern[k] == pattern.drop_first()[k - 1]);
                    assert(name[k] == name.drop_first()[k - 1]);
                }
            }
            assert(pattern =~= name);
        }
        if pattern == name {
            assert(pattern.drop_first() =~= name.drop_first());
        }
    } else if pattern.len() > 0 {
        assert(pattern != name);
    } else if name.len() > 0 {
        assert(pattern != name);
    } else {
        assert(pattern =~= name);
    }
}

impl FileList {
    /// Glob matching (see [`glob`]), by dynamic programming over the suffixes
    /// of the pattern and the name.
    pub fn wildcard_match(pattern: &str, name: &str) -> (r: bool)
        requires
            name@.len() < usize::MAX,
        ensures
            r == glob(pattern@, name@),
    {
        let p = chars_of(pattern);
        let s = chars_of(name);
        let n = p.len();
        let m = s.len();
        // next[j] == glob(p[i+1..], s[j..]); start with the empty pattern.
        let mut next: Vec<bool> = Vec::new();
        let mut j: usize = 0;
        while j <= m
            invariant
                m == s@.len(),
                m < usize::MAX,
                j <= m + 1,
                next@.len() == j,
                forall|k: int| 0 <= k < j ==> next@[k] == (k == m),
            decreases m + 1 - j,
        {
            next.push(j == m);
            j = j + 1;
        }
        assert forall|k: int| 0 <= k <= m implies next@[k] == glob(p@.skip(n as int), s@.skip(k)) by {
            assert(p@.skip(n as int).len() == 0);
        }
        let mut i: usize = n;
        while i > 0
            invariant
                n == p@.len(),
                m == s@.len(),
                m < usize::MAX,
                i <= n,
                next@.len() == m + 1,
                forall|k: int| 0 <= k <= m ==> next@[k] == glob(p@.skip(i as int), s@.skip(k)),
            decreases i,
        {
            let pi = p[i - 1];
            let mut cur: Vec<bool> = Vec::new();
            let mut k: usize = 0;
            while k <= m
                invariant
                    m < usize::MAX,
                    k <= m + 1,
                    cur@.len() == k,
                decreases m + 1 - k,
            {
                cur.push(false);
                k = k + 1;
            }
            let mut jj: usize = m + 1;
            while jj > 0
                invariant
                    n == p@.len(),
                    m == s@.len(),
                    m < usize::MAX,
                    1 <= i <= n,
                    pi == p@[i - 1],
                    jj <= m + 1,
                    cur@.len() == m + 1,
                    next@.len() == m + 1,
                    forall|k: int| 0 <= k <= m ==> next@[k] == glob(p@.skip(i as int), s@.skip(k)),
                    forall|k: int| jj <= k <= m ==> cur@[k] == glob(p@.skip(i - 1), s@.skip(k)),
                decreases jj,
            {
                let j = jj - 1;
                proof {
                    lemma_glob_step(p@, s@, i - 1, j as int);
                }
                let v = if pi == '*' {
                    next[j] || (j < m && cur[j + 1])
                } else {
                    j < m && (pi == '?' || pi == s[j]) && next[j + 1]
                };
                cur.set(j, v);
                jj = j;
            }
            next = cur;
            i = i - 1;
        }
        assert(p@.skip(0) =~= p@);
        assert(s@.skip(0) =~= s@);
        next[0]
    }
}


/// `s` with `r` inserted at its place.
pub open spec fn listed_insert(s: Seq<RecView>, r: RecView) -> Seq<RecView> {
    s.insert(insert_point(s, r), r)
}

/// The record of a directory named `name`.
pub open spec fn dir_rec(name: Seq<char>) -> RecView {
    RecView { attr: FA_DIREC, time: 0, size: 0, name }
}

/// The record of a file named `name` of `size` bytes.
pub open spec fn file_rec(name: Seq<char>, size: i32) -> RecView {
    RecView { attr: 0, time: 0, size, name }
}

/// The listing of the raw entries `raw` ((name, is-directory, size)
/// triples), each inserted in turn: directories unless hidden, files when
/// they match `wildcard`.
pub open spec fn listing_of(raw: Seq<(Seq<char>, bool, i32)>, wildcard: Seq<char>) -> Seq<RecView>
    decreases raw.len(),
{
    if raw.len() == 0 {
        Seq::empty()
    } else {
        let acc = listing_of(raw.drop_last(), wildcard);
        let (name, is_dir, size) = raw.last();
        if is_dir {
            if !starts_with_dot(name) { listed_insert(acc, dir_rec(name)) } else { acc }
        } else if glob(wildcard, name) {
            listed_insert(acc, file_rec(name, size))
        } else {
            acc
        }
    }
}

/// The listing of directory `dir`: its entries' listing, with `..` added
/// below the root.
pub open spec fn dir_listing(dir: Seq<char>, wildcard: Seq<char>, raw: Seq<(Seq<char>, bool, i32)>) -> Seq<RecView> {
    let l = listing_of(raw, wildcard);
    if dir == seq!['/'] { l } else { listed_insert(l, dir_rec(dotdot())) }
}

/// Every record of a listing carries the name of one of the raw entries.
pub proof fn lemma_listing_names(raw: Seq<(Seq<char>, bool, i32)>, wildcard: Seq<char>)
    ensures
        forall|k: int| 0 <= k < listing_of(raw, wildcard).len() ==>
            exists|i: int| 0 <= i < raw.len() && (#[trigger] raw[i]).0 == (#[trigger] listing_of(raw, wildcard)[k]).name,
    decreases raw.len(),
{
    if raw.len() > 0 {
        let init = raw.drop_last();
        lemma_listing_names(init, wildcard);
        let acc = listing_of(init, wildcard);
        let l = listing_of(raw, wildcard);
        let (name, is_dir, size) = raw.last();
        assert forall|k: int| 0 <= k < l.len() implies
            exists|i: int| 0 <= i < raw.len() && (#[trigger] raw[i]).0 == (#[trigger] l[k]).name by {
            if l == acc {
                let i = choose|i: int| 0 <= i < init.len() && (#[trigger] init[i]).0 == acc[k].name;
                assert(raw[i] == init[i]);
            } else {
                let rec = if is_dir { dir_rec(name) } else { file_rec(name, size) };
                assert(l == listed_insert(acc, rec));
                let b = insert_point(acc, rec);
                lemma_bsearch(|j: int| listing_order(acc[j], rec) < 0, 0, acc.len() as int);
                if k == b {
                    assert(l[k] == rec);
                    assert(raw[raw.len() - 1].0 == name);
                } else {
                    let k0 = if k < b { k } else { k - 1 };
                    assert(l[k] == acc[k0]);
                    let i = choose|i: int| 0 <= i < init.len() && (#[trigger] init[i]).0 == acc[k0].name;
                    assert(raw[i] == init[i]);
                }
            }
        }
    }
}

/// The listing of a directory whose entries have distinct names is in
/// listing order (files, then directories, then `..`, each by name) with no
/// name twice.
pub proof fn law_listing_sorted(raw: Seq<(Seq<char>, bool, i32)>, wildcard: Seq<char>)
    requires
        forall|i: int, j: int| 0 <= i < j < raw.len() ==> (#[trigger] raw[i]).0 != (#[trigger] raw[j]).0,
    ensures
        is_listing(listing_of(raw, wildcard)),
    decreases raw.len(),
{
    if raw.len() > 0 {
        let init = raw.drop_last();
        assert forall|i: int, j: int| 0 <= i < j < init.len() implies (#[trigger] init[i]).0 != (#[trigger] init[j]).0 by {
            assert(init[i] == raw[i] && init[j] == raw[j]);
        }
        law_listing_sorted(init, wildcard);
        lemma_listing_names(init, wildcard);
        let acc = listing_of(init, wildcard);
        let (name, is_dir, size) = raw.last();
        let rec = if is_dir { dir_rec(name) } else { file_rec(name, size) };
        assert forall|k: int| 0 <= k < acc.len() implies (#[trigger] acc[k]).name != rec.name by {
            let i = choose|i: int| 0 <= i < init.len() && (#[trigger] init[i]).0 == acc[k].name;
            assert(init[i] == raw[i]);
            assert(raw[i].0 != raw[raw.len() - 1].0);
        }
        law_insert_keeps_listing(acc, rec);
    }
}

/// The listing of a directory other than the root also holds `..`, listed
/// last; with distinct entry names, none of them `..`, it is in listing
/// order with no name twice.
pub proof fn law_dir_listing_sorted(dir: Seq<char>, raw: Seq<(Seq<char>, bool, i32)>, wildcard: Seq<char>)
    requires
        forall|i: int, j: int| 0 <= i < j < raw.len() ==> (#[trigger] raw[i]).0 != (#[trigger] raw[j]).0,
        forall|i: int| 0 <= i < raw.len() ==> (#[trigger] raw[i]).0 != dotdot(),
    ensures
        is_listing(dir_listing(dir, wildcard, raw)),
        dir != seq!['/'] ==> dir_listing(dir, wildcard, raw).last() == dir_rec(dotdot()),
{
    law_listing_sorted(raw, wildcard);
    if dir != seq!['/'] {
        let l = listing_of(raw, wildcard);
        lemma_listing_names(raw, wildcard);
        assert forall|k: int| 0 <= k < l.len() implies (#[trigger] l[k]).name != dotdot() by {
            let i = choose|i: int| 0 <= i < raw.len() && (#[trigger] raw[i]).0 == l[k].name;
        }
        law_insert_keeps_listing(l, dir_rec(dotdot()));
        let b = insert_point(l, dir_rec(dotdot()));
        lemma_bsearch(|j: int| listing_order(l[j], dir_rec(dotdot())) < 0, 0, l.len() as int);
        assert forall|k: int| 0 <= k < l.len() implies listed_before(#[trigger] l[k], dir_rec(dotdot())) by {
            assert(section(l[k]) < 2);
        }
        if b < l.len() {
            assert(listed_before(dir_rec(dotdot()), l[b]));
            assert(listed_before(l[b], dir_rec(dotdot())));
            assert(section(l[b]) < 2);
        }
    }
}

/// The raw triples as plain values.
pub open spec fn raw_triples(v: Seq<(String, bool, i32)>) -> Seq<(Seq<char>, bool, i32)> {
    v.map_values(|t: (String, bool, i32)| (t.0@, t.1, t.2))
}

/// Is `s` the root directory `/`?
fn is_root(s: &str) -> (r: bool)
    ensures
        r == (s@ == seq!['/']),
{
    let r = s.unicode_len() == 1 && s.get_char(0) == '/';
    proof {
        if r {
            assert(s@ =~= seq!['/']);
        }
    }
    r
}

impl FileList {
    /// The sorted listing of directory `dir` (a `/`-terminated absolute path)
    /// from its raw entries ((name, is-directory, size) triples): files that
    /// match `wildcard`, directories that are not hidden, and `..` unless `dir`
    /// is the root, inserted in that order into a [`FileCollection`].
    pub fn build_listing(dir: &str, wildcard: &str, raw: &[(String, bool, i32)]) -> (r: Vec<SearchRec>)
        requires
            forall|i: int| 0 <= i < raw@.len() ==> (#[trigger] raw@[i]).0@.len() < usize::MAX,
        ensures
            rec_views(r@) == dir_listing(dir@, wildcard@, raw_triples(raw@)),
    {
        let ghost t = raw_triples(raw@);
        let mut fc = FileCollection::new();
        let mut i: usize = 0;
        assert(t.take(0) =~= Seq::<(Seq<char>, bool, i32)>::empty());
        while i < raw.len()
            invariant
                t == raw_triples(raw@),
                i <= raw@.len(),
                forall|k: int| 0 <= k < raw@.len() ==> (#[trigger] raw@[k]).0@.len() < usize::MAX,
                fc.spec_items() == listing_of(t.take(i as int), wildcard@),
            decreases raw@.len() - i,
        {
            assert(t.take(i as int + 1).drop_last() =~= t.take(i as int));
            assert(t.take(i as int + 1).last() == t[i as int]);
            let (name, is_dir, size) = &raw[i];
            assert(t[i as int] == (name@, *is_dir, *size));
            if *is_dir {
                if !dot_first(name.as_str()) {
                    fc.insert(SearchRec { attr: FA_DIREC, time: 0, size: 0, name: name.clone() });
                }
            } else if FileList::wildcard_match(wildcard, name.as_str()) {
                fc.insert(SearchRec { attr: 0, time: 0, size: *size, name: name.clone() });
            }
            i = i + 1;
        }
        assert(t.take(raw@.len() as int) =~= t);
        if !is_root(dir) {
            let dd = "..";
            proof {
                reveal_strlit("..");
            }
            assert(dd@ =~= dotdot());
            fc.insert(SearchRec { attr: FA_DIREC, time: 0, size: 0, name: dd.to_owned() });
        }
        fc.into_items()
    }
}


/// The text a file list draws for a record: directories get a trailing `/`.
pub open spec fn file_text(r: RecView) -> Seq<char> {
    if is_dir_attr(r.attr) { r.name.push('/') } else { r.name }
}

/// The text of `item`, empty when there is no such record.
pub open spec fn file_item_text(s: Seq<RecView>, item: int) -> Seq<char> {
    if 0 <= item < s.len() { file_text(s[item]) } else { Seq::empty() }
}

/// The record a search for the typed text `cur` looks for: a directory
/// when shift was held as the search started or the text starts with `.`.
pub open spec fn search_key(shift: u8, cur: Seq<char>) -> RecView {
    RecView {
        attr: if (shift & KB_SHIFT) != 0 || starts_with_dot(cur) { FA_DIREC } else { 0 },
        time: 0,
        size: 0,
        name: cur,
    }
}

/// The answer of the file list's search: the binary-search boundary of the
/// records listed before the search key.
pub open spec fn file_search(s: Seq<RecView>, shift: u8, cur: Seq<char>) -> int {
    insert_point(s, search_key(shift, cur))
}

/// The longest text a searchable file list holds: search positions are
/// `i32`.
pub open spec fn file_texts_fit(s: Seq<RecView>) -> bool {
    forall|i: int| 0 <= i < s.len() ==> (#[trigger] file_text(s[i])).len() <= i32::MAX - 2
}

/// The file pane of the file dialog (`TFileList`): a two-column sorted
/// listing with type-to-search.
pub struct FileList {
    lv: ListViewerState,
    items: Vec<SearchRec>,
    search_pos: i32,
    shift_state: u8,
}

impl FileList {
    /// The records as plain values.
    pub closed spec fn spec_items(&self) -> Seq<RecView> {
        rec_views(self.items@)
    }

    /// The search position (-1 when no search is under way).
    pub closed spec fn spec_search_pos(&self) -> int {
        self.search_pos as int
    }

    /// The shift state captured when the search last started or emptied.
    pub closed spec fn spec_shift_state(&self) -> u8 {
        self.shift_state
    }

    /// The range counts the records, the search position lies within a
    /// text, and the texts fit the search positions.
    pub closed spec fn wf(&self) -> bool {
        &&& lv_wf(self.lv)
        &&& self.lv.range == self.spec_items().len()
        &&& -1 <= self.search_pos < i32::MAX - 1
        &&& file_texts_fit(self.spec_items())
    }

    /// An empty two-column file list showing the cursor one cell in
    /// (`TFileList::TFileList`).
    pub fn new(bounds: Rect, h: Option<ViewId>, v: Option<ViewId>) -> (fl: Self)
        requires
            bounds_fit(bounds),
        ensures
            fl.wf(),
            fl.lv_view() == ({
                let f = fresh_list_viewer(bounds, 2, h, v);
                ListViewerState {
                    state: ViewState {
                        state: crate::view::state::StateFlags { cursor_vis: true, ..f.state.state },
                        cursor: Point { x: 1, y: 0 },
                        ..f.state
                    },
                    ..f
                }
            }),
            fl.spec_items() == Seq::<RecView>::empty(),
            fl.spec_search_pos() == -1,
            fl.spec_shift_state() == 0,
    {
        let mut lv = ListViewerState::new(bounds, 2, h, v);
        lv.state.show_cursor();
        lv.state.set_cursor(1, 0);
        let fl = FileList { lv, items: Vec::new(), search_pos: -1, shift_state: 0 };
        assert(rec_views(fl.items@) =~= Seq::<RecView>::empty());
        fl
    }

    /// The records.
    pub fn list(&self) -> (r: &[SearchRec])
        ensures
            rec_views(r@) == self.spec_items(),
    {
        self.items.as_slice()
    }

    /// Can directory `dir` with these raw entries be listed: does the
    /// arithmetic of [`read_directory`](FileList::read_directory) stay within
    /// the machine's integers?
    pub fn fits_directory(&self, dir: &str, wildcard: &str, raw: &[(String, bool, i32)]) -> (r: bool)
        ensures
            r == ({
                let l = dir_listing(dir@, wildcard@, raw_triples(raw@));
                &&& forall|i: int| 0 <= i < raw@.len() ==> (#[trigger] raw@[i]).0@.len() < usize::MAX
                &&& listing_fits(self.lv_view(), l.len() as int)
                &&& file_texts_fit(l)
            }),
    {
        let mut i: usize = 0;
        while i < raw.len()
            invariant
                i <= raw@.len(),
                forall|k: int| 0 <= k < i ==> (#[trigger] raw@[k]).0@.len() < usize::MAX,
            decreases raw@.len() - i,
        {
            if raw[i].0.unicode_len() == usize::MAX {
                return false;
            }
            i = i + 1;
        }
        let items = FileList::build_listing(dir, wildcard, raw);
        let ghost l = rec_views(items@);
        assert(l == dir_listing(dir@, wildcard@, raw_triples(raw@)));
        assert(items@.len() == l.len());
        let n = items.len();
        if n > 0x7fff_ffff {
            return false;
        }
        if n > 0 {
            let mut l2 = self.lv;
            l2.range = n as i32;
            if l2.focused >= n as i32 {
                l2.focused = 0;
            }
            assert(l2 == ranged_state(self.lv, n as int));
            if !focus_item_fits_check(&l2, 0) {
                return false;
            }
        }
        let mut k: usize = 0;
        while k < n
            invariant
                n == items@.len(),
                l == rec_views(items@),
                l == dir_listing(dir@, wildcard@, raw_triples(raw@)),
                k <= n,
                forall|j: int| 0 <= j < k ==> (#[trigger] file_text(l[j])).len() <= i32::MAX - 2,
            decreases n - k,
        {
            let rec = &items[k];
            assert(l[k as int] == rec@);
            let len = rec.name.unicode_len();
            let dir_mark: usize = if (rec.attr & FA_DIREC) != 0 { 1 } else { 0 };
            assert(file_text(l[k as int]).len() == len + dir_mark);
            if len > 0x7fff_fffd || len + dir_mark > 0x7fff_fffd {
                assert(!file_texts_fit(l)) by {
                    assert(file_text(l[k as int]).len() > i32::MAX - 2);
                }
                return false;
            }
            k = k + 1;
        }
        true
    }

    /// List directory `dir` (`TFileList::readDirectory`) from its raw
    /// entries ((name, is-directory, size) triples): see [`build_listing`];
    /// the range is published and, for a non-empty listing, the first
    /// record focused.
    pub fn read_directory(&mut self, dir: &str, wildcard: &str, raw: Vec<(String, bool, i32)>, ctx: &mut Context)
        requires
            old(self).wf(),
            forall|i: int| 0 <= i < raw@.len() ==> (#[trigger] raw@[i]).0@.len() < usize::MAX,
            ({
                let l = dir_listing(dir@, wildcard@, raw_triples(raw@));
                &&& listing_fits(old(self).lv_view(), l.len() as int)
                &&& file_texts_fit(l)
            }),
        ensures
            final(self).wf(),
            final(self).spec_items() == dir_listing(dir@, wildcard@, raw_triples(raw@)),
            final(self).lv_view() == listed_state(old(self).lv_view(), final(self).spec_items().len() as int),
            final(self).spec_search_pos() == old(self).spec_search_pos(),
            final(self).spec_shift_state() == old(self).spec_shift_state(),
            final(ctx).deferred@ == old(ctx).deferred@ + listed_requests(old(self).lv_view(), final(self).spec_items().len() as int),
            final(ctx).out@ == old(ctx).out@,
    {
        let items = FileList::build_listing(dir, wildcard, raw.as_slice());
        assert(items@.len() == rec_views(items@).len());
        self.items = items;
        let len = self.items.len() as i32;
        list_viewer::set_range(&mut self.lv, len, ctx);
        if self.lv.range > 0 {
            list_viewer::focus_item(&mut self.lv, 0, ctx);
        }
        assert(ctx.deferred@ =~= old(ctx).deferred@ + listed_requests(old(self).lv, len as int));
        proof {
            lemma_listed_wf(old(self).lv, len as int);
        }
    }

    /// The search position (-1 when no search is under way).
    pub fn search_pos(&self) -> (r: i32)
        ensures
            r == self.spec_search_pos(),
    {
        self.search_pos
    }

    /// Set the search position.
    pub fn set_search_pos(&mut self, pos: i32)
        requires
            old(self).wf(),
            -1 <= pos < i32::MAX - 1,
        ensures
            final(self).wf(),
            final(self).spec_search_pos() == pos,
            final(self).spec_items() == old(self).spec_items(),
            final(self).lv_view() == old(self).lv_view(),
            final(self).spec_shift_state() == old(self).spec_shift_state(),
    {
        self.search_pos = pos;
    }

    /// The captured shift state.
    pub fn shift_state(&self) -> (r: u8)
        ensures
            r == self.spec_shift_state(),
    {
        self.shift_state
    }

    /// Set the captured shift state.
    pub fn set_shift_state(&mut self, s: u8)
        ensures
            final(self).spec_shift_state() == s,
            final(self).spec_search_pos() == old(self).spec_search_pos(),
            final(self).spec_items() == old(self).spec_items(),
            final(self).lv_view() == old(self).lv_view(),
            old(self).wf() ==> final(self).wf(),
    {
        self.shift_state = s;
    }

    /// The search of the file list (`getKey` and the collection's search):
    /// the first record not listed before the key record for `cur` (see
    /// [`search_key`]), found by binary search over the listing order.
    pub fn search(&self, cur: &[char]) -> (r: i32)
        requires
            self.wf(),
        ensures
            r == file_search(self.spec_items(), self.spec_shift_state(), cur@),
    {
        let dot = cur.len() > 0 && cur[0] == '.';
        let attr: u8 = if (self.shift_state & KB_SHIFT) != 0 || dot { FA_DIREC } else { 0 };
        let name_chars = slice_to_vec(cur);
        let key = SearchRec { attr, time: 0, size: 0, name: string_of(&name_chars) };
        let ghost s = self.spec_items();
        let ghost pred = |k: int| listing_order(s[k], search_key(self.shift_state, cur@)) < 0;
        assert(key@ == search_key(self.shift_state, cur@));
        let range = self.lv.range;
        let mut lo: i32 = 0;
        let mut hi: i32 = range;
        while lo < hi
            invariant
                s == self.spec_items(),
                self.wf(),
                range == s.len(),
                key@ == search_key(self.shift_state, cur@),
                pred == (|k: int| listing_order(s[k], search_key(self.shift_state, cur@)) < 0),
                0 <= lo <= hi <= range,
                bsearch(pred, lo as int, hi as int) == file_search(s, self.shift_state, cur@),
            decreases hi - lo,
        {
            let mid = lo + (hi - lo) / 2;
            if listing_less(&self.items[mid as usize], &key) {
                assert(pred(mid as int));
                lo = mid + 1;
            } else {
                hi = mid;
            }
        }
        lo
    }

    /// Handle an event (`TSortedListBox::handleEvent` over a file list):
    /// the list handles it first (selecting does nothing here), and a focus
    /// move or loss ends the search; then a character key edits the search
    /// text and the first record not listed before its key record is
    /// focused when its text starts with the typed prefix (see
    /// [`search_reaction`](crate::widgets::type_search::search_reaction)).
    pub fn handle_event(&mut self, ev: &mut Event, ctx: &mut Context)
        requires
            old(self).wf(),
            event_fits(old(self).lv_view(), *old(ev)),
            forall|v: int| 0 <= v < old(self).lv_view().range
                ==> focus_item_fits(#[trigger] spec_handle_event(old(self).lv_view(), *old(ev)).0, v),
        ensures
            final(self).wf(),
            final(self).spec_items() == old(self).spec_items(),
            ({
                let (lv1, ev1, reqs1, s) = spec_handle_event(old(self).lv_view(), *old(ev));
                lv1.focused != old(self).lv_view().focused || is_released(ev1) ==> final(self).spec_search_pos() == -1
            }),
            ({
                let (lv1, ev1, reqs1, s) = spec_handle_event(old(self).lv_view(), *old(ev));
                let items = old(self).spec_items();
                let pos0 = reset_pos(old(self).lv_view().focused as int, lv1, ev1, old(self).spec_search_pos());
                let (lv2, ev2, pos2, sh2, reqs2) = search_reaction(
                    lv1,
                    ev1,
                    pos0,
                    old(self).spec_shift_state(),
                    |i: int| file_item_text(items, i),
                    |sh: u8, k: Seq<char>| file_search(items, sh, k),
                    |ke: KeyEvent| shift_bits(ke),
                    old(self).lv_view().focused as int,
                );
                &&& final(self).lv_view() == lv2
                &&& *final(ev) == ev2
                &&& final(self).spec_search_pos() == pos2
                &&& final(self).spec_shift_state() == sh2
                &&& final(ctx).deferred@ == old(ctx).deferred@ + reqs1 + reqs2
                &&& final(ctx).out@ == old(ctx).out@
            }),
    {
        let ghost items = self.spec_items();
        let old_value = self.lv.focused;
        let sel = list_viewer::handle_event(&mut self.lv, ev, ctx);
        if let Some(item) = sel {
            self.select_item(item, ctx);
        }
        proof {
            lemma_handle_event_wf(old(self).lv, *old(ev));
        }
        let ghost d1 = ctx.deferred@;
        if old_value != self.lv.focused || released(ev) {
            self.search_pos = -1;
        }
        let ke = match *ev {
            Event::KeyDown(ke) => ke,
            _ => {
                assert(ctx.deferred@ =~= d1 + Seq::<Deferred>::empty());
                return;
            },
        };
        let input = match key_search_input(ke) {
            Some(i) => i,
            None => {
                assert(ctx.deferred@ =~= d1 + Seq::<Deferred>::empty());
                return;
            },
        };
        let range = self.lv.range;
        let value0 = self.lv.focused;
        let cur: Vec<char> = if value0 < range {
            let t = self.get_text(value0);
            chars_of(t.as_str())
        } else {
            Vec::new()
        };
        let old_pos = self.search_pos;
        proof {
            if 0 <= value0 < range {
                assert(file_text(items[value0 as int]).len() <= i32::MAX - 2);
            }
        }
        let (p, key) = match edit_search(old_pos, input, cur) {
            Some(r) => r,
            None => {
                assert(ctx.deferred@ =~= d1 + Seq::<Deferred>::empty());
                return;
            },
        };
        let captures = match input {
            SearchInput::Back => p == -1,
            SearchInput::Char(_) => p == 0,
            SearchInput::Dot => false,
        };
        if captures {
            self.shift_state = key_shift_bits(ke);
        }
        let value = self.search(key.as_slice());
        proof {
            lemma_bsearch(|k: int| listing_order(items[k], search_key(self.shift_state, key@)) < 0, 0, items.len() as int);
        }
        let found: Vec<char> = if value < range {
            let t = self.get_text(value);
            chars_of(t.as_str())
        } else {
            Vec::new()
        };
        let ghost lv_before = self.lv;
        let pos = settle(&mut self.lv, &key, &found, value, p, old_pos, old_value, ctx);
        self.search_pos = pos;
        if pos != old_pos || alpha_input(input) {
            ev.clear();
        }
        proof {
            if pos == p && p != old_pos {
                assert(found@.len() >= p + 1);
            }
            if confirms(lv_before, key@, found@, value as int, p as int) && value != old_value {
                lemma_focused_wf(lv_before, value as int);
            }
        }
    }

    /// Where the terminal cursor goes: on the focused record, just after
    /// the matched prefix.
    pub fn cursor_request(&self) -> (r: Option<Point>)
        requires
            self.wf(),
            cursor_fits(self.lv_view()),
            spec_focused_cursor(self.lv_view()) matches Some(b)
                ==> fits_i32(b.x + self.spec_search_pos() + 1),
        ensures
            r == match spec_focused_cursor(self.lv_view()) {
                Some(b) => Some(Point {
                    x: (b.x + if self.spec_search_pos() + 1 > 0 { self.spec_search_pos() + 1 } else { 0 }) as i32,
                    y: b.y,
                }),
                None => None,
            },
    {
        match list_viewer::focused_cursor(&self.lv) {
            Some(b) => {
                let adv = if self.search_pos + 1 > 0 { self.search_pos + 1 } else { 0 };
                Some(Point { x: b.x + adv, y: b.y })
            },
            None => None,
        }
    }

    /// The view state.
    pub fn state(&self) -> (r: &ViewState)
        ensures
            *r == self.lv_view().state,
    {
        &self.lv.state
    }

    /// Draw the listing (the shared list-viewer drawing).
    pub fn draw(&self, ctx: &mut DrawCtx)
        requires
            old(ctx).wf(),
            cursor_fits(self.lv_view()),
        ensures
            final(ctx).wf(),
            final(ctx).same_frame(old(ctx)),
            final(ctx).spec_cells() == apply_ops(old(ctx).frame(), old(ctx).spec_cells(), list_draw_ops(self, old(ctx).spec_theme())),
    {
        list_viewer::draw(self, ctx);
    }

    /// Set or clear a state flag (the shared list-viewer handling).
    pub fn set_state(&mut self, flag: StateFlag, enable: bool, ctx: &mut Context)
        requires
            old(self).wf(),
        ensures
            final(self).wf(),
            final(self).lv_view() == flagged_state(old(self).lv_view(), flag, enable),
            final(self).spec_items() == old(self).spec_items(),
            final(self).spec_search_pos() == old(self).spec_search_pos(),
            final(ctx).out@ == old(ctx).out@ + state_events(old(self).lv_view(), flag, enable),
            final(ctx).deferred@ == old(ctx).deferred@ + state_requests(old(self).lv_view(), flag, enable),
    {
        list_viewer::set_state(&mut self.lv, flag, enable, ctx);
    }

    /// The file list contributes no dialog value.
    pub fn value(&self) -> (r: Option<FieldValue>)
        ensures
            r is None,
    {
        None
    }
}

/// The characters of `s`, owned.
fn slice_to_vec(s: &[char]) -> (v: Vec<char>)
    ensures
        v@ == s@,
{
    let mut v: Vec<char> = Vec::new();
    push_all(&mut v, s);
    assert(v@ =~= s@);
    v
}

impl ListViewer for FileList {
    closed spec fn lv_view(&self) -> ListViewerState {
        self.lv
    }

    open spec fn text_of(&self, item: int) -> Seq<char> {
        file_item_text(self.spec_items(), item)
    }

    open spec fn selected_of(&self, item: int) -> bool {
        item == self.lv_view().focused
    }

    fn lv(&self) -> (r: &ListViewerState) {
        &self.lv
    }

    /// The record's name, with `/` after a directory's; empty out of range.
    fn get_text(&self, item: i32) -> (s: String) {
        if item >= 0 && (item as usize) < self.items.len() {
            let rec = &self.items[item as usize];
            let mut t = rec.name.clone();
            if (rec.attr & FA_DIREC) != 0 {
                crate::text::push_char(&mut t, '/');
            }
            t
        } else {
            String::new()
        }
    }

    /// The focused record is drawn selected.
    fn is_selected(&self, item: i32) -> (b: bool) {
        item == self.lv.focused
    }

    /// Selecting a record does nothing here; opening it is the owning
    /// dialog's business.
    fn select_item(&mut self, item: i32, ctx: &mut Context)
        ensures
            *final(ctx) == *old(ctx),
            *final(self) == *old(self),
    {
    }
}

} // verus!
