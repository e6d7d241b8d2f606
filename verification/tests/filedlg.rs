use core::cmp::Ordering;
use tvision::dialog::{search_rec_compare, DirEntry, DirListBox, FileCollection, FileList, SearchRec, FA_DIREC};
use tvision::event::{Event, Key, KeyEvent, KeyModifiers};
use tvision::view::geometry::Rect;
use tvision::view::Context;
use tvision::widgets::list_viewer::ListViewer;
use tvision::widgets::type_search::KB_SHIFT;

fn rec(name: &str, is_dir: bool) -> SearchRec {
    SearchRec { attr: if is_dir { FA_DIREC } else { 0 }, time: 0, size: 0, name: name.into() }
}

fn raw(name: &str, is_dir: bool, size: i32) -> (String, bool, i32) {
    (name.into(), is_dir, size)
}

fn names(items: &[SearchRec]) -> Vec<&str> {
    items.iter().map(|r| r.name.as_str()).collect()
}

#[test]
fn dir_entry_accessors() {
    let e = DirEntry::new("~ disp", "/some/dir");
    assert_eq!(e.text(), "~ disp");
    assert_eq!(e.dir(), "/some/dir");
}

#[test]
fn dir_entry_clone_and_eq() {
    let e = DirEntry::new("a", "b");
    assert_eq!(e.clone(), e);
}

#[test]
fn compare_equal_names() {
    assert_eq!(search_rec_compare(&rec("foo", false), &rec("foo", false)), Ordering::Equal);
}

#[test]
fn compare_a_is_dotdot() {
    assert_eq!(search_rec_compare(&rec("..", false), &rec("foo", false)), Ordering::Greater);
}

#[test]
fn compare_b_is_dotdot() {
    assert_eq!(search_rec_compare(&rec("foo", false), &rec("..", false)), Ordering::Less);
}

#[test]
fn compare_dir_after_file() {
    assert_eq!(search_rec_compare(&rec("src", true), &rec("main.rs", false)), Ordering::Greater);
}

#[test]
fn compare_file_before_dir() {
    assert_eq!(search_rec_compare(&rec("main.rs", false), &rec("src", true)), Ordering::Less);
}

#[test]
fn compare_both_files_alpha_order() {
    assert_eq!(search_rec_compare(&rec("apple", false), &rec("banana", false)), Ordering::Less);
    assert_eq!(search_rec_compare(&rec("banana", false), &rec("apple", false)), Ordering::Greater);
}

#[test]
fn compare_case_sensitive_byte_order() {
    assert_eq!(search_rec_compare(&rec("Zebra", false), &rec("apple", false)), Ordering::Less);
}

#[test]
fn compare_both_dirs_alpha_order() {
    assert_eq!(search_rec_compare(&rec("alpha", true), &rec("beta", true)), Ordering::Less);
}

#[test]
fn compare_same_name_different_kind_is_equal() {
    assert_eq!(search_rec_compare(&rec("x", true), &rec("x", false)), Ordering::Equal);
}

#[test]
fn compare_is_antisymmetric_on_samples() {
    let recs = [rec("a", false), rec("b", true), rec("..", true), rec("B", false), rec("a.rs", false)];
    for x in &recs {
        for y in &recs {
            assert_eq!(search_rec_compare(x, y), search_rec_compare(y, x).reverse());
        }
    }
}

#[test]
fn file_collection_sorted_insert() {
    let mut fc = FileCollection::new();
    fc.insert(rec("readme.txt", false));
    fc.insert(rec("..", false));
    fc.insert(rec("src", true));
    fc.insert(rec("main.rs", false));
    assert_eq!(names(fc.items()), vec!["main.rs", "readme.txt", "src", ".."]);
    for w in fc.items().windows(2) {
        assert_ne!(search_rec_compare(&w[0], &w[1]), Ordering::Greater, "pair ({}, {}) is out of order", w[0].name, w[1].name);
    }
}

#[test]
fn file_collection_multiple_dirs() {
    let mut fc = FileCollection::new();
    fc.insert(rec("docs", true));
    fc.insert(rec("file.txt", false));
    fc.insert(rec("alpha", true));
    fc.insert(rec("..", false));
    fc.insert(rec("build.rs", false));
    assert_eq!(names(fc.items()), vec!["build.rs", "file.txt", "alpha", "docs", ".."]);
}

#[test]
fn file_collection_at_len_is_empty() {
    let mut fc = FileCollection::new();
    assert!(fc.is_empty());
    assert_eq!(fc.len(), 0);
    assert!(fc.at(0).is_none());
    fc.insert(rec("foo.txt", false));
    assert!(!fc.is_empty());
    assert_eq!(fc.len(), 1);
    assert_eq!(fc.at(0).map(|r| r.name.as_str()), Some("foo.txt"));
    assert!(fc.at(1).is_none());
}

#[test]
fn file_collection_default_is_empty() {
    let fc = FileCollection::default();
    assert!(fc.is_empty());
}

#[test]
fn file_collection_into_items_keeps_order() {
    let mut fc = FileCollection::new();
    fc.insert(rec("b", false));
    fc.insert(rec("a", false));
    let v = fc.into_items();
    assert_eq!(names(&v), vec!["a", "b"]);
}

#[test]
fn build_tree_deep_dir_three_subdirs() {
    let subdirs: Vec<String> = vec!["projects".into(), "scratch".into(), "tmp".into()];
    let (entries, cur) = DirListBox::build_tree("/home/oetiker/", &subdirs);
    assert_eq!(entries.len(), 6);
    assert_eq!(cur, 2);
    assert_eq!(entries[0].directory, "/");
    assert_eq!(entries[1].directory, "/home");
    assert_eq!(entries[2].directory, "/home/oetiker");
    assert_eq!(entries[3].directory, "/home/oetiker/projects");
    assert_eq!(entries[4].directory, "/home/oetiker/scratch");
    assert_eq!(entries[5].directory, "/home/oetiker/tmp");
    assert!(entries[0].display_text.contains("└─┬"));
    assert!(entries[1].display_text.contains("└─┬"));
    assert!(entries[2].display_text.contains("└─┬"));
    assert!(entries[3].display_text.contains("└┬─"));
    assert!(entries[4].display_text.contains(" ├─"));
    assert!(entries[5].display_text.contains('└'));
    assert!(!entries[5].display_text.contains('├'));
}

#[test]
fn build_tree_root_only_two_subdirs() {
    let subdirs: Vec<String> = vec!["etc".into(), "usr".into()];
    let (entries, cur) = DirListBox::build_tree("/", &subdirs);
    assert_eq!(entries.len(), 3);
    assert_eq!(cur, 0);
    assert_eq!(entries[0].directory, "/");
    assert_eq!(entries[1].directory, "/etc");
    assert_eq!(entries[2].directory, "/usr");
    assert!(entries[1].display_text.starts_with("  "));
    assert!(entries[2].display_text.contains('└'));
    assert!(!entries[2].display_text.contains('├'));
}

#[test]
fn build_tree_single_subdir_fixup() {
    let subdirs: Vec<String> = vec!["only".into()];
    let (entries, cur) = DirListBox::build_tree("/", &subdirs);
    assert_eq!(entries.len(), 2);
    assert_eq!(cur, 0);
    let display = &entries[1].display_text;
    assert!(display.contains("└──"), "got: {:?}", display);
    assert!(!display.contains("┬─"));
}

#[test]
fn build_tree_no_subdirs() {
    let (entries, cur) = DirListBox::build_tree("/home/user/", &[]);
    assert_eq!(entries.len(), 3);
    assert_eq!(cur, 2);
    assert!(entries[2].display_text.ends_with("└──user"), "got: {:?}", entries[2].display_text);
    assert!(!entries[2].display_text.contains('┬'));
    assert!(entries[1].display_text.contains("└─┬"));
}

#[test]
fn build_tree_root_only_no_subdirs() {
    let (entries, cur) = DirListBox::build_tree("/", &[]);
    assert_eq!(entries.len(), 1);
    assert_eq!(cur, 0);
    assert_eq!(entries[0].directory, "/");
    assert_eq!(entries[0].display_text, "└──/");
}

#[test]
fn build_tree_exact_rows() {
    let subdirs: Vec<String> = vec!["a".into(), "b".into()];
    let (entries, cur) = DirListBox::build_tree("/x/", &subdirs);
    assert_eq!(cur, 1);
    let texts: Vec<&str> = entries.iter().map(|e| e.text()).collect();
    assert_eq!(texts, vec!["└─┬/", "  └─┬x", "    └┬─a", "     └─b"]);
}

#[test]
fn dir_list_box_is_selected_returns_cur() {
    let mut dlb = DirListBox::new(Rect::new(0, 0, 30, 8), None, None);
    let mut ctx = Context::new();
    dlb.new_directory("/home/oetiker/", vec![("a".into(), true), ("b".into(), true)], &mut ctx);
    let cur = 2;
    assert!(dlb.is_selected(cur as i32), "cur entry is selected");
    assert!(!dlb.is_selected(0), "root entry is not selected");
    assert!(!dlb.is_selected(1), "home entry is not selected");
}

#[test]
fn new_directory_filters_sorts_and_focuses_current() {
    let mut dlb = DirListBox::new(Rect::new(0, 0, 30, 8), None, None);
    let mut ctx = Context::new();
    let entries = vec![
        ("zeta".to_string(), true),
        (".hidden".to_string(), true),
        ("notes.txt".to_string(), false),
        ("Alpha".to_string(), true),
    ];
    dlb.new_directory("/srv/", entries, &mut ctx);
    let dirs: Vec<&str> = dlb.list().iter().map(|e| e.dir()).collect();
    assert_eq!(dirs, vec!["/", "/srv", "/srv/Alpha", "/srv/zeta"]);
    assert_eq!(dlb.lv().range, 4);
    assert_eq!(dlb.lv().focused, 1);
}

#[test]
fn wildcard_star_matches_all() {
    assert!(FileList::wildcard_match("*", ""));
    assert!(FileList::wildcard_match("*", "anything.rs"));
    assert!(FileList::wildcard_match("*", "no.extension.here"));
}

#[test]
fn wildcard_extension_filter() {
    assert!(FileList::wildcard_match("*.txt", "a.txt"));
    assert!(FileList::wildcard_match("*.txt", "longer.name.txt"));
    assert!(!FileList::wildcard_match("*.txt", "a.rs"));
    assert!(!FileList::wildcard_match("*.txt", "txt"));
}

#[test]
fn wildcard_question_mark_single_char() {
    assert!(FileList::wildcard_match("?.rs", "a.rs"));
    assert!(!FileList::wildcard_match("?.rs", "ab.rs"));
    assert!(!FileList::wildcard_match("?.rs", ".rs"));
}

#[test]
fn wildcard_star_edges() {
    assert!(FileList::wildcard_match("a*z", "az"));
    assert!(FileList::wildcard_match("a*z", "abcz"));
    assert!(!FileList::wildcard_match("a*z", "abc"));
    assert!(!FileList::wildcard_match("a*z", "bz"));
    assert!(!FileList::wildcard_match("*.TXT", "a.txt"));
}

#[test]
fn wildcard_backtracking_cases() {
    assert!(FileList::wildcard_match("*a*b", "xaxxab"));
    assert!(!FileList::wildcard_match("*a*b", "xaxxa"));
    assert!(FileList::wildcard_match("**?", "q"));
    assert!(!FileList::wildcard_match("", "q"));
    assert!(FileList::wildcard_match("", ""));
}

#[test]
fn build_listing_files_filtered_dirs_always() {
    let raw_entries = vec![raw("keep.txt", false, 10), raw("skip.rs", false, 20), raw("src", true, 0), raw("docs", true, 0)];
    let items = FileList::build_listing("/home/oetiker/", "*.txt", &raw_entries);
    assert_eq!(names(&items), vec!["keep.txt", "docs", "src", ".."]);
    assert_eq!(items[0].size, 10);
    assert_eq!(items[0].attr & FA_DIREC, 0);
    assert_eq!(items[1].attr & FA_DIREC, FA_DIREC);
    assert_eq!(items[3].attr & FA_DIREC, FA_DIREC);
}

#[test]
fn build_listing_drops_hidden_dirs_and_dot_entries() {
    let raw_entries = vec![
        raw(".git", true, 0),
        raw(".", true, 0),
        raw("..", true, 0),
        raw("visible", true, 0),
        raw(".hidden", false, 5),
    ];
    let items = FileList::build_listing("/home/oetiker/", "*", &raw_entries);
    assert_eq!(names(&items), vec![".hidden", "visible", ".."]);
}

#[test]
fn build_listing_dotdot_only_off_root() {
    let items = FileList::build_listing("/home/oetiker/", "*", &[raw("a", true, 0)]);
    assert!(items.iter().any(|r| r.name == ".."));
    let items = FileList::build_listing("/", "*", &[raw("a", true, 0)]);
    assert!(!items.iter().any(|r| r.name == ".."));
}

#[test]
fn build_listing_order_matches_comparator() {
    let raw_entries = vec![raw("zebra.rs", false, 1), raw("apple.rs", false, 1), raw("src", true, 0), raw("bin", true, 0)];
    let items = FileList::build_listing("/home/oetiker/", "*", &raw_entries);
    assert_eq!(names(&items), vec!["apple.rs", "zebra.rs", "bin", "src", ".."]);

    let mut fl = FileList::new(Rect::new(0, 0, 30, 8), None, None);
    let mut ctx = Context::new();
    fl.read_directory("/home/oetiker/", "*", raw_entries, &mut ctx);
    assert_eq!(fl.get_text(0), "apple.rs");
    assert_eq!(fl.get_text(2), "bin/");
    assert_eq!(fl.get_text(4), "../");
}

#[test]
fn search_attr_routes_into_file_vs_dir_section() {
    let raw_entries = vec![raw("src.rs", false, 1), raw("src", true, 0)];
    let items = FileList::build_listing("/home/oetiker/", "*", &raw_entries);
    assert_eq!(names(&items), vec!["src.rs", "src", ".."]);

    let mut fl = FileList::new(Rect::new(0, 0, 30, 8), None, None);
    let mut ctx = Context::new();
    fl.read_directory("/home/oetiker/", "*", raw_entries, &mut ctx);

    fl.set_shift_state(0);
    assert_eq!(fl.search(&['s']), 0, "file key lands at the first file >= 's'");
    fl.set_shift_state(KB_SHIFT);
    assert_eq!(fl.search(&['s']), 1, "dir key sorts after all files");
    fl.set_shift_state(0);
    assert_eq!(fl.search(&['.']), 1, "leading '.' -> dir key -> first dir");
}

#[test]
fn search_plain_first_ge() {
    let raw_entries = vec![raw("alpha.rs", false, 1), raw("sigma.rs", false, 1), raw("zeta.rs", false, 1)];
    let mut fl = FileList::new(Rect::new(0, 0, 30, 8), None, None);
    let mut ctx = Context::new();
    fl.read_directory("/home/oetiker/", "*", raw_entries, &mut ctx);
    assert_eq!(fl.search(&['s']), 1);
}

#[test]
fn file_list_type_to_jump_focuses_match() {
    let raw_entries = vec![raw("alpha.rs", false, 1), raw("sigma.rs", false, 1), raw("zeta.rs", false, 1)];
    let mut fl = FileList::new(Rect::new(0, 0, 30, 8), None, None);
    let mut ctx = Context::new();
    fl.read_directory("/home/oetiker/", "*", raw_entries, &mut ctx);
    assert_eq!(fl.lv().focused, 0);
    let mut ev = Event::KeyDown(KeyEvent::new(Key::Char('s'), KeyModifiers::default()));
    fl.handle_event(&mut ev, &mut ctx);
    assert_eq!(fl.lv().focused, 1, "'s' -> focus sigma.rs (idx 1)");
    assert!(ev.is_nothing(), "alphabetic char consumed");
    assert_eq!(fl.search_pos(), 0);
}

#[test]
fn file_list_shifted_key_searches_directories() {
    let raw_entries = vec![raw("src.rs", false, 1), raw("src", true, 0), raw("zz", false, 1)];
    let mut fl = FileList::new(Rect::new(0, 0, 30, 8), None, None);
    let mut ctx = Context::new();
    fl.read_directory("/p/", "*", raw_entries, &mut ctx);
    let shift = KeyModifiers { shift: true, ..Default::default() };
    let mut ev = Event::KeyDown(KeyEvent::new(Key::Char('s'), shift));
    fl.handle_event(&mut ev, &mut ctx);
    assert_eq!(fl.shift_state(), KB_SHIFT);
    assert_eq!(fl.get_text(fl.lv().focused), "src/");
}

#[test]
fn file_list_has_no_dialog_value() {
    let fl = FileList::new(Rect::new(0, 0, 30, 8), None, None);
    assert!(fl.value().is_none());
}

#[test]
fn wildcard_plain_pattern_matches_only_itself() {
    assert!(FileList::wildcard_match("notes.txt", "notes.txt"));
    assert!(!FileList::wildcard_match("notes.txt", "Notes.txt"));
    assert!(!FileList::wildcard_match("notes.txt", "notes.txt~"));
    assert!(!FileList::wildcard_match("", "a"));
    assert!(FileList::wildcard_match("", ""));
}

#[test]
fn listing_is_ordered_files_then_dirs_then_parent() {
    let raw_entries = vec![
        raw("zeta.txt", false, 1),
        raw("src", true, 0),
        raw("Alpha.txt", false, 2),
        raw("bin", true, 0),
        raw("beta.txt", false, 3),
    ];
    let items = FileList::build_listing("/work/", "*", &raw_entries);
    assert_eq!(names(&items), vec!["Alpha.txt", "beta.txt", "zeta.txt", "bin", "src", ".."]);
    assert_eq!(items.last().unwrap().attr & FA_DIREC, FA_DIREC);
}

#[test]
fn file_collection_insert_keeps_order_and_lands_at_boundary() {
    let mut fc = FileCollection::new();
    for (n, d) in [("m.txt", false), ("src", true), ("a.txt", false), ("..", true), ("z.txt", false)] {
        fc.insert(rec(n, d));
    }
    assert_eq!(names(fc.items()), vec!["a.txt", "m.txt", "z.txt", "src", ".."]);
    for w in fc.items().windows(2) {
        assert_ne!(search_rec_compare(&w[0], &w[1]), Ordering::Greater);
    }
    assert!(!fc.is_empty());
    assert_eq!(fc.len(), 5);
}

#[test]
fn fits_directory_accepts_ordinary_listings() {
    let dlb = DirListBox::new(Rect::new(0, 0, 30, 8), None, None);
    let entries = vec![("docs".to_string(), true), ("a.txt".to_string(), false)];
    assert!(dlb.fits_directory("/home/user/", &entries));
    let fl = FileList::new(Rect::new(0, 0, 40, 10), None, None);
    let raw_entries = vec![raw("a.txt", false, 3), raw("src", true, 0)];
    assert!(fl.fits_directory("/home/user/", "*", &raw_entries));
}
