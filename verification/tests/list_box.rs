use tvision::command::Command;
use tvision::data::FieldValue;
use tvision::event::{Event, Key, KeyEvent, KeyModifiers};
use tvision::view::geometry::{Point, Rect};
use tvision::view::state::{StateFlag, ViewId};
use tvision::view::{Context, Deferred};
use tvision::widgets::list_box::{ListBox, SortedListBox};
use tvision::widgets::list_viewer::ListViewer;

fn key_ev(k: Key) -> Event {
    Event::KeyDown(KeyEvent::new(k, KeyModifiers::default()))
}

fn strings(v: &[&str]) -> Vec<String> {
    v.iter().map(|s| s.to_string()).collect()
}

#[test]
fn ctor_empty_items_and_zeroed_fields() {
    let lb = ListBox::new(Rect::new(0, 0, 20, 8), 1, None, None);
    assert!(lb.lv().state.options.first_click, "ofFirstClick set");
    assert!(lb.lv().state.options.selectable, "ofSelectable set");
    assert_eq!(lb.lv().range, 0);
    assert_eq!(lb.lv().focused, 0);
    assert_eq!(lb.lv().top_item, 0);
    assert_eq!(lb.lv().indent, 0);
    assert_eq!(lb.lv().num_cols, 1);
    assert!(lb.list().is_empty(), "items starts empty");
}

#[test]
fn new_list_sets_range_and_queues_vbar_params() {
    let sentinel = ViewId(42);
    let mut lb = ListBox::new(Rect::new(0, 0, 20, 8), 1, None, Some(sentinel));
    let mut ctx = Context::new();
    lb.new_list(strings(&["alpha", "beta", "gamma"]), &mut ctx);
    assert_eq!(lb.lv().range, 3, "range == N after new_list");
    assert_eq!(lb.lv().focused, 0, "focus_item(0) called");
    assert_eq!(ctx.deferred.len(), 2, "set_range + focus_item each queue one op");
    assert!(matches!(
        ctx.deferred[0],
        Deferred::ScrollBarSetParams { id, value: Some(0), min: Some(0), max: Some(2), page_step: None, arrow_step: None }
            if id == sentinel
    ));
    assert!(matches!(
        ctx.deferred[1],
        Deferred::ScrollBarSetParams { id, value: Some(0), min: None, max: None, page_step: None, arrow_step: None }
            if id == sentinel
    ));
}

#[test]
fn new_list_empty_skips_focus_item() {
    let mut lb = ListBox::new(Rect::new(0, 0, 20, 8), 1, None, None);
    let mut ctx = Context::new();
    lb.new_list(vec![], &mut ctx);
    assert_eq!(lb.lv().range, 0);
    assert!(ctx.deferred.is_empty(), "empty list queues nothing");
}

#[test]
fn new_list_replaces_previous_items() {
    let mut lb = ListBox::new(Rect::new(0, 0, 20, 8), 1, None, None);
    let mut ctx = Context::new();
    lb.new_list(strings(&["first"]), &mut ctx);
    ctx.deferred.clear();
    lb.new_list(strings(&["second", "third"]), &mut ctx);
    assert_eq!(lb.list().len(), 2, "old items replaced");
    assert_eq!(lb.list()[0], "second");
    assert_eq!(lb.list()[1], "third");
    assert!(lb.list().iter().all(|s| s != "first"));
}

#[test]
fn get_text_returns_item_or_empty_for_oob() {
    let mut lb = ListBox::new(Rect::new(0, 0, 20, 8), 1, None, None);
    let mut ctx = Context::new();
    lb.new_list(strings(&["alpha", "beta"]), &mut ctx);
    let text0 = lb.get_text(0);
    assert_eq!(text0, "alpha");
    assert_ne!(text0, "");
    assert_eq!(lb.get_text(1), "beta");
    assert_eq!(lb.get_text(2), "");
    assert_eq!(lb.get_text(99), "");
    assert_eq!(lb.get_text(-1_i32), "");
}

#[test]
fn value_reflects_focused_item() {
    let mut lb = ListBox::new(Rect::new(0, 0, 20, 8), 1, None, None);
    let mut ctx = Context::new();
    lb.new_list(strings(&["a", "b", "c", "d", "e"]), &mut ctx);
    assert_eq!(lb.value(), Some(FieldValue::Int(0)));
    let mut ev = key_ev(Key::Down);
    lb.handle_event(&mut ev, &mut ctx);
    let mut ev = key_ev(Key::Down);
    lb.handle_event(&mut ev, &mut ctx);
    assert_eq!(lb.lv().focused, 2, "focus moved to 2");
    assert_eq!(lb.value(), Some(FieldValue::Int(2)));
}

#[test]
fn handle_event_wired_down_moves_focused() {
    let mut lb = ListBox::new(Rect::new(0, 0, 20, 8), 1, None, None);
    let mut ctx = Context::new();
    lb.new_list(strings(&["x", "y", "z"]), &mut ctx);
    let mut ev = key_ev(Key::Down);
    lb.handle_event(&mut ev, &mut ctx);
    assert_eq!(lb.lv().focused, 1);
    assert!(ev.is_nothing(), "Down consumed");
}

#[test]
fn broadcast_from_own_vbar_queues_sync_list_viewer() {
    let v_id = ViewId(100);
    let lb_id = ViewId(101);
    let mut lb = ListBox::new(Rect::new(0, 0, 20, 8), 1, None, Some(v_id));
    lb.state_mut().id = Some(lb_id);
    let mut ctx = Context::new();
    let mut ev = Event::Broadcast { command: Command::ScrollBarChanged, source: Some(v_id) };
    lb.handle_event(&mut ev, &mut ctx);
    assert_eq!(ctx.deferred.len(), 1, "one SyncListViewer op queued");
    assert!(matches!(
        ctx.deferred[0],
        Deferred::SyncListViewer { list, h: None, v: Some(vid) } if list == lb_id && vid == v_id
    ));
}

fn make_sorted_lb(items: Vec<&str>) -> (SortedListBox, Context) {
    let mut slb = SortedListBox::new(Rect::new(0, 0, 20, 8), 1, None, None);
    let mut ctx = Context::new();
    slb.new_list(strings(&items), &mut ctx);
    ctx.deferred.clear();
    (slb, ctx)
}

#[test]
fn sorted_lb_type_to_jump_b_then_br() {
    let (mut slb, mut ctx) = make_sorted_lb(vec!["alpha", "beta", "bravo", "charlie"]);
    let mut ev = key_ev(Key::Char('b'));
    slb.handle_event(&mut ev, &mut ctx);
    assert_eq!(slb.lv().focused, 1, "'b' -> focused == 1 (\"beta\")");
    assert_eq!(slb.search_pos(), 0);
    assert!(ev.is_nothing());
    let mut ev = key_ev(Key::Char('r'));
    slb.handle_event(&mut ev, &mut ctx);
    assert_eq!(slb.lv().focused, 2, "'br' -> focused == 2 (\"bravo\")");
    assert_eq!(slb.search_pos(), 1);
    assert!(ev.is_nothing());
}

#[test]
fn sorted_lb_backspace_shortens_search() {
    let (mut slb, mut ctx) = make_sorted_lb(vec!["alpha", "beta", "bravo", "charlie"]);
    for ch in ['b', 'r'] {
        let mut ev = key_ev(Key::Char(ch));
        slb.handle_event(&mut ev, &mut ctx);
    }
    assert_eq!(slb.lv().focused, 2);
    assert_eq!(slb.search_pos(), 1);
    let mut ev = key_ev(Key::Backspace);
    slb.handle_event(&mut ev, &mut ctx);
    assert_eq!(slb.search_pos(), 0, "search_pos decremented to 0");
    assert_eq!(slb.lv().focused, 1, "backspace re-focuses to \"beta\"");
}

#[test]
fn sorted_lb_dot_jumps_to_extension() {
    let (mut slb, mut ctx) = make_sorted_lb(vec!["file.txt", "file.bak", "zebra"]);
    assert_eq!(slb.get_text(0), "file.bak");
    assert_eq!(slb.get_text(1), "file.txt");
    assert_eq!(slb.lv().focused, 0);
    for (ch, want_focus) in [('f', 0), ('i', 0), ('l', 0), ('e', 0)] {
        let mut ev = key_ev(Key::Char(ch));
        slb.handle_event(&mut ev, &mut ctx);
        assert_eq!(slb.lv().focused, want_focus, "typing '{ch}'");
    }
    assert_eq!(slb.search_pos(), 3);
    let mut ev = key_ev(Key::Down);
    slb.handle_event(&mut ev, &mut ctx);
    assert_eq!(slb.lv().focused, 1, "Down -> focus \"file.txt\"");
    assert_eq!(slb.search_pos(), -1, "arrow nav reset search_pos");
    let mut ev = key_ev(Key::Char('.'));
    slb.handle_event(&mut ev, &mut ctx);
    assert_eq!(slb.search_pos(), 4, "dot sets search_pos to the '.' position");
    assert_eq!(slb.lv().focused, 1, "dot must not mis-jump to \"file.bak\"");
}

#[test]
fn sorted_lb_no_match_alpha_consumes_but_reverts() {
    let (mut slb, mut ctx) = make_sorted_lb(vec!["alpha", "beta", "bravo", "charlie"]);
    let mut ev = key_ev(Key::Char('z'));
    slb.handle_event(&mut ev, &mut ctx);
    assert_eq!(slb.lv().focused, 0, "no match: focus unchanged");
    assert_eq!(slb.search_pos(), -1, "no match: search_pos reverted to -1");
    assert!(ev.is_nothing(), "alpha key consumed even on no-match");
}

#[test]
fn sorted_lb_no_match_punctuation_passes_through() {
    let (mut slb, mut ctx) = make_sorted_lb(vec!["alpha", "beta", "bravo", "charlie"]);
    let mut ev = key_ev(Key::Char('.'));
    slb.handle_event(&mut ev, &mut ctx);
    assert_eq!(slb.lv().focused, 0);
    assert_eq!(slb.search_pos(), -1);
    assert!(!ev.is_nothing(), "non-alpha no-match: event not consumed");
}

#[test]
fn sorted_lb_arrow_nav_resets_search_pos() {
    let (mut slb, mut ctx) = make_sorted_lb(vec!["alpha", "beta", "bravo", "charlie"]);
    let mut ev = key_ev(Key::Char('b'));
    slb.handle_event(&mut ev, &mut ctx);
    assert_eq!(slb.search_pos(), 0);
    let mut ev = key_ev(Key::Down);
    slb.handle_event(&mut ev, &mut ctx);
    assert_eq!(slb.search_pos(), -1, "arrow nav resets search_pos to -1");
}

#[test]
fn sorted_lb_released_focus_resets_search_pos() {
    let (mut slb, mut ctx) = make_sorted_lb(vec!["alpha", "beta", "bravo", "charlie"]);
    let mut ev = key_ev(Key::Char('b'));
    slb.handle_event(&mut ev, &mut ctx);
    assert_eq!(slb.search_pos(), 0);
    let mut ev = Event::Broadcast { command: Command::ReleasedFocus, source: None };
    slb.handle_event(&mut ev, &mut ctx);
    assert_eq!(slb.search_pos(), -1, "cmReleasedFocus resets search_pos");
}

#[test]
fn sorted_lb_new_list_sorts_and_resets() {
    let mut slb = SortedListBox::new(Rect::new(0, 0, 20, 8), 1, None, None);
    let mut ctx = Context::new();
    slb.new_list(strings(&["Zebra", "apple", "Banana"]), &mut ctx);
    assert_eq!(slb.get_text(0), "apple");
    assert_eq!(slb.get_text(1), "Banana");
    assert_eq!(slb.get_text(2), "Zebra");
    assert_eq!(slb.search_pos(), -1);
}

#[test]
fn sorted_lb_sort_is_stable_for_case_twins() {
    let mut slb = SortedListBox::new(Rect::new(0, 0, 20, 8), 1, None, None);
    let mut ctx = Context::new();
    slb.new_list(strings(&["b", "Apple", "a", "apple", "B"]), &mut ctx);
    let got: Vec<&str> = slb.list().iter().map(|s| s.as_str()).collect();
    assert_eq!(got, vec!["a", "Apple", "apple", "b", "B"]);
}

#[test]
fn sorted_lb_search_finds_the_insertion_point() {
    let (slb, _ctx) = make_sorted_lb(vec!["delta", "Alpha", "charlie", "bravo"]);
    assert_eq!(slb.search("a"), 0);
    assert_eq!(slb.search("B"), 1);
    assert_eq!(slb.search("bz"), 2);
    assert_eq!(slb.search("zz"), 4);
    assert_eq!(slb.search(""), 0);
}

#[test]
fn sorted_lb_cursor_follows_the_match() {
    let (mut slb, mut ctx) = make_sorted_lb(vec!["alpha", "beta", "bravo"]);
    slb.set_state(StateFlag::Selected, true, &mut ctx);
    slb.set_state(StateFlag::Active, true, &mut ctx);
    assert_eq!(slb.cursor_request(), Some(Point::new(1, 0)));
    let mut ev = key_ev(Key::Char('b'));
    slb.handle_event(&mut ev, &mut ctx);
    let mut ev = key_ev(Key::Char('r'));
    slb.handle_event(&mut ev, &mut ctx);
    assert_eq!(slb.cursor_request(), Some(Point::new(3, 2)));
}

#[test]
fn sorted_lb_search_lands_on_first_item_with_prefix() {
    let (slb, _ctx) = make_sorted_lb(vec!["Bravo", "alpha", "beta", "BRAVE", "brass", "charlie"]);
    // Sorted: alpha, beta, brass, BRAVE, Bravo, charlie.
    let list = slb.list();
    let pos = slb.search("BRA") as usize;
    assert_eq!(pos, 2);
    assert!(list[pos].to_ascii_lowercase().starts_with("bra"));
    assert!(list[..pos].iter().all(|s| !s.to_ascii_lowercase().starts_with("bra")));
    assert_eq!(slb.search("brav"), 3);
}

#[test]
fn new_list_returns_to_the_top() {
    let mut lb = ListBox::new(Rect::new(0, 0, 20, 3), 1, None, None);
    let mut ctx = Context::new();
    lb.new_list(strings(&["a", "b", "c", "d", "e", "f"]), &mut ctx);
    for _ in 0..5 {
        let mut ev = key_ev(Key::Down);
        lb.handle_event(&mut ev, &mut ctx);
    }
    assert_eq!(lb.lv().focused, 5);
    assert_eq!(lb.lv().top_item, 3);
    lb.new_list(strings(&["x", "y"]), &mut ctx);
    assert_eq!(lb.lv().top_item, 0);
    assert_eq!(lb.lv().focused, 0);
    assert!(lb.lv().num_cols >= 1);
}

#[test]
fn arrow_move_abandons_search() {
    let (mut slb, mut ctx) = make_sorted_lb(vec!["alpha", "beta", "bravo"]);
    let mut ev = key_ev(Key::Char('b'));
    slb.handle_event(&mut ev, &mut ctx);
    assert_eq!(slb.search_pos(), 0);
    let mut ev = key_ev(Key::Down);
    slb.handle_event(&mut ev, &mut ctx);
    assert_eq!(slb.search_pos(), -1);
}
