use tvision::command::Command;
use tvision::event::{Event, Key, KeyEvent, KeyModifiers, MouseEvent, MouseEventFlags};
use tvision::view::geometry::{Point, Rect};
use tvision::view::state::{EventMask, ViewId};
use tvision::view::{Context, Deferred};
use tvision::widgets::list_box::ListBox;
use tvision::widgets::list_viewer::{
    apply_scroll, focus_item, focus_item_num, focused_cursor, handle_event, set_range, update_steps,
    ListViewer, ListViewerState,
};

fn items(n: i32) -> Vec<String> {
    (0..n).map(|i| format!("item{i}")).collect()
}

fn list(bounds: Rect, num_cols: i32, n: i32, h: Option<ViewId>, v: Option<ViewId>) -> ListViewerState {
    let mut lv = ListViewerState::new(bounds, num_cols, h, v);
    lv.range = n;
    lv
}

fn key_ev(k: Key) -> Event {
    Event::KeyDown(KeyEvent::new(k, KeyModifiers::default()))
}

#[test]
fn ctor_sets_options_and_zeroes_fields() {
    let l = list(Rect::new(0, 0, 10, 5), 1, 0, None, None);
    assert!(l.state.options.first_click);
    assert!(l.state.options.selectable);
    assert_eq!(l.top_item, 0);
    assert_eq!(l.focused, 0);
    assert_eq!(l.indent, 0);
    assert_eq!(l.num_cols, 1);
    assert_eq!(l.range, 0);
    assert_eq!(l.state.event_mask, EventMask::default());
}

#[test]
fn ctor_clamps_columns_to_one() {
    let l = ListViewerState::new(Rect::new(0, 0, 10, 5), 0, None, None);
    assert_eq!(l.num_cols, 1);
    let l = ListViewerState::new(Rect::new(0, 0, 10, 5), -4, None, None);
    assert_eq!(l.num_cols, 1);
}

#[test]
fn focus_item_num_clamps_negative_and_over_range_and_skips_empty() {
    let v = ViewId(1);
    let mut ctx = Context::new();
    let mut l = list(Rect::new(0, 0, 10, 5), 1, 5, None, Some(v));
    focus_item_num(&mut l, -3, &mut ctx);
    assert_eq!(l.focused, 0, "negative clamps to 0");
    focus_item_num(&mut l, 99, &mut ctx);
    assert_eq!(l.focused, 4, ">= range clamps to range-1");

    let mut empty = list(Rect::new(0, 0, 10, 5), 1, 0, None, None);
    empty.focused = 7;
    focus_item_num(&mut empty, 3, &mut ctx);
    assert_eq!(empty.focused, 7, "range==0 -> focus_item skipped");
}

#[test]
fn focus_item_single_col_scrolls_top_item_both_directions() {
    let mut l = list(Rect::new(0, 0, 10, 5), 1, 20, None, None);
    let mut ctx = Context::new();
    focus_item(&mut l, 7, &mut ctx);
    assert_eq!(l.top_item, 3, "scroll down: topItem = item - size.y + 1");
    focus_item(&mut l, 1, &mut ctx);
    assert_eq!(l.top_item, 1, "scroll up: topItem = item");
}

#[test]
fn focus_item_multi_col_scrolls_top_item() {
    let mut l = list(Rect::new(0, 0, 10, 3), 2, 40, None, None);
    let mut ctx = Context::new();
    focus_item(&mut l, 10, &mut ctx);
    assert_eq!(l.top_item, 6, "multi-col scroll down");
    focus_item(&mut l, 2, &mut ctx);
    assert_eq!(l.top_item, 0, "multi-col scroll up");
}

#[test]
fn focus_item_queues_v_bar_set_value() {
    let v = ViewId(2);
    let mut l = list(Rect::new(0, 0, 10, 5), 1, 20, None, Some(v));
    let mut ctx = Context::new();
    focus_item(&mut l, 7, &mut ctx);
    assert_eq!(ctx.deferred.len(), 1, "one setValue op");
    assert!(matches!(
        ctx.deferred[0],
        Deferred::ScrollBarSetParams { id, value: Some(7), min: None, max: None, page_step: None, arrow_step: None }
            if id == v
    ));
}

#[test]
fn set_range_resets_focused_past_end_and_queues_v_params() {
    let v = ViewId(3);
    let mut l = list(Rect::new(0, 0, 10, 5), 1, 20, None, Some(v));
    l.focused = 15;
    let mut ctx = Context::new();
    set_range(&mut l, 10, &mut ctx);
    assert_eq!(l.range, 10);
    assert_eq!(l.focused, 0, "focused reset when >= new range");
    assert_eq!(ctx.deferred.len(), 1);
    assert!(matches!(
        ctx.deferred[0],
        Deferred::ScrollBarSetParams { id, value: Some(0), min: Some(0), max: Some(9), page_step: None, arrow_step: None }
            if id == v
    ));
}

#[test]
fn set_range_keeps_focused_when_in_range() {
    let mut l = list(Rect::new(0, 0, 10, 5), 1, 20, None, None);
    l.focused = 3;
    let mut ctx = Context::new();
    set_range(&mut l, 10, &mut ctx);
    assert_eq!(l.focused, 3, "focused kept (still in range)");
    assert!(ctx.deferred.is_empty(), "no v-bar -> no params op");
}

#[test]
fn update_steps_single_col_vbar_and_hbar() {
    let h = ViewId(4);
    let v = ViewId(5);
    let l = list(Rect::new(0, 0, 12, 5), 1, 5, Some(h), Some(v));
    let mut ctx = Context::new();
    update_steps(&l, &mut ctx);
    assert_eq!(ctx.deferred.len(), 2);
    assert!(matches!(
        ctx.deferred[0],
        Deferred::ScrollBarSetParams { id, value: None, min: None, max: None, page_step: Some(4), arrow_step: Some(1) }
            if id == v
    ));
    assert!(matches!(
        ctx.deferred[1],
        Deferred::ScrollBarSetParams { id, page_step: Some(12), arrow_step: Some(1), .. }
            if id == h
    ));
}

#[test]
fn update_steps_multi_col_vbar() {
    let v = ViewId(6);
    let l = list(Rect::new(0, 0, 12, 4), 3, 5, None, Some(v));
    let mut ctx = Context::new();
    update_steps(&l, &mut ctx);
    assert!(matches!(
        ctx.deferred[0],
        Deferred::ScrollBarSetParams { id, page_step: Some(12), arrow_step: Some(4), .. }
            if id == v
    ));
}

#[test]
fn key_down_and_up_move_focus_and_clear() {
    let mut l = list(Rect::new(0, 0, 10, 5), 1, 20, None, None);
    let mut ctx = Context::new();
    let mut ev = key_ev(Key::Down);
    handle_event(&mut l, &mut ev, &mut ctx);
    assert_eq!(l.focused, 1, "Down -> focused+1");
    assert!(ev.is_nothing(), "Down consumed");
    let mut ev = key_ev(Key::Up);
    handle_event(&mut l, &mut ev, &mut ctx);
    assert_eq!(l.focused, 0, "Up -> focused-1");
}

#[test]
fn key_home_end_pgdn_pgup() {
    let mut l = list(Rect::new(0, 0, 10, 5), 1, 50, None, None);
    l.top_item = 10;
    l.focused = 12;
    let mut ctx = Context::new();
    let mut ev = key_ev(Key::Home);
    handle_event(&mut l, &mut ev, &mut ctx);
    assert_eq!(l.focused, 10, "Home -> topItem");
    let mut ev = key_ev(Key::End);
    handle_event(&mut l, &mut ev, &mut ctx);
    assert_eq!(l.focused, 14, "End -> topItem + page - 1");
    let mut ev = key_ev(Key::PageDown);
    handle_event(&mut l, &mut ev, &mut ctx);
    assert_eq!(l.focused, 19, "PgDn -> +page");
    let mut ev = key_ev(Key::PageUp);
    handle_event(&mut l, &mut ev, &mut ctx);
    assert_eq!(l.focused, 14, "PgUp -> -page");
}

#[test]
fn key_ctrl_pgdn_pgup_jump_to_ends() {
    let mut l = list(Rect::new(0, 0, 10, 5), 1, 50, None, None);
    l.focused = 20;
    let mut ctx = Context::new();
    let ctrl = KeyModifiers { ctrl: true, ..Default::default() };
    let mut ev = Event::KeyDown(KeyEvent::new(Key::PageDown, ctrl));
    handle_event(&mut l, &mut ev, &mut ctx);
    assert_eq!(l.focused, 49, "Ctrl+PgDn -> range-1");
    let mut ev = Event::KeyDown(KeyEvent::new(Key::PageUp, ctrl));
    handle_event(&mut l, &mut ev, &mut ctx);
    assert_eq!(l.focused, 0, "Ctrl+PgUp -> 0");
}

#[test]
fn left_right_no_op_single_col_leaves_event_live() {
    let mut l = list(Rect::new(0, 0, 10, 5), 1, 20, None, None);
    l.focused = 3;
    let mut ctx = Context::new();
    for k in [Key::Left, Key::Right] {
        let mut ev = key_ev(k);
        handle_event(&mut l, &mut ev, &mut ctx);
        assert_eq!(l.focused, 3, "{k:?} is a no-op when numCols==1");
        assert!(!ev.is_nothing(), "{k:?} leaves the event live");
    }
}

#[test]
fn left_right_move_by_size_y_multi_col() {
    let mut l = list(Rect::new(0, 0, 12, 3), 2, 40, None, None);
    l.focused = 5;
    let mut ctx = Context::new();
    let mut ev = key_ev(Key::Right);
    handle_event(&mut l, &mut ev, &mut ctx);
    assert_eq!(l.focused, 8, "Right -> +size.y (multi-col)");
    assert!(ev.is_nothing(), "Right consumed (multi-col)");
    let mut ev = key_ev(Key::Left);
    handle_event(&mut l, &mut ev, &mut ctx);
    assert_eq!(l.focused, 5, "Left -> -size.y (multi-col)");
}

#[test]
fn space_selects_focused_and_broadcasts() {
    let id = ViewId(7);
    let mut lb = ListBox::new(Rect::new(0, 0, 10, 5), 1, None, None);
    let mut ctx = Context::new();
    lb.new_list(items(20), &mut ctx);
    lb.state_mut().id = Some(id);
    lb.state_mut().state.focused = true;
    let mut ev = key_ev(Key::Char(' '));
    lb.handle_event(&mut ev, &mut ctx);
    assert!(
        ctx.out.iter().any(|e| matches!(
            e,
            Event::Broadcast { command, source }
                if *command == Command::ListItemSelected && *source == Some(id)
        )),
        "Space broadcasts cmListItemSelected with self as source"
    );
    assert!(ev.is_nothing(), "Space consumed");
}

#[test]
fn double_click_selects_item_under_cursor() {
    let mut lb = ListBox::new(Rect::new(0, 0, 10, 5), 1, None, None);
    let mut ctx = Context::new();
    lb.new_list(items(20), &mut ctx);
    lb.state_mut().id = Some(ViewId(8));
    let me = MouseEvent {
        position: Point::new(3, 2),
        flags: MouseEventFlags { double_click: true, ..Default::default() },
        ..Default::default()
    };
    let mut ev = Event::MouseDown(me);
    lb.handle_event(&mut ev, &mut ctx);
    assert_eq!(lb.lv().focused, 2, "click positioned focus to item 2");
    assert!(
        ctx.out.iter().any(|e| matches!(
            e,
            Event::Broadcast { command, .. } if *command == Command::ListItemSelected
        )),
        "double-click selects -> cmListItemSelected"
    );
    assert!(ev.is_nothing(), "mouse-down consumed");
}

#[test]
fn scrollbar_changed_filter_requests_sync_only_for_own_bars() {
    let h = ViewId(10);
    let v = ViewId(11);
    let id = ViewId(12);
    let mut l = list(Rect::new(0, 0, 10, 5), 1, 20, Some(h), Some(v));
    l.state.id = Some(id);
    let mut ctx = Context::new();

    let mut ev = Event::Broadcast { command: Command::ScrollBarChanged, source: Some(h) };
    handle_event(&mut l, &mut ev, &mut ctx);
    assert_eq!(ctx.deferred.len(), 1);
    assert!(matches!(
        ctx.deferred[0],
        Deferred::SyncListViewer { list, h: rh, v: rv }
            if list == id && rh == Some(h) && rv == Some(v)
    ));

    ctx.deferred.clear();
    let mut ev = Event::Broadcast { command: Command::ScrollBarChanged, source: Some(id) };
    handle_event(&mut l, &mut ev, &mut ctx);
    assert!(ctx.deferred.is_empty(), "foreign source ignored (filter bites)");

    let mut ev = Event::Broadcast { command: Command::ScrollBarClicked, source: Some(v) };
    handle_event(&mut l, &mut ev, &mut ctx);
    assert_eq!(ctx.deferred.len(), 1);
    assert!(matches!(ctx.deferred[0], Deferred::FocusById(fid) if fid == id));
}

#[test]
fn apply_scroll_h_updates_indent_v_focuses() {
    let v = ViewId(13);
    let mut l = list(Rect::new(0, 0, 10, 5), 1, 20, None, Some(v));
    let mut ctx = Context::new();
    apply_scroll(&mut l, Some(4), Some(8), &mut ctx);
    assert_eq!(l.indent, 4, "h branch refreshes the cached indent");
    assert_eq!(l.focused, 8, "v branch focusItemNum(8)");
}

#[test]
fn focused_cursor_visible_and_offscreen() {
    let mut l = list(Rect::new(0, 0, 16, 3), 2, 20, None, None);
    l.state.state.selected = true;
    l.state.state.active = true;
    l.focused = 4;
    assert_eq!(focused_cursor(&l), Some(Point::new(10, 1)));
    l.focused = 2;
    assert_eq!(focused_cursor(&l), Some(Point::new(1, 2)));
    l.focused = 9;
    assert_eq!(focused_cursor(&l), None, "focused below page -> None");
    l.top_item = 6;
    l.focused = 3;
    assert_eq!(focused_cursor(&l), None, "focused above top_item -> None");
}

#[test]
fn focused_item_lands_on_the_page() {
    // Focusing any item of the list leaves it on the visible page.
    for num_cols in [1, 2, 3] {
        let mut l = list(Rect::new(0, 0, 12, 4), num_cols, 100, None, None);
        let mut ctx = Context::new();
        for item in [0, 57, 3, 99, 12, 40, 41, 0] {
            focus_item(&mut l, item, &mut ctx);
            let page = 4 * num_cols;
            assert!(l.top_item <= item && item < l.top_item + page, "cols {num_cols}, item {item}, top {}", l.top_item);
        }
    }
}

#[test]
fn focus_item_num_stays_in_range() {
    let mut l = list(Rect::new(0, 0, 10, 5), 1, 7, None, None);
    let mut ctx = Context::new();
    for item in [-100, -1, 0, 3, 6, 7, 1000] {
        focus_item_num(&mut l, item, &mut ctx);
        assert!(0 <= l.focused && l.focused < 7);
    }
}
