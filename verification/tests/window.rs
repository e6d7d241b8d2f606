use tvision::event::{Event, Key, KeyEvent, KeyModifiers};
use tvision::view::geometry::{Point, Rect};
use tvision::view::state::{GrowMode, StateFlag, ViewId, ViewState};
use tvision::view::Context;
use tvision::window::{ScrollBarOptions, SelectMode, Window, WindowFlags, WindowPalette};

fn window_with_frame() -> Window {
    Window::new(Rect::new(0, 0, 40, 15), Some("Edit".to_string()), 3)
}

fn tab_event(shift: bool) -> Event {
    Event::KeyDown(KeyEvent::new(
        Key::Tab,
        KeyModifiers {
            shift,
            ..Default::default()
        },
    ))
}

fn probe(bounds: Rect) -> ViewState {
    let mut st = ViewState::new(bounds);
    st.options.selectable = true;
    st
}

fn child_state(w: &Window, id: ViewId) -> ViewState {
    let idx = w.index_of(id).unwrap();
    w.children()[idx].state
}

#[test]
fn new_ports_ctor_defaults() {
    let w = window_with_frame();
    assert_eq!(
        w.flags(),
        WindowFlags {
            movable: true,
            grow: true,
            close: true,
            zoom: true,
        }
    );
    assert_eq!(w.zoom_rect(), Rect::new(0, 0, 40, 15));
    assert_eq!(w.palette(), WindowPalette::Blue);
    assert_eq!(w.number(), 3);
    let st = w.state();
    assert!(st.state.shadow, "sfShadow set");
    assert!(st.options.selectable, "ofSelectable set");
    assert!(st.options.top_select, "ofTopSelect set");
    let gm = st.grow_mode;
    assert!(gm.lo_x && gm.lo_y && gm.hi_x && gm.hi_y, "gfGrowAll");
    assert!(gm.rel, "gfGrowRel");
    assert!(!gm.fixed);
    assert!(w.index_of(w.frame_id()).is_some(), "frame child id resolves");
}

#[test]
fn title_and_size_limits() {
    let w = window_with_frame();
    assert_eq!(w.title(), Some("Edit"));
    let (min, max) = w.size_limits(Point::new(80, 25));
    assert_eq!(min, Point::new(16, 6), "minWinSize");
    assert_eq!(max, Point::new(80, 25), "max is the owner size");
}

#[test]
fn calc_bounds_honours_min_win_size() {
    let mut w = window_with_frame();
    w.state_mut().grow_mode = GrowMode {
        hi_x: true,
        hi_y: true,
        ..Default::default()
    };
    let owner = Point::new(10, 4);
    let delta = Point::new(10 - 40, 4 - 15);
    let b = w.calc_bounds(owner, delta);
    let size = Point::new(b.b.x - b.a.x, b.b.y - b.a.y);
    assert!(
        size.x >= 16 && size.y >= 6,
        "window must not shrink below minWinSize {{16,6}}, got {size:?}"
    );
}

#[test]
fn select_activates_window_and_frame() {
    let mut w = window_with_frame();
    assert!(!child_state(&w, w.frame_id()).state.active, "frame starts passive");

    let mut ctx = Context::new();
    w.set_state(StateFlag::Selected, true, &mut ctx);
    assert!(w.state().state.active, "window active after select");
    assert!(
        child_state(&w, w.frame_id()).state.active,
        "frame went active via Group::set_state(Active) propagation"
    );

    w.set_state(StateFlag::Selected, false, &mut ctx);
    assert!(!w.state().state.active, "window passive after deselect");
    assert!(!child_state(&w, w.frame_id()).state.active, "frame went passive again");
}

#[test]
fn standard_scroll_bar_vertical_rect_and_keyboard() {
    let mut w = window_with_frame();
    let id = w.standard_scroll_bar(ScrollBarOptions {
        vertical: true,
        handle_keyboard: true,
    });
    let st = child_state(&w, id);
    assert_eq!(st.get_bounds(), Rect::new(39, 1, 40, 14), "vertical bar at the right edge");
    assert!(st.options.post_process, "sbHandleKeyboard → ofPostProcess");
}

#[test]
fn standard_scroll_bar_horizontal_rect_no_keyboard() {
    let mut w = window_with_frame();
    let id = w.standard_scroll_bar(ScrollBarOptions::default());
    let st = child_state(&w, id);
    assert_eq!(st.get_bounds(), Rect::new(2, 14, 38, 15), "horizontal bar at the bottom edge");
    assert!(!st.options.post_process, "no sbHandleKeyboard → no ofPostProcess");
}

#[test]
fn kb_tab_cycles_focus_and_consumes() {
    let mut w = window_with_frame();
    let mut ctx = Context::new();
    let id_a = w.insert(probe(Rect::new(1, 1, 10, 5)));
    let id_b = w.insert(probe(Rect::new(1, 6, 10, 10)));
    w.set_current(Some(id_b), SelectMode::Normal, &mut ctx);
    assert_eq!(w.current(), Some(id_b));

    let mut ev = tab_event(false);
    w.handle_event(&mut ev, &mut ctx);
    assert!(ev.is_nothing(), "kbTab consumed");
    assert_eq!(w.current(), Some(id_a), "forward tab moves focus from id_b to id_a");

    let mut ev2 = tab_event(true);
    w.handle_event(&mut ev2, &mut ctx);
    assert!(ev2.is_nothing(), "kbShiftTab consumed");
}

#[test]
fn window_flags_relocated_here() {
    let f = WindowFlags {
        close: true,
        ..Default::default()
    };
    assert!(f.close && !f.zoom);
    let w = window_with_frame();
    assert!(w.frame().flags.close);
}

// ---------------------------------------------------------------------------
// further cases
// ---------------------------------------------------------------------------

#[test]
fn frame_receives_title_flags_and_number() {
    let w = window_with_frame();
    let f = w.frame();
    assert_eq!(f.title.as_deref(), Some("Edit"));
    assert_eq!(f.flags, w.flags());
    assert_eq!(f.number, Some(3));
    let unnumbered = Window::new(Rect::new(0, 0, 20, 8), None, 0);
    assert_eq!(unnumbered.frame().number, None);
    assert_eq!(unnumbered.title(), None);
    let big = Window::new(Rect::new(0, 0, 20, 8), None, 300);
    assert_eq!(big.frame().number, Some(255));
}

#[test]
fn frame_follows_right_and_bottom_edges() {
    let w = window_with_frame();
    let st = child_state(&w, w.frame_id());
    assert_eq!(st.get_bounds(), Rect::new(0, 0, 40, 15));
    assert!(st.grow_mode.hi_x && st.grow_mode.hi_y);
    assert!(!st.grow_mode.lo_x && !st.grow_mode.lo_y);
}

#[test]
fn tab_with_only_unselectable_children_keeps_current() {
    let mut w = window_with_frame();
    let mut ctx = Context::new();
    let id_a = w.insert(probe(Rect::new(1, 1, 10, 5)));
    w.set_current(Some(id_a), SelectMode::Normal, &mut ctx);
    let mut ev = tab_event(false);
    w.handle_event(&mut ev, &mut ctx);
    assert!(ev.is_nothing());
    assert_eq!(w.current(), Some(id_a));
}

#[test]
fn tab_skips_disabled_and_hidden_children() {
    let mut w = window_with_frame();
    let mut ctx = Context::new();
    let id_a = w.insert(probe(Rect::new(1, 1, 10, 5)));
    let mut hidden = probe(Rect::new(1, 6, 10, 10));
    hidden.state.visible = false;
    w.insert(hidden);
    let mut disabled = probe(Rect::new(11, 1, 20, 5));
    disabled.state.disabled = true;
    w.insert(disabled);
    let id_d = w.insert(probe(Rect::new(11, 6, 20, 10)));
    w.set_current(Some(id_a), SelectMode::Normal, &mut ctx);
    // Backwards from id_a (position 1) steps up: hidden, disabled, then id_d.
    let mut ev = tab_event(true);
    w.handle_event(&mut ev, &mut ctx);
    assert_eq!(w.current(), Some(id_d));
    // Forwards from id_d steps down past the disabled and hidden children.
    let mut ev = tab_event(false);
    w.handle_event(&mut ev, &mut ctx);
    assert_eq!(w.current(), Some(id_a));
}

#[test]
fn set_current_moves_selection_and_focus() {
    let mut w = window_with_frame();
    let mut ctx = Context::new();
    w.state_mut().state.focused = true;
    let id_a = w.insert(probe(Rect::new(1, 1, 10, 5)));
    let id_b = w.insert(probe(Rect::new(1, 6, 10, 10)));
    w.set_current(Some(id_a), SelectMode::Normal, &mut ctx);
    assert!(child_state(&w, id_a).state.selected && child_state(&w, id_a).state.focused);
    w.set_current(Some(id_b), SelectMode::Normal, &mut ctx);
    assert!(!child_state(&w, id_a).state.selected && !child_state(&w, id_a).state.focused);
    assert!(child_state(&w, id_b).state.selected && child_state(&w, id_b).state.focused);
    w.set_current(None, SelectMode::Leave, &mut ctx);
    assert_eq!(w.current(), None);
    assert!(!child_state(&w, id_b).state.selected);
    assert!(ctx.out.is_empty());
}

#[test]
fn focus_change_is_broadcast_and_reaches_current_child() {
    let mut w = window_with_frame();
    let mut ctx = Context::new();
    let id_a = w.insert(probe(Rect::new(1, 1, 10, 5)));
    w.set_current(Some(id_a), SelectMode::Normal, &mut ctx);
    w.set_state(StateFlag::Focused, true, &mut ctx);
    assert!(w.state().state.focused);
    assert!(child_state(&w, id_a).state.focused);
    assert!(!child_state(&w, w.frame_id()).state.focused);
    assert_eq!(ctx.out.len(), 1);
    assert!(matches!(
        ctx.out[0],
        Event::Broadcast { command: tvision::command::Command::ReceivedFocus, .. }
    ));
}

#[test]
fn calc_bounds_scales_relatively() {
    // A window growing relatively with all four edges; the owner grew from
    // 40x20 to 80x40.
    let w = Window::new(Rect::new(10, 5, 30, 15), None, 1);
    let b = w.calc_bounds(Point::new(80, 40), Point::new(40, 20));
    // Each coordinate doubles: (i * 80 + 20) / 40 and (i * 40 + 10) / 20.
    assert_eq!(b, Rect::new(20, 10, 60, 30));
}

#[test]
fn calc_bounds_clamps_to_owner_size() {
    let mut w = Window::new(Rect::new(0, 0, 40, 15), None, 1);
    w.state_mut().grow_mode = GrowMode::default();
    let b = w.calc_bounds(Point::new(30, 10), Point::new(0, 0));
    assert_eq!(b, Rect::new(0, 0, 30, 10));
}

#[test]
fn inserted_children_record_their_ids() {
    let mut w = window_with_frame();
    assert_eq!(child_state(&w, w.frame_id()).id, Some(w.frame_id()));
    let id_a = w.insert(probe(Rect::new(1, 1, 10, 5)));
    let id_b = w.insert(probe(Rect::new(1, 6, 10, 10)));
    assert_ne!(id_a, id_b);
    assert_ne!(id_a, w.frame_id());
    assert_eq!(child_state(&w, id_a).id, Some(id_a));
    assert_eq!(w.index_of(id_b), Some(2));
    assert_eq!(w.current(), None);
}
