use tvision::color::Style;
use tvision::command::{Command, CommandSet};
use tvision::event::{Event, Key, KeyEvent, KeyModifiers, MouseButtons, MouseEvent};
use tvision::status::status_line::{checked_cstrlen, cstrlen};
use tvision::status::{HelpCtx, StatusColors, StatusDef, StatusItem, StatusLine, StatusRange};
use tvision::theme::{Role, Theme};
use tvision::view::geometry::{Point, Rect};
use tvision::view::state::ViewId;
use tvision::view::{Buffer, Cell, Context, Deferred, DrawCtx};

fn f1() -> KeyEvent {
    KeyEvent::from(Key::F(1))
}

fn alt(c: char) -> KeyEvent {
    KeyEvent::new(Key::Char(c), KeyModifiers { alt: true, ..Default::default() })
}

fn sample_defs() -> Vec<StatusDef> {
    vec![StatusDef::new(
        StatusRange::All,
        vec![
            StatusItem::new("~F1~ Help", Some(f1()), Command::Help),
            StatusItem::new("~Alt-X~ Exit", Some(alt('x')), Command::Quit),
            StatusItem::key_only(KeyEvent::from(Key::F(10)), Command::Menu),
        ],
    )]
}

fn render(line: &StatusLine, hint: Option<&str>, w: u16) -> Vec<Cell> {
    let theme = Theme::classic_blue();
    let bounds = line.state().get_bounds();
    let mut dc = DrawCtx::new(Buffer::new(w, 1), &theme, bounds, bounds.a);
    line.draw(&mut dc, hint);
    let buf = dc.into_buffer();
    (0..w).map(|x| *buf.get(x, 0)).collect()
}

fn row_text(cells: &[Cell]) -> String {
    cells.iter().map(|c| c.symbol()).collect()
}

#[test]
fn ctor_sets_grow_and_preprocess() {
    let line = StatusLine::new(Rect::new(0, 24, 40, 25), sample_defs());
    assert!(line.state().grow_mode.lo_y);
    assert!(line.state().grow_mode.hi_x);
    assert!(line.state().grow_mode.hi_y);
    assert!(line.state().options.pre_process);
    assert_eq!(line.selected_def(), Some(0));
    assert_eq!(line.help_ctx(), HelpCtx::no_context());
    assert!(line.cmd_set().is_none());
}

#[test]
fn find_items_all_matches_any_ctx() {
    let mut line = StatusLine::new(Rect::new(0, 0, 40, 1), sample_defs());
    assert_eq!(line.selected_def(), Some(0));
    line.set_help_ctx(HelpCtx::custom("whatever.context"));
    assert_eq!(line.selected_def(), Some(0), "All matches any context");
}

#[test]
fn find_items_first_match_wins_with_one_of_then_all() {
    let a = HelpCtx::custom("app.editor");
    let b = HelpCtx::custom("app.browser");
    let defs = vec![
        StatusDef::new(StatusRange::OneOf(vec![a]), vec![StatusItem::new("~F2~ Save", None, Command::Save)]),
        StatusDef::new(StatusRange::All, vec![StatusItem::new("~F1~ Help", Some(f1()), Command::Help)]),
    ];
    let mut line = StatusLine::new(Rect::new(0, 0, 40, 1), defs);
    line.set_help_ctx(a);
    assert_eq!(line.selected_def(), Some(0));
    line.set_help_ctx(b);
    assert_eq!(line.selected_def(), Some(1));
}

#[test]
fn find_items_bite_all_first_captures_everything() {
    let a = HelpCtx::custom("app.editor");
    let defs = vec![
        StatusDef::new(StatusRange::All, vec![StatusItem::new("~F1~ Help", Some(f1()), Command::Help)]),
        StatusDef::new(StatusRange::OneOf(vec![a]), vec![StatusItem::new("~F2~ Save", None, Command::Save)]),
    ];
    let mut line = StatusLine::new(Rect::new(0, 0, 40, 1), defs);
    line.set_help_ctx(a);
    assert_eq!(line.selected_def(), Some(0));
}

#[test]
fn find_items_no_match_leaves_none() {
    let a = HelpCtx::custom("app.editor");
    let b = HelpCtx::custom("app.browser");
    let defs = vec![StatusDef::new(StatusRange::OneOf(vec![a]), vec![StatusItem::new("~F2~ Save", None, Command::Save)])];
    let mut line = StatusLine::new(Rect::new(0, 0, 40, 1), defs);
    line.set_help_ctx(b);
    assert_eq!(line.selected_def(), None);
    assert!(line.items().is_empty());
}

#[test]
fn item_mouse_is_in_off_row_is_none() {
    let line = StatusLine::new(Rect::new(0, 0, 40, 1), sample_defs());
    assert_eq!(line.item_mouse_is_in(Point::new(2, 1)), None);
}

#[test]
fn item_mouse_is_in_hits_correct_item_and_skips_textless() {
    let line = StatusLine::new(Rect::new(0, 0, 40, 1), sample_defs());
    assert_eq!(line.item_mouse_is_in(Point::new(0, 0)), Some(0));
    assert_eq!(line.item_mouse_is_in(Point::new(8, 0)), Some(0));
    assert_eq!(line.item_mouse_is_in(Point::new(9, 0)), Some(1));
    assert_eq!(line.item_mouse_is_in(Point::new(20, 0)), Some(1));
    assert_eq!(line.item_mouse_is_in(Point::new(21, 0)), None);
}

#[test]
fn item_mouse_is_in_textless_neighbour_unaffected() {
    let defs = vec![StatusDef::new(
        StatusRange::All,
        vec![
            StatusItem::new("AB", None, Command::Help),
            StatusItem::key_only(f1(), Command::Cut),
            StatusItem::new("CD", None, Command::Quit),
        ],
    )];
    let line = StatusLine::new(Rect::new(0, 0, 40, 1), defs);
    assert_eq!(line.item_mouse_is_in(Point::new(0, 0)), Some(0));
    assert_eq!(line.item_mouse_is_in(Point::new(4, 0)), Some(2));
    assert_eq!(line.item_mouse_is_in(Point::new(7, 0)), Some(2));
}

#[test]
fn update_menu_commands_snapshots_set() {
    let mut line = StatusLine::new(Rect::new(0, 0, 40, 1), sample_defs());
    assert!(line.cmd_set().is_none());
    assert!(line.command_enabled(Command::Quit));
    let mut cs = CommandSet::new();
    cs.enable_cmd(Command::Help);
    cs.disable_cmd(Command::Quit);
    line.update_menu_commands(&cs);
    assert!(line.cmd_set().is_some());
    assert!(line.command_enabled(Command::Help));
    assert!(!line.command_enabled(Command::Quit));
}

#[test]
fn command_enabled_bite_without_refresh_stays_all_enabled() {
    let line = StatusLine::new(Rect::new(0, 0, 40, 1), sample_defs());
    assert!(line.cmd_set().is_none());
    assert!(line.command_enabled(Command::Quit));
    assert!(line.command_enabled(Command::Help));
}

#[test]
fn broadcast_command_set_changed_requests_update_menu() {
    let mut line = StatusLine::new(Rect::new(0, 0, 40, 1), sample_defs());
    let id = ViewId(77);
    line.state_mut().id = Some(id);
    let mut ctx = Context::new();
    let mut ev = Event::Broadcast { command: Command::CommandSetChanged, source: None };
    line.handle_event(&mut ev, &mut ctx);
    assert!(ctx.deferred.iter().any(|d| matches!(d, Deferred::UpdateMenu(uid) if *uid == id)));
}

fn mouse_down(x: i32, y: i32) -> Event {
    Event::MouseDown(MouseEvent {
        position: Point::new(x, y),
        buttons: MouseButtons { left: true, ..Default::default() },
        ..Default::default()
    })
}

#[test]
fn mouse_down_on_enabled_item_posts_command_and_clears() {
    let mut line = StatusLine::new(Rect::new(0, 0, 40, 1), sample_defs());
    let mut ctx = Context::new();
    let mut ev = mouse_down(10, 0);
    line.handle_event(&mut ev, &mut ctx);
    assert!(ev.is_nothing());
    assert!(ctx.out.iter().any(|e| matches!(e, Event::Command(Command::Quit))));
}

#[test]
fn mouse_down_on_disabled_item_clears_but_posts_nothing() {
    let mut line = StatusLine::new(Rect::new(0, 0, 40, 1), sample_defs());
    let mut cs = CommandSet::new();
    cs.enable_cmd(Command::Help);
    cs.disable_cmd(Command::Quit);
    line.update_menu_commands(&cs);
    let mut ctx = Context::new();
    let mut ev = mouse_down(10, 0);
    line.handle_event(&mut ev, &mut ctx);
    assert!(ev.is_nothing());
    assert!(!ctx.out.iter().any(|e| matches!(e, Event::Command(_))));
}

#[test]
fn mouse_down_off_row_clears_but_posts_nothing() {
    let mut line = StatusLine::new(Rect::new(0, 0, 40, 1), sample_defs());
    let mut ctx = Context::new();
    let mut ev = mouse_down(2, 1);
    line.handle_event(&mut ev, &mut ctx);
    assert!(ev.is_nothing());
    assert!(!ctx.out.iter().any(|e| matches!(e, Event::Command(_))));
}

#[test]
fn empty_hint_string_draws_no_separator() {
    let defs = vec![StatusDef::new(StatusRange::All, vec![StatusItem::new("~F1~ Help", Some(f1()), Command::Help)])];
    let line = StatusLine::new(Rect::new(0, 0, 40, 1), defs);
    assert_eq!(render(&line, Some(""), 40), render(&line, None, 40));
}

#[test]
fn hint_tail_follows_the_items() {
    let defs = vec![StatusDef::new(StatusRange::All, vec![StatusItem::new("~F1~ Help", Some(f1()), Command::Help)])];
    let line = StatusLine::new(Rect::new(0, 0, 40, 1), defs);
    let row = row_text(&render(&line, Some("Press F1 for help"), 40));
    assert_eq!(row.trim_end(), " F1 Help \u{2502} Press F1 for help");
}

#[test]
fn narrow_line_drops_overflowing_item() {
    let line = StatusLine::new(Rect::new(0, 0, 8, 1), sample_defs());
    let row = row_text(&render(&line, None, 8));
    assert_eq!(row, " F1 Help");
}

#[test]
fn disabled_item_is_drawn_greyed() {
    let mut line = StatusLine::new(Rect::new(0, 0, 40, 1), sample_defs());
    let mut cs = CommandSet::new();
    cs.enable_cmd(Command::Help);
    line.update_menu_commands(&cs);
    let theme = Theme::classic_blue();
    let cells = render(&line, None, 40);
    assert_eq!(cells[1].style(), theme.style(Role::StatusShortcut), "F of F1 is the shortcut");
    assert_eq!(cells[4].style(), theme.style(Role::StatusNormal));
    assert_eq!(cells[10].style(), theme.style(Role::StatusDisabled), "the Exit item is greyed");
    assert_eq!(row_text(&cells).trim_end(), " F1 Help  Alt-X Exit");
}

#[test]
fn cstrlen_ignores_markers_and_counts_wide_chars() {
    assert_eq!(cstrlen("~F1~ Help"), 7);
    assert_eq!(cstrlen(""), 0);
    assert_eq!(cstrlen("~~"), 0);
    assert_eq!(cstrlen("\u{4E2D}x"), 3);
    assert_eq!(cstrlen("a\u{7}b"), 3);
}

#[test]
fn status_colors_pick_the_matrix_entry() {
    let theme = Theme::classic_blue();
    let bounds = Rect::new(0, 0, 4, 1);
    let dc = DrawCtx::new(Buffer::new(4, 1), &theme, bounds, bounds.a);
    let c = StatusColors::resolve(&dc);
    let n: (Style, Style) = (theme.style(Role::StatusNormal), theme.style(Role::StatusShortcut));
    assert_eq!(c.item(true, false), n);
    assert_eq!(c.item(true, true), (theme.style(Role::StatusSelect), theme.style(Role::StatusShortcutSelect)));
    let d = theme.style(Role::StatusDisabled);
    assert_eq!(c.item(false, false), (d, d));
    let sd = theme.style(Role::StatusSelDisabled);
    assert_eq!(c.item(false, true), (sd, sd));
}

#[test]
fn layout_fits_and_checked_width() {
    let line = StatusLine::new(Rect::new(0, 0, 40, 1), sample_defs());
    assert!(line.layout_fits());
    assert_eq!(checked_cstrlen("~F1~ Help"), Some(7));
    assert_eq!(checked_cstrlen(""), Some(0));
    assert_eq!(checked_cstrlen("~Alt-X~ Exit"), Some(cstrlen("~Alt-X~ Exit")));
}

#[test]
fn empty_hint_draws_like_no_hint() {
    let line = StatusLine::new(Rect::new(0, 0, 40, 1), sample_defs());
    assert_eq!(render(&line, Some(""), 40), render(&line, None, 40));
    assert_ne!(render(&line, Some("x"), 40), render(&line, None, 40));
}

#[test]
fn checked_draw_and_handle_match_the_plain_ones() {
    let theme = Theme::classic_blue();
    let mut line = StatusLine::new(Rect::new(0, 0, 40, 1), sample_defs());
    let bounds = line.state().get_bounds();
    let mut dc = DrawCtx::new(Buffer::new(40, 1), &theme, bounds, bounds.a);
    assert!(line.draw_checked(&mut dc, Some("tip")));
    let buf = dc.into_buffer();
    let cells: Vec<Cell> = (0..40).map(|x| *buf.get(x, 0)).collect();
    assert_eq!(cells, render(&line, Some("tip"), 40));
    let mut ctx = Context::new();
    let mut ev = Event::KeyDown(f1());
    assert!(line.handle_event_checked(&mut ev, &mut ctx));
    assert_eq!(ev, Event::KeyDown(f1()));
    assert!(ctx.out.is_empty());
}
