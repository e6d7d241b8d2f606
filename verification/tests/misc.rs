use tvision::data::FieldValue;
use tvision::desktop::Background;
use tvision::dialog::{std_button, ButtonRowAlign, BUTTON_GAP, BUTTON_ROW_FROM_BOTTOM, MARGIN_LEFT, MARGIN_RIGHT, MARGIN_TOP};
use tvision::theme::{Role, Theme};
use tvision::validate::Validator;
use tvision::view::geometry::{Point, Rect};
use tvision::view::{Buffer, DrawCtx};

#[test]
fn text_variant_round_trips() {
    let v = FieldValue::Text("hello".to_string());
    assert_eq!(v, FieldValue::Text("hello".to_string()));
    assert_ne!(v, FieldValue::Text("world".to_string()));
    let FieldValue::Text(s) = v else {
        panic!("expected Text");
    };
    assert_eq!(s, "hello");
}

#[test]
fn int_variant_round_trips() {
    let v = FieldValue::Int(42);
    assert_eq!(v, FieldValue::Int(42));
    assert_ne!(v, FieldValue::Int(7));
    assert_ne!(FieldValue::Int(0), FieldValue::Text("0".to_string()));
    let FieldValue::Int(n) = v else {
        panic!("expected Int");
    };
    assert_eq!(n, 42);
}

#[test]
fn new_stores_pattern_and_bounds() {
    let bg = Background::new(Rect::new(0, 0, 10, 5), '▒');
    assert_eq!(bg.pattern, '▒');
    assert_eq!(bg.state().origin, Point::new(0, 0));
    assert_eq!(bg.state().size, Point::new(10, 5));
}

#[test]
fn new_sets_grow_hi_x_and_hi_y() {
    let bg = Background::new(Rect::new(0, 0, 10, 5), '▒');
    let gm = bg.state().grow_mode;
    assert!(gm.hi_x);
    assert!(gm.hi_y);
    assert!(!gm.lo_x);
    assert!(!gm.lo_y);
    assert!(!gm.rel);
    assert!(!gm.fixed);
}

#[test]
fn new_inherits_view_state_defaults() {
    let bg = Background::new(Rect::new(5, 3, 25, 10), '░');
    assert!(bg.state().state.visible);
    assert!(bg.state().drag_mode.limit_lo_y);
}

#[test]
fn draw_fills_extent_with_pattern() {
    let theme = Theme::classic_blue();
    let bg = Background::new(Rect::new(0, 0, 4, 2), 'X');
    let bounds = bg.state().get_bounds();
    let mut ctx = DrawCtx::new(Buffer::new(4, 2), &theme, bounds, bounds.a);
    bg.draw(&mut ctx);
    let buf = ctx.into_buffer();
    for y in 0..2u16 {
        for x in 0..4u16 {
            assert_eq!(buf.get(x, y).symbol(), 'X', "cell ({x},{y}) must be 'X'");
        }
    }
    let expected_style = theme.style(Role::Background);
    assert_eq!(buf.get(0, 0).style(), expected_style);
    assert_eq!(buf.get(3, 1).style(), expected_style);
}

#[test]
fn metrics_match_recovered_tv() {
    assert_eq!(std_button(), Point::new(10, 2));
    assert_eq!((BUTTON_GAP, MARGIN_LEFT, MARGIN_RIGHT, MARGIN_TOP, BUTTON_ROW_FROM_BOTTOM), (2, 3, 2, 2, 3));
    assert_ne!(ButtonRowAlign::Center, ButtonRowAlign::Right);
}

struct AcceptAll;
impl Validator for AcceptAll {}

struct OnlyExact(&'static str);
impl Validator for OnlyExact {
    fn is_valid(&self, s: &str) -> bool {
        s == self.0
    }
}

#[test]
fn default_methods_accept() {
    let v = AcceptAll;
    let mut s = String::from("anything");
    assert!(v.is_valid_input(&mut s, false));
    assert_eq!(s, "anything");
    assert!(v.is_valid("x"));
    assert!(v.validate("x"));
    assert!(v.is_status_ok());
}

#[test]
fn validate_fails_when_is_valid_false() {
    let v = OnlyExact("ok");
    assert!(v.validate("ok"));
    assert!(!v.validate("nope"));
    assert!(v.is_valid("ok"));
    assert!(!v.is_valid("nope"));
}

#[test]
fn is_object_safe() {
    let v: Box<dyn Validator> = Box::new(OnlyExact("ok"));
    assert!(v.validate("ok"));
    assert!(!v.validate("no"));
}
