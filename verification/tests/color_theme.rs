use tvision::color::{Color, Modifiers, Style};
use tvision::theme::{Glyphs, Role, Theme, ROLE_COUNT};

#[test]
fn color_predicates() {
    assert!(Color::Default.is_default());
    assert!(Color::Bios(7).is_bios());
    assert!(Color::Indexed(200).is_indexed());
    assert!(Color::Rgb(1, 2, 3).is_rgb());
    assert!(!Color::Rgb(0, 0, 0).is_default());
}

#[test]
fn default_style_is_visible_text() {
    let s = Style::default();
    assert_eq!(s.fg, Color::Default);
    assert_eq!(s.bg, Color::Default);
    assert_eq!(s.modifiers, Modifiers::default());
}

#[test]
fn reversed_swaps_concrete_colors() {
    let s = Style::new(Color::Bios(0x7), Color::Bios(0x1));
    let r = s.reversed();
    assert_eq!(r.fg, Color::Bios(0x1));
    assert_eq!(r.bg, Color::Bios(0x7));
    assert!(!r.modifiers.reverse);
}

#[test]
fn reversed_toggles_flag_when_a_color_is_default() {
    let s = Style::new(Color::Default, Color::Bios(0x1));
    let r = s.reversed();
    assert_eq!(r.fg, Color::Default);
    assert_eq!(r.bg, Color::Bios(0x1));
    assert!(r.modifiers.reverse);
    assert!(!r.reversed().modifiers.reverse);
}

#[test]
fn reversed_twice_is_identity() {
    for s in [
        Style::new(Color::Bios(3), Color::Rgb(1, 2, 3)),
        Style::new(Color::Default, Color::Indexed(9)),
        Style::new(Color::Indexed(4), Color::Default),
    ] {
        assert_eq!(s.reversed().reversed(), s);
    }
}

const ALL_ROLES: [Role; 19] = [
    Role::Background,
    Role::FrameActive,
    Role::FramePassive,
    Role::FrameDragging,
    Role::FrameIcon,
    Role::ScrollBarPage,
    Role::ScrollBarControls,
    Role::Normal,
    Role::Focused,
    Role::Disabled,
    Role::Pressed,
    Role::ListNormal,
    Role::ListFocused,
    Role::ListSelected,
    Role::ListSelectedFocused,
    Role::Error,
    Role::Warning,
    Role::Info,
    Role::Success,
];

#[test]
fn index_is_total_and_distinct() {
    let mut seen = [false; ROLE_COUNT];
    for role in ALL_ROLES {
        let i = role.index();
        assert!(i < ROLE_COUNT);
        assert!(!seen[i], "duplicate index {i} for {role:?}");
        seen[i] = true;
    }
}

#[test]
fn style_is_total_over_all_variants() {
    let t = Theme::classic_blue();
    for role in ALL_ROLES {
        let _ = t.style(role);
    }
}

#[test]
fn each_role_returns_its_seeded_style() {
    let t = Theme::classic_blue();
    assert_eq!(t.style(Role::Background), Style::new(Color::Bios(0x7), Color::Bios(0x1)));
    assert_eq!(t.style(Role::FrameActive), Style::new(Color::Bios(0xF), Color::Bios(0x1)));
    assert_eq!(t.style(Role::Disabled), Style::new(Color::Bios(0x8), Color::Bios(0x1)));
    assert_eq!(t.style(Role::ListSelected), Style::new(Color::Bios(0x0), Color::Bios(0x3)));
    assert_eq!(t.style(Role::Error), Style::new(Color::Bios(0xF), Color::Bios(0x4)));
    assert_eq!(t.style(Role::Success), Style::new(Color::Bios(0xF), Color::Bios(0x2)));
}

#[test]
fn default_equals_classic_blue() {
    assert_eq!(Theme::default(), Theme::classic_blue());
}

#[test]
fn glyphs_accessor_returns_default() {
    let t = Theme::classic_blue();
    assert_eq!(*t.glyphs(), Glyphs::default());
    assert_eq!(t.glyphs().sb_page, '\u{2592}');
    assert_eq!(t.glyphs().sb_thumb, '\u{25A0}');
}
