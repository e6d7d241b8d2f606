//! Theme: a [`Role`] → [`Style`] map plus the framework's drawing [`Glyphs`].
//!
//! A view asks `theme.style(Role::FrameActive)` rather than walking an owner
//! chain of palettes; [`Role`] is a closed, first-party enum that grows as
//! widgets need new roles.
use vstd::prelude::*;
use crate::color::{Color, Style, plain_style};

verus! {

/// A semantic colour role.
#[derive(Clone, Copy, Debug, PartialEq, Eq, Hash, Structural)]
pub enum Role {
    /// The desktop background fill.
    Background,
    /// An active (focused) window frame.
    FrameActive,
    /// A passive (unfocused) window frame.
    FramePassive,
    /// A frame being dragged/resized.
    FrameDragging,
    /// A frame icon (close/zoom/resize glyphs).
    FrameIcon,
    /// A scroll-bar page (trough) area.
    ScrollBarPage,
    /// Scroll-bar control glyphs (arrows / thumb).
    ScrollBarControls,
    /// Generic enabled control text.
    Normal,
    /// A focused control.
    Focused,
    /// A disabled (greyed-out) control.
    Disabled,
    /// A pressed control (e.g. a button mid-click).
    Pressed,
    /// A normal (unselected, unfocused) list item.
    ListNormal,
    /// A focused list (its cursor item, list not selected).
    ListFocused,
    /// A selected list item in an unfocused list.
    ListSelected,
    /// The selected item in a focused list.
    ListSelectedFocused,
    /// Error feedback.
    Error,
    /// Warning feedback.
    Warning,
    /// Informational feedback.
    Info,
    /// Success feedback.
    Success,
    /// Ordinary list text while the list is active.
    ListNormalActive,
    /// Ordinary list text while the list is inactive.
    ListNormalInactive,
    /// The column divider of a list.
    ListDivider,
    /// Status-line text.
    StatusNormal,
    /// Status-line shortcut (`~`-marked) text.
    StatusShortcut,
    /// A highlighted status-line item.
    StatusSelect,
    /// The shortcut text of a highlighted status-line item.
    StatusShortcutSelect,
    /// A disabled status-line item.
    StatusDisabled,
    /// A highlighted, disabled status-line item.
    StatusSelDisabled,
}

/// Number of [`Role`] variants: the fixed length of [`Theme`]'s style table.
pub const ROLE_COUNT: usize = 28;

/// The position of `role` in the style table.
pub open spec fn role_index(role: Role) -> nat {
    match role {
        Role::Background => 0,
        Role::FrameActive => 1,
        Role::FramePassive => 2,
        Role::FrameDragging => 3,
        Role::FrameIcon => 4,
        Role::ScrollBarPage => 5,
        Role::ScrollBarControls => 6,
        Role::Normal => 7,
        Role::Focused => 8,
        Role::Disabled => 9,
        Role::Pressed => 10,
        Role::ListNormal => 11,
        Role::ListFocused => 12,
        Role::ListSelected => 13,
        Role::ListSelectedFocused => 14,
        Role::Error => 15,
        Role::Warning => 16,
        Role::Info => 17,
        Role::Success => 18,
        Role::ListNormalActive => 19,
        Role::ListNormalInactive => 20,
        Role::ListDivider => 21,
        Role::StatusNormal => 22,
        Role::StatusShortcut => 23,
        Role::StatusSelect => 24,
        Role::StatusShortcutSelect => 25,
        Role::StatusDisabled => 26,
        Role::StatusSelDisabled => 27,
    }
}

impl Role {
    /// Total mapping of each variant to its index into the style table.
    pub fn index(self) -> (i: usize)
        ensures
            i == role_index(self),
            i < ROLE_COUNT,
    {
        match self {
            Role::Background => 0,
            Role::FrameActive => 1,
            Role::FramePassive => 2,
            Role::FrameDragging => 3,
            Role::FrameIcon => 4,
            Role::ScrollBarPage => 5,
            Role::ScrollBarControls => 6,
            Role::Normal => 7,
            Role::Focused => 8,
            Role::Disabled => 9,
            Role::Pressed => 10,
            Role::ListNormal => 11,
            Role::ListFocused => 12,
            Role::ListSelected => 13,
            Role::ListSelectedFocused => 14,
            Role::Error => 15,
            Role::Warning => 16,
            Role::Info => 17,
            Role::Success => 18,
            Role::ListNormalActive => 19,
            Role::ListNormalInactive => 20,
            Role::ListDivider => 21,
            Role::StatusNormal => 22,
            Role::StatusShortcut => 23,
            Role::StatusSelect => 24,
            Role::StatusShortcutSelect => 25,
            Role::StatusDisabled => 26,
            Role::StatusSelDisabled => 27,
        }
    }
}

/// Every role has its own slot in the style table, and every slot belongs to
/// some role.
pub proof fn law_role_index_bijective(r1: Role, r2: Role, i: nat)
    ensures
        role_index(r1) < ROLE_COUNT,
        role_index(r1) == role_index(r2) ==> r1 == r2,
        i < ROLE_COUNT ==> exists|r: Role| role_index(r) == i,
{
    if i < ROLE_COUNT {
        if i == 0 { assert(role_index(Role::Background) == i); }
        else if i == 1 { assert(role_index(Role::FrameActive) == i); }
        else if i == 2 { assert(role_index(Role::FramePassive) == i); }
        else if i == 3 { assert(role_index(Role::FrameDragging) == i); }
        else if i == 4 { assert(role_index(Role::FrameIcon) == i); }
        else if i == 5 { assert(role_index(Role::ScrollBarPage) == i); }
        else if i == 6 { assert(role_index(Role::ScrollBarControls) == i); }
        else if i == 7 { assert(role_index(Role::Normal) == i); }
        else if i == 8 { assert(role_index(Role::Focused) == i); }
        else if i == 9 { assert(role_index(Role::Disabled) == i); }
        else if i == 10 { assert(role_index(Role::Pressed) == i); }
        else if i == 11 { assert(role_index(Role::ListNormal) == i); }
        else if i == 12 { assert(role_index(Role::ListFocused) == i); }
        else if i == 13 { assert(role_index(Role::ListSelected) == i); }
        else if i == 14 { assert(role_index(Role::ListSelectedFocused) == i); }
        else if i == 15 { assert(role_index(Role::Error) == i); }
        else if i == 16 { assert(role_index(Role::Warning) == i); }
        else if i == 17 { assert(role_index(Role::Info) == i); }
        else if i == 18 { assert(role_index(Role::Success) == i); }
        else if i == 19 { assert(role_index(Role::ListNormalActive) == i); }
        else if i == 20 { assert(role_index(Role::ListNormalInactive) == i); }
        else if i == 21 { assert(role_index(Role::ListDivider) == i); }
        else if i == 22 { assert(role_index(Role::StatusNormal) == i); }
        else if i == 23 { assert(role_index(Role::StatusShortcut) == i); }
        else if i == 24 { assert(role_index(Role::StatusSelect) == i); }
        else if i == 25 { assert(role_index(Role::StatusShortcutSelect) == i); }
        else if i == 26 { assert(role_index(Role::StatusDisabled) == i); }
        else { assert(role_index(Role::StatusSelDisabled) == i); }
    }
}

/// Holder for the framework's drawing glyphs (classic CP437 shapes as
/// Unicode).
///
/// Scroll-bar glyphs: back/forward arrows per orientation, the page (trough)
/// fill, the thumb, and the page fill when the range is zero. `frame_v` is the
/// single vertical line used as a list column divider.
#[derive(Clone, Copy, Debug, PartialEq, Eq, Structural)]
pub struct Glyphs {
    /// Vertical scrollbar back arrow (▲).
    pub sb_v_arrow_back: char,
    /// Vertical scrollbar forward arrow (▼).
    pub sb_v_arrow_fwd: char,
    /// Horizontal scrollbar back arrow (◄).
    pub sb_h_arrow_back: char,
    /// Horizontal scrollbar forward arrow (►).
    pub sb_h_arrow_fwd: char,
    /// Page/trough fill (▒).
    pub sb_page: char,
    /// Thumb (■).
    pub sb_thumb: char,
    /// Page fill when the range is zero (▓).
    pub sb_page_no_range: char,
    /// Single vertical line (│).
    pub frame_v: char,
}

/// The classic glyph set.
pub open spec fn classic_glyphs() -> Glyphs {
    Glyphs {
        sb_v_arrow_back: '\u{25B2}',
        sb_v_arrow_fwd: '\u{25BC}',
        sb_h_arrow_back: '\u{25C4}',
        sb_h_arrow_fwd: '\u{25BA}',
        sb_page: '\u{2592}',
        sb_thumb: '\u{25A0}',
        sb_page_no_range: '\u{2593}',
        frame_v: '\u{2502}',
    }
}

impl Default for Glyphs {
    /// The classic CP437/BIOS glyphs.
    fn default() -> (g: Self)
        ensures
            g == classic_glyphs(),
    {
        Glyphs {
            sb_v_arrow_back: '\u{25B2}',
            sb_v_arrow_fwd: '\u{25BC}',
            sb_h_arrow_back: '\u{25C4}',
            sb_h_arrow_fwd: '\u{25BA}',
            sb_page: '\u{2592}',
            sb_thumb: '\u{25A0}',
            sb_page_no_range: '\u{2593}',
            frame_v: '\u{2502}',
        }
    }
}

/// `fg` on `bg` in BIOS colours, no modifiers.
pub open spec fn bios(fg: u8, bg: u8) -> Style {
    plain_style(Color::Bios(fg), Color::Bios(bg))
}

/// The classic-blue style of each role (BIOS palette: 0 black, 1 blue,
/// 2 green, 3 cyan, 4 red, 6 brown, 7 light grey, 8 dark grey, 0xA light
/// green, 0xE yellow, 0xF white).
pub open spec fn classic_style(role: Role) -> Style {
    match role {
        Role::Background => bios(0x7, 0x1),
        Role::FrameActive => bios(0xF, 0x1),
        Role::FramePassive => bios(0x7, 0x1),
        Role::FrameDragging => bios(0xE, 0x1),
        Role::FrameIcon => bios(0xA, 0x1),
        Role::ScrollBarPage => bios(0x1, 0x3),
        Role::ScrollBarControls => bios(0x1, 0x3),
        Role::Normal => bios(0x0, 0x3),
        Role::Focused => bios(0xF, 0x2),
        Role::Disabled => bios(0x8, 0x1),
        Role::Pressed => bios(0xF, 0x2),
        Role::ListNormal => bios(0x7, 0x1),
        Role::ListFocused => bios(0xF, 0x1),
        Role::ListSelected => bios(0x0, 0x3),
        Role::ListSelectedFocused => bios(0xF, 0x2),
        Role::Error => bios(0xF, 0x4),
        Role::Warning => bios(0x0, 0x6),
        Role::Info => bios(0xF, 0x1),
        Role::Success => bios(0xF, 0x2),
        Role::ListNormalActive => bios(0x0, 0x3),
        Role::ListNormalInactive => bios(0x8, 0x3),
        Role::ListDivider => bios(0x1, 0x3),
        Role::StatusNormal => bios(0x0, 0x7),
        Role::StatusShortcut => bios(0x4, 0x7),
        Role::StatusSelect => bios(0x0, 0x2),
        Role::StatusShortcutSelect => bios(0x4, 0x2),
        Role::StatusDisabled => bios(0x8, 0x7),
        Role::StatusSelDisabled => bios(0x8, 0x2),
    }
}

/// A theme: a fixed `Role` → [`Style`] map plus a [`Glyphs`] holder.
#[derive(Clone, Copy, Debug, PartialEq, Eq)]
pub struct Theme {
    styles: [Style; ROLE_COUNT],
    glyphs: Glyphs,
}

impl Theme {
    /// The style this theme gives `role`.
    pub closed spec fn spec_style(&self, role: Role) -> Style {
        self.styles@[role_index(role) as int]
    }

    /// This theme's glyphs.
    pub closed spec fn spec_glyphs(&self) -> Glyphs {
        self.glyphs
    }

    /// Is this theme exactly the classic-blue theme?
    pub open spec fn is_classic_blue(&self) -> bool {
        &&& forall|role: Role| #[trigger] self.spec_style(role) == classic_style(role)
        &&& self.spec_glyphs() == classic_glyphs()
    }

    /// The default theme: the classic Turbo Vision blue look. The colours are
    /// a plausible classic palette, not an authoritative one.
    pub fn classic_blue() -> (t: Self)
        ensures
            t.is_classic_blue(),
    {
        let styles: [Style; ROLE_COUNT] = [
            Style::new(Color::Bios(0x7), Color::Bios(0x1)),
            Style::new(Color::Bios(0xF), Color::Bios(0x1)),
            Style::new(Color::Bios(0x7), Color::Bios(0x1)),
            Style::new(Color::Bios(0xE), Color::Bios(0x1)),
            Style::new(Color::Bios(0xA), Color::Bios(0x1)),
            Style::new(Color::Bios(0x1), Color::Bios(0x3)),
            Style::new(Color::Bios(0x1), Color::Bios(0x3)),
            Style::new(Color::Bios(0x0), Color::Bios(0x3)),
            Style::new(Color::Bios(0xF), Color::Bios(0x2)),
            Style::new(Color::Bios(0x8), Color::Bios(0x1)),
            Style::new(Color::Bios(0xF), Color::Bios(0x2)),
            Style::new(Color::Bios(0x7), Color::Bios(0x1)),
            Style::new(Color::Bios(0xF), Color::Bios(0x1)),
            Style::new(Color::Bios(0x0), Color::Bios(0x3)),
            Style::new(Color::Bios(0xF), Color::Bios(0x2)),
            Style::new(Color::Bios(0xF), Color::Bios(0x4)),
            Style::new(Color::Bios(0x0), Color::Bios(0x6)),
            Style::new(Color::Bios(0xF), Color::Bios(0x1)),
            Style::new(Color::Bios(0xF), Color::Bios(0x2)),
            Style::new(Color::Bios(0x0), Color::Bios(0x3)),
            Style::new(Color::Bios(0x8), Color::Bios(0x3)),
            Style::new(Color::Bios(0x1), Color::Bios(0x3)),
            Style::new(Color::Bios(0x0), Color::Bios(0x7)),
            Style::new(Color::Bios(0x4), Color::Bios(0x7)),
            Style::new(Color::Bios(0x0), Color::Bios(0x2)),
            Style::new(Color::Bios(0x4), Color::Bios(0x2)),
            Style::new(Color::Bios(0x8), Color::Bios(0x7)),
            Style::new(Color::Bios(0x8), Color::Bios(0x2)),
        ];
        let t = Theme { styles, glyphs: Glyphs::default() };
        assert forall|role: Role| #[trigger] t.spec_style(role) == classic_style(role) by {
            assert(t.styles@[role_index(role) as int] == classic_style(role));
        }
        t
    }

    /// The [`Style`] for `role`. Total: every role has a style.
    pub fn style(&self, role: Role) -> (s: Style)
        ensures
            s == self.spec_style(role),
    {
        self.styles[role.index()]
    }

    /// The theme's glyph holder.
    pub fn glyphs(&self) -> (g: &Glyphs)
        ensures
            *g == self.spec_glyphs(),
    {
        &self.glyphs
    }
}

impl Default for Theme {
    /// The classic-blue theme.
    fn default() -> (t: Self)
        ensures
            t.is_classic_blue(),
    {
        Self::classic_blue()
    }
}

} // verus!
