//! The desktop background (`TBackground`): its extent filled with one
//! pattern character.
use vstd::prelude::*;
use crate::theme::Role;
use crate::view::geometry::Rect;
use crate::view::state::{ViewState, GrowMode, bounds_fit, fresh_view_state};
use crate::view::draw::{DrawCtx, DrawOp, apply_ops, lemma_apply_single};

verus! {

/// The state of a fresh background over `bounds`: it grows with its owner's
/// right and bottom edges.
pub open spec fn background_state(bounds: Rect) -> ViewState {
    let st = fresh_view_state(bounds);
    ViewState { grow_mode: GrowMode { hi_x: true, hi_y: true, ..st.grow_mode }, ..st }
}

/// The desktop background.
pub struct Background {
    st: ViewState,
    /// The fill character.
    pub pattern: char,
}

impl Background {
    /// The view state.
    pub closed spec fn spec_state(&self) -> ViewState {
        self.st
    }

    /// The fill character.
    pub closed spec fn spec_pattern(&self) -> char {
        self.pattern
    }

    /// A background over `bounds` filled with `pattern`
    /// (`TBackground::TBackground`).
    pub fn new(bounds: Rect, pattern: char) -> (bg: Self)
        requires
            bounds_fit(bounds),
        ensures
            bg.spec_state() == background_state(bounds),
            bg.spec_pattern() == pattern,
    {
        let mut st = ViewState::new(bounds);
        st.grow_mode.hi_x = true;
        st.grow_mode.hi_y = true;
        Background { st, pattern }
    }

    /// The view state.
    pub fn state(&self) -> (r: &ViewState)
        ensures
            *r == self.spec_state(),
    {
        &self.st
    }

    /// Fill the view's extent with the pattern in the background style.
    pub fn draw(&self, ctx: &mut DrawCtx)
        requires
            old(ctx).wf(),
            self.spec_state().bounds_representable(),
        ensures
            final(ctx).wf(),
            final(ctx).same_frame(old(ctx)),
            final(ctx).spec_cells() == apply_ops(old(ctx).frame(), old(ctx).spec_cells(), seq![
                DrawOp::Fill(self.spec_state().spec_extent(), self.spec_pattern(), old(ctx).spec_theme().spec_style(Role::Background)),
            ]),
    {
        let ext = self.st.get_extent();
        let style = ctx.style(Role::Background);
        proof {
            lemma_apply_single(ctx.frame(), ctx.spec_cells(), DrawOp::Fill(ext, self.pattern, style));
        }
        ctx.fill(ext, self.pattern, style);
    }
}

} // verus!
