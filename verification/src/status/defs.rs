//! Help contexts and the status-line definitions selected by them.
use vstd::prelude::*;
use crate::command::Command;
use crate::event::KeyEvent;

verus! {

/// The help context of a view: none, or a named context.
#[derive(Clone, Copy, Debug, PartialEq, Eq)]
pub enum HelpCtx {
    /// No help context (`hcNoContext`).
    NoContext,
    /// A named context.
    Custom(&'static str),
}

impl HelpCtx {
    /// The context's name, if it has one.
    pub open spec fn key(self) -> Option<Seq<char>> {
        match self {
            HelpCtx::NoContext => None,
            HelpCtx::Custom(s) => Some(s@),
        }
    }

    /// No help context.
    pub fn no_context() -> (h: Self)
        ensures
            h.key() is None,
    {
        HelpCtx::NoContext
    }

    /// The context named `name`.
    pub fn custom(name: &'static str) -> (h: Self)
        ensures
            h.key() == Some(name@),
    {
        HelpCtx::Custom(name)
    }

    /// Are the two contexts the same?
    pub fn same(&self, other: &HelpCtx) -> (r: bool)
        ensures
            r == (self.key() == other.key()),
    {
        match (self, other) {
            (HelpCtx::NoContext, HelpCtx::NoContext) => true,
            (HelpCtx::Custom(a), HelpCtx::Custom(b)) => str_eq(a, b),
            _ => false,
        }
    }
}

/// Do the two strings hold the same characters?
pub fn str_eq(a: &str, b: &str) -> (r: bool)
    ensures
        r == (a@ == b@),
{
    let n = a.unicode_len();
    if n != b.unicode_len() {
        return false;
    }
    let mut i: usize = 0;
    while i < n
        invariant
            n == a@.len(),
            n == b@.len(),
            i <= n,
            forall|k: int| 0 <= k < i ==> a@[k] == b@[k],
        decreases n - i,
    {
        if a.get_char(i) != b.get_char(i) {
            return false;
        }
        i = i + 1;
    }
    assert(a@ =~= b@);
    true
}

/// The help contexts a status definition applies to.
#[derive(Clone, Debug)]
pub enum StatusRange {
    /// Every context.
    All,
    /// The listed contexts.
    OneOf(Vec<HelpCtx>),
}

/// Does the range cover `ctx`?
pub open spec fn range_matches(r: StatusRange, ctx: HelpCtx) -> bool {
    match r {
        StatusRange::All => true,
        StatusRange::OneOf(v) => exists|k: int| 0 <= k < v@.len() && (#[trigger] v@[k]).key() == ctx.key(),
    }
}

impl StatusRange {
    /// Does the range cover `ctx`?
    pub fn matches(&self, ctx: HelpCtx) -> (r: bool)
        ensures
            r == range_matches(*self, ctx),
    {
        match self {
            StatusRange::All => true,
            StatusRange::OneOf(v) => {
                let mut i: usize = 0;
                while i < v.len()
                    invariant
                        i <= v@.len(),
                        *self == StatusRange::OneOf(*v),
                        forall|k: int| 0 <= k < i ==> (#[trigger] v@[k]).key() != ctx.key(),
                    decreases v@.len() - i,
                {
                    if v[i].same(&ctx) {
                        assert(v@[i as int].key() == ctx.key());
                        return true;
                    }
                    i = i + 1;
                }
                false
            },
        }
    }
}

/// One status-line item (`TStatusItem`): an optional label (a `~`-marked
/// control string; without one the item only binds its key), an optional
/// key, and the command it posts.
#[derive(Clone, Debug)]
pub struct StatusItem {
    /// The label, `~` around the shortcut.
    pub text: Option<String>,
    /// The key bound to the command.
    pub key_code: Option<KeyEvent>,
    /// The command posted.
    pub command: Command,
}

impl StatusItem {
    /// A labelled item.
    pub fn new(text: &str, key_code: Option<KeyEvent>, command: Command) -> (it: Self)
        ensures
            it.text matches Some(t) && t@ == text@,
            it.key_code == key_code,
            it.command == command,
    {
        StatusItem { text: Some(text.to_owned()), key_code, command }
    }

    /// An item that only binds `key_code` to `command`.
    pub fn key_only(key_code: KeyEvent, command: Command) -> (it: Self)
        ensures
            it.text is None,
            it.key_code == Some(key_code),
            it.command == command,
    {
        StatusItem { text: None, key_code: Some(key_code), command }
    }
}

/// The items shown for a range of help contexts (`TStatusDef`).
#[derive(Clone, Debug)]
pub struct StatusDef {
    /// The contexts this definition applies to.
    pub range: StatusRange,
    /// The items, left to right.
    pub items: Vec<StatusItem>,
}

impl StatusDef {
    /// A definition of `items` for the contexts `range`.
    pub fn new(range: StatusRange, items: Vec<StatusItem>) -> (d: Self)
        ensures
            d.range == range,
            d.items == items,
    {
        StatusDef { range, items }
    }
}

} // verus!
