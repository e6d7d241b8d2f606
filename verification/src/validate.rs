//! Input validators (`TValidator`): what an input line asks before it takes
//! a keystroke or lets a value go.
use vstd::prelude::*;

verus! {

/// An input validator. The provided methods accept everything, as the
/// abstract base does; concrete validators override them.
pub trait Validator {
    /// May `s`, as it is being typed, stand (`isValidInput`)? A validator may
    /// complete `s` in place unless `suppress_fill` asks it not to. The
    /// provided method accepts and leaves `s` alone.
    fn is_valid_input(&self, s: &mut String, suppress_fill: bool) -> (r: bool)
        default_ensures
            r,
            *final(s) == *old(s),
    {
        true
    }

    /// Is `s` a valid final value (`isValid`)? The provided method accepts.
    fn is_valid(&self, s: &str) -> (r: bool)
        default_ensures
            r,
    {
        true
    }

    /// Report an invalid final value (`error`); the provided method does
    /// nothing.
    fn error(&self) {
    }

    /// Check a final value (`validate`): report it and fail when
    /// [`is_valid`](Validator::is_valid) rejects it, else succeed; the answer
    /// is the one `is_valid` gave.
    fn validate(&self, s: &str) -> (r: bool)
        ensures
            call_ensures(Self::is_valid, (self, s), r),
    {
        if self.is_valid(s) {
            true
        } else {
            self.error();
            false
        }
    }

    /// Is the validator's status OK? The provided method says it is.
    fn is_status_ok(&self) -> (r: bool)
        default_ensures
            r,
    {
        true
    }
}

} // verus!
