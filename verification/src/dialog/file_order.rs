//! The three-way form of the file listing order.
use vstd::prelude::*;
use core::cmp::Ordering;
use crate::dialog::filedlg::{SearchRec, listing_order, listing_less};

verus! {

/// The listing order of two records (`TFileCollection::compare`): equal
/// names are `Equal`, `..` sorts last, directories after files, and
/// otherwise names compare in byte order.
pub fn search_rec_compare(a: &SearchRec, b: &SearchRec) -> (r: Ordering)
    ensures
        (r == Ordering::Less) == (listing_order(a@, b@) < 0),
        (r == Ordering::Equal) == (listing_order(a@, b@) == 0),
        (r == Ordering::Greater) == (listing_order(a@, b@) > 0),
{
    if listing_less(a, b) {
        Ordering::Less
    } else if a.name == b.name {
        Ordering::Equal
    } else {
        Ordering::Greater
    }
}

} // verus!
