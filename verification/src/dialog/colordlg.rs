//! The colour dialog's data: named palette entries, their groups, and the
//! per-group focus table.
use vstd::prelude::*;

verus! {

/// A named palette entry (`TColorItem`).
#[derive(Debug, Clone, PartialEq, Eq)]
pub struct ColorItem {
    name: String,
    index: u8,
}

impl ColorItem {
    /// The entry's name.
    pub closed spec fn spec_name(&self) -> Seq<char> {
        self.name@
    }

    /// The entry's palette index.
    pub closed spec fn spec_index(&self) -> u8 {
        self.index
    }

    /// An entry named `name` for palette index `index`.
    pub fn new(name: &str, index: u8) -> (c: Self)
        ensures
            c.spec_name() == name@,
            c.spec_index() == index,
    {
        ColorItem { name: name.to_owned(), index }
    }

    /// The entry's name.
    pub fn name(&self) -> (r: &str)
        ensures
            r@ == self.spec_name(),
    {
        self.name.as_str()
    }

    /// The entry's palette index.
    pub fn index(&self) -> (r: u8)
        ensures
            r == self.spec_index(),
    {
        self.index
    }
}

/// The entries as (name, palette index) pairs.
pub open spec fn item_views(v: Seq<ColorItem>) -> Seq<(Seq<char>, u8)> {
    v.map_values(|c: ColorItem| (c.spec_name(), c.spec_index()))
}

/// A named group of palette entries with the position of its focused entry
/// (`TColorGroup`).
#[derive(Debug, Clone, PartialEq, Eq)]
pub struct ColorGroup {
    name: String,
    index: u8,
    items: Vec<ColorItem>,
}

impl ColorGroup {
    /// The group's name.
    pub closed spec fn spec_name(&self) -> Seq<char> {
        self.name@
    }

    /// The focused entry's position.
    pub closed spec fn spec_index(&self) -> u8 {
        self.index
    }

    /// The entries.
    pub closed spec fn spec_items(&self) -> Seq<(Seq<char>, u8)> {
        item_views(self.items@)
    }

    /// A group named `name` holding `items`, focused on its first entry.
    pub fn new(name: &str, items: Vec<ColorItem>) -> (g: Self)
        ensures
            g.spec_name() == name@,
            g.spec_index() == 0,
            g.spec_items() == item_views(items@),
    {
        ColorGroup { name: name.to_owned(), index: 0, items }
    }

    /// The group with one more entry at the end.
    pub fn with_item(self, name: &str, index: u8) -> (g: Self)
        ensures
            g.spec_name() == self.spec_name(),
            g.spec_index() == self.spec_index(),
            g.spec_items() == self.spec_items().push((name@, index)),
    {
        let mut g = self;
        let ghost before = item_views(g.items@);
        g.items.push(ColorItem::new(name, index));
        assert(item_views(g.items@) =~= before.push((name@, index)));
        g
    }

    /// The group's name.
    pub fn name(&self) -> (r: &str)
        ensures
            r@ == self.spec_name(),
    {
        self.name.as_str()
    }

    /// The focused entry's position.
    pub fn index(&self) -> (r: u8)
        ensures
            r == self.spec_index(),
    {
        self.index
    }

    /// Focus the entry at position `index`.
    pub fn set_index(&mut self, index: u8)
        ensures
            final(self).spec_index() == index,
            final(self).spec_name() == old(self).spec_name(),
            final(self).spec_items() == old(self).spec_items(),
    {
        self.index = index;
    }

    /// The entries.
    pub fn items(&self) -> (r: &[ColorItem])
        ensures
            item_views(r@) == self.spec_items(),
    {
        self.items.as_slice()
    }
}

/// The colour dialog's focus table (`TColorIndex`): the focused group and
/// each group's focused entry.
#[derive(Debug, Clone, PartialEq, Eq)]
pub struct ColorIndex {
    group_index: u8,
    color_index: Vec<u8>,
}

impl ColorIndex {
    /// The focused group.
    pub closed spec fn spec_group_index(&self) -> u8 {
        self.group_index
    }

    /// Each group's focused entry.
    pub closed spec fn spec_color_index(&self) -> Seq<u8> {
        self.color_index@
    }

    /// A table focused on group `group_index`.
    pub fn new(group_index: u8, color_index: Vec<u8>) -> (c: Self)
        ensures
            c.spec_group_index() == group_index,
            c.spec_color_index() == color_index@,
    {
        ColorIndex { group_index, color_index }
    }

    /// The focused group.
    pub fn group_index(&self) -> (r: u8)
        ensures
            r == self.spec_group_index(),
    {
        self.group_index
    }

    /// Focus group `group_index`.
    pub fn set_group_index(&mut self, group_index: u8)
        ensures
            final(self).spec_group_index() == group_index,
            final(self).spec_color_index() == old(self).spec_color_index(),
    {
        self.group_index = group_index;
    }

    /// Each group's focused entry.
    pub fn color_index(&self) -> (r: &[u8])
        ensures
            r@ == self.spec_color_index(),
    {
        self.color_index.as_slice()
    }

    /// The number of groups the table covers.
    pub fn color_size(&self) -> (r: usize)
        ensures
            r == self.spec_color_index().len(),
    {
        self.color_index.len()
    }
}

} // verus!
