use tvision::dialog::{ColorGroup, ColorIndex, ColorItem};

#[test]
fn color_item_construction_and_accessors() {
    let item = ColorItem::new("Desktop", 42);
    assert_eq!(item.name(), "Desktop");
    assert_eq!(item.index(), 42);
}

#[test]
fn color_item_from_string_types() {
    let a = ColorItem::new(&String::from("A"), 1);
    let b = ColorItem::new("B", 2);
    assert_eq!(a.name(), "A");
    assert_eq!(b.name(), "B");
}

#[test]
fn color_group_defaults_index_to_zero() {
    let g = ColorGroup::new("Desktop", vec![]);
    assert_eq!(g.index(), 0);
}

#[test]
fn color_group_stores_items() {
    let items = vec![ColorItem::new("Color", 1), ColorItem::new("Mono", 2)];
    let g = ColorGroup::new("Desktop", items);
    assert_eq!(g.items().len(), 2);
    assert_eq!(g.items()[0].name(), "Color");
    assert_eq!(g.items()[1].name(), "Mono");
}

#[test]
fn color_group_with_item_builder_chains() {
    let g = ColorGroup::new("Desktop", vec![]).with_item("Color", 1).with_item("Mono", 2).with_item("Cyan", 3);
    assert_eq!(g.items().len(), 3);
    assert_eq!(g.items()[2].name(), "Cyan");
    assert_eq!(g.items()[2].index(), 3);
    assert_eq!(g.name(), "Desktop");
}

#[test]
fn color_group_set_index_mutates() {
    let mut g = ColorGroup::new("Desktop", vec![]);
    assert_eq!(g.index(), 0);
    g.set_index(5);
    assert_eq!(g.index(), 5);
}

#[test]
fn color_index_construction_and_accessors() {
    let ci = ColorIndex::new(2, vec![0, 1, 3]);
    assert_eq!(ci.group_index(), 2);
    assert_eq!(ci.color_index(), &[0u8, 1, 3]);
}

#[test]
fn color_index_color_size_equals_vec_len() {
    let ci = ColorIndex::new(0, vec![5, 6, 7, 8]);
    assert_eq!(ci.color_size(), 4);
    assert_eq!(ci.color_size(), ci.color_index().len());
}

#[test]
fn color_index_set_group_index_mutates() {
    let mut ci = ColorIndex::new(0, vec![1, 2]);
    ci.set_group_index(3);
    assert_eq!(ci.group_index(), 3);
    assert_eq!(ci.color_index(), &[1u8, 2]);
}

#[test]
fn color_index_empty_table() {
    let ci = ColorIndex::new(0, vec![]);
    assert_eq!(ci.color_size(), 0);
}
