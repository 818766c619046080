use farm_sim::error::GameError;
use farm_sim::inventory::Inventory;

fn s(text: &str) -> String {
    text.to_string()
}

fn entries(inv: &Inventory) -> Vec<(String, u32)> {
    inv.snapshot().clone()
}

#[test]
fn add_appends_then_merges() {
    let mut inv = Inventory::new();
    assert_eq!(inv.add(s("carrots"), 2), Ok(()));
    assert_eq!(inv.add(s("pumpkins"), 1), Ok(()));
    assert_eq!(inv.add(s("carrots"), 3), Ok(()));
    assert_eq!(entries(&inv), vec![(s("carrots"), 5), (s("pumpkins"), 1)]);
    assert_eq!(inv.quantity_of(&s("carrots")), 5);
    assert_eq!(inv.quantity_of(&s("beets")), 0);
}

#[test]
fn add_zero_of_absent_item_adds_no_entry() {
    let mut inv = Inventory::new();
    assert_eq!(inv.add(s("carrots"), 0), Ok(()));
    assert!(entries(&inv).is_empty());
}

#[test]
fn add_overflow_is_refused() {
    let mut inv = Inventory::new();
    assert_eq!(inv.add(s("carrots"), u32::MAX), Ok(()));
    assert_eq!(inv.add(s("carrots"), 1), Err(GameError::Overflow));
    assert_eq!(entries(&inv), vec![(s("carrots"), u32::MAX)]);
}

#[test]
fn remove_absent_fails_and_changes_nothing() {
    let mut inv = Inventory::new();
    inv.add(s("carrots"), 2).unwrap();
    assert_eq!(inv.remove(&s("pumpkins"), 1), Err(GameError::InsufficientQuantity));
    assert_eq!(entries(&inv), vec![(s("carrots"), 2)]);
}

#[test]
fn remove_more_than_held_fails() {
    let mut inv = Inventory::new();
    inv.add(s("carrots"), 2).unwrap();
    assert_eq!(inv.remove(&s("carrots"), 3), Err(GameError::InsufficientQuantity));
    assert_eq!(entries(&inv), vec![(s("carrots"), 2)]);
}

#[test]
fn remove_to_zero_drops_entry() {
    let mut inv = Inventory::new();
    inv.add(s("a"), 1).unwrap();
    inv.add(s("b"), 4).unwrap();
    inv.add(s("c"), 1).unwrap();
    assert_eq!(inv.remove(&s("b"), 1), Ok(()));
    assert_eq!(entries(&inv), vec![(s("a"), 1), (s("b"), 3), (s("c"), 1)]);
    assert_eq!(inv.remove(&s("b"), 3), Ok(()));
    assert_eq!(entries(&inv), vec![(s("a"), 1), (s("c"), 1)]);
}

#[test]
fn add_then_remove_round_trip() {
    let mut inv = Inventory::new();
    inv.add(s("carrot seeds"), 10).unwrap();
    inv.add(s("carrots"), 2).unwrap();
    let before = entries(&inv);
    inv.add(s("carrots"), 4).unwrap();
    inv.remove(&s("carrots"), 4).unwrap();
    assert_eq!(entries(&inv), before);
    inv.add(s("pumpkins"), 3).unwrap();
    inv.remove(&s("pumpkins"), 3).unwrap();
    assert_eq!(entries(&inv), before);
}
