use farm_sim::catalogue::Catalogue;
use farm_sim::error::GameError;
use farm_sim::game::{ClickOutcome, Game, GameEvent};
use farm_sim::inventory::Inventory;

fn s(text: &str) -> String {
    text.to_string()
}

fn inv(game: &Game) -> Vec<(String, u32)> {
    game.inventory_snapshot().clone()
}

fn game_with(entries: &[(&str, u32)], money: u32) -> Game {
    let mut inventory = Inventory::new();
    for (name, q) in entries {
        inventory.add(s(name), *q).unwrap();
    }
    Game::with_state(Catalogue::standard(), inventory, money)
}

#[test]
fn new_game_opening_position() {
    let g = Game::new();
    assert_eq!(g.money(), 0);
    assert_eq!(inv(&g), vec![(s("carrot seeds"), 10)]);
    assert_eq!(g.selected_seed(), &Some(s("carrot seeds")));
    assert_eq!(g.catalogue_entries().len(), 4);
    assert!(g.plot_at(0, 0).unwrap().crop.is_none());
    assert_eq!(g.plot_at(8, 8).err(), Some(GameError::OutOfBounds));
}

#[test]
fn end_to_end_carrot_cycle() {
    let mut g = Game::new();
    g.enqueue(GameEvent::PlantFromInventory(s("carrot seeds"), 0, 0));
    assert_eq!(g.step(0), vec![Ok(())]);
    assert_eq!(inv(&g), vec![(s("carrot seeds"), 9)]);
    let c = g.plot_at(0, 0).unwrap().crop.as_ref().unwrap();
    assert_eq!(c.name, "carrots");
    assert_eq!(c.stage, 0);
    for _ in 0..5 {
        g.step(1);
    }
    assert_eq!(g.plot_at(0, 0).unwrap().crop.as_ref().unwrap().stage, 5);
    let harvested = g.grid.harvest(0, 0).unwrap();
    assert_eq!(harvested.name, "carrots");
    assert!(g.plot_at(0, 0).unwrap().crop.is_none());
    g.enqueue(GameEvent::AddToInventory(s("carrots"), 1));
    assert_eq!(g.step(0), vec![Ok(())]);
    assert_eq!(inv(&g), vec![(s("carrot seeds"), 9), (s("carrots"), 1)]);
    assert_eq!(g.sell_item(&s("carrots")), Ok(()));
    assert_eq!(g.money(), 50);
    assert_eq!(inv(&g), vec![(s("carrot seeds"), 9)]);
}

#[test]
fn buy_without_funds_fails_unchanged() {
    let mut g = game_with(&[("carrots", 1)], 19);
    assert_eq!(g.buy_seed(&s("pumpkin seeds")), Err(GameError::InsufficientFunds));
    assert_eq!(g.money(), 19);
    assert_eq!(inv(&g), vec![(s("carrots"), 1)]);
}

#[test]
fn buy_with_funds_spends_cost_and_adds_one() {
    let mut g = game_with(&[("carrot seeds", 2)], 25);
    assert_eq!(g.buy_seed(&s("carrot seeds")), Ok(()));
    assert_eq!(g.money(), 15);
    assert_eq!(inv(&g), vec![(s("carrot seeds"), 3)]);
    assert_eq!(g.buy_seed(&s("carrot seeds")), Ok(()));
    assert_eq!(g.money(), 5);
    assert_eq!(g.buy_seed(&s("carrot seeds")), Err(GameError::InsufficientFunds));
    assert_eq!(inv(&g), vec![(s("carrot seeds"), 4)]);
}

#[test]
fn buy_exact_cost_and_non_seed() {
    let mut g = game_with(&[], 20);
    assert_eq!(g.buy_seed(&s("carrots")), Err(GameError::NotASeed));
    assert_eq!(g.buy_seed(&s("pumpkin seeds")), Ok(()));
    assert_eq!(g.money(), 0);
    assert_eq!(inv(&g), vec![(s("pumpkin seeds"), 1)]);
}

#[test]
fn sell_errors() {
    let mut g = game_with(&[("carrot seeds", 1)], u32::MAX - 10);
    assert_eq!(g.sell_item(&s("carrot seeds")), Err(GameError::NotACrop));
    assert_eq!(g.sell_item(&s("pumpkins")), Err(GameError::InsufficientQuantity));
    let mut g = game_with(&[("pumpkins", 1)], u32::MAX - 10);
    assert_eq!(g.sell_item(&s("pumpkins")), Err(GameError::Overflow));
    assert_eq!(inv(&g), vec![(s("pumpkins"), 1)]);
}

#[test]
fn sell_pumpkin_keeps_rest() {
    let mut g = game_with(&[("pumpkins", 2)], 7);
    assert_eq!(g.sell_item(&s("pumpkins")), Ok(()));
    assert_eq!(g.money(), 107);
    assert_eq!(inv(&g), vec![(s("pumpkins"), 1)]);
}

#[test]
fn step_reports_failures_and_continues() {
    let mut g = game_with(&[("carrot seeds", 1)], 0);
    g.enqueue(GameEvent::RemoveFromInventory(s("beets"), 1));
    g.enqueue(GameEvent::PlantFromInventory(s("carrots"), 0, 0));
    g.enqueue(GameEvent::PlantFromInventory(s("carrot seeds"), 9, 0));
    g.enqueue(GameEvent::AddToInventory(s("carrot seeds"), 2));
    g.enqueue(GameEvent::PlantFromInventory(s("carrot seeds"), 1, 1));
    g.enqueue(GameEvent::PlantFromInventory(s("carrot seeds"), 1, 1));
    g.enqueue(GameEvent::RemoveFromInventory(s("carrot seeds"), 5));
    let reports = g.step(0);
    assert_eq!(
        reports,
        vec![
            Err(GameError::InsufficientQuantity),
            Err(GameError::NotASeed),
            Err(GameError::OutOfBounds),
            Ok(()),
            Ok(()),
            Err(GameError::PlotOccupied),
            Err(GameError::InsufficientQuantity),
        ]
    );
    assert_eq!(inv(&g), vec![(s("carrot seeds"), 2)]);
    assert!(g.plot_at(1, 1).unwrap().crop.is_some());
    assert!(g.step(0).is_empty());
}

#[test]
fn growth_happens_before_events() {
    let mut g = Game::new();
    g.enqueue(GameEvent::PlantFromInventory(s("carrot seeds"), -3, 2));
    g.step(1);
    assert_eq!(g.plot_at(-3, 2).unwrap().crop.as_ref().unwrap().stage, 0);
    g.step(1);
    assert_eq!(g.plot_at(-3, 2).unwrap().crop.as_ref().unwrap().stage, 1);
}

#[test]
fn plant_without_seed_in_inventory() {
    let mut g = game_with(&[], 0);
    assert_eq!(
        g.plant_from_inventory(&s("pumpkin seeds"), 0, 0),
        Err(GameError::InsufficientQuantity)
    );
    assert!(g.plot_at(0, 0).unwrap().crop.is_none());
}

#[test]
fn click_plants_selected_seed_then_harvests() {
    let mut g = Game::new();
    assert_eq!(g.try_plant_or_harvest(2, 3), Ok(ClickOutcome::Planted));
    assert_eq!(inv(&g), vec![(s("carrot seeds"), 9)]);
    assert_eq!(g.try_plant_or_harvest(2, 3), Ok(ClickOutcome::Nothing));
    for _ in 0..5 {
        g.step(1);
    }
    assert_eq!(g.try_plant_or_harvest(2, 3), Ok(ClickOutcome::Harvested));
    assert!(g.plot_at(2, 3).unwrap().crop.is_none());
    assert_eq!(g.step(0), vec![Ok(())]);
    assert_eq!(inv(&g), vec![(s("carrot seeds"), 9), (s("carrots"), 1)]);
}

#[test]
fn click_outside_and_without_selection() {
    let mut g = game_with(&[("carrot seeds", 1)], 0);
    assert_eq!(g.try_plant_or_harvest(-9, 0), Err(GameError::OutOfBounds));
    assert_eq!(g.try_plant_or_harvest(0, 0), Ok(ClickOutcome::Nothing));
    assert_eq!(g.select_seed(s("carrots")), Err(GameError::NotASeed));
    assert_eq!(g.selected_seed(), &None);
    assert_eq!(g.select_seed(s("carrot seeds")), Ok(()));
    assert_eq!(g.try_plant_or_harvest(0, 0), Ok(ClickOutcome::Planted));
}

#[test]
fn click_with_no_seeds_left_clears_selection() {
    let mut g = game_with(&[], 0);
    g.select_seed(s("pumpkin seeds")).unwrap();
    assert_eq!(g.try_plant_or_harvest(1, 1), Err(GameError::InsufficientQuantity));
    assert_eq!(g.selected_seed(), &None);
    assert!(g.plot_at(1, 1).unwrap().crop.is_none());
}

#[test]
fn apply_event_directly() {
    let mut g = game_with(&[("carrots", 1)], 0);
    assert_eq!(g.apply_event(&GameEvent::RemoveFromInventory(s("carrots"), 1)), Ok(()));
    assert!(inv(&g).is_empty());
}
