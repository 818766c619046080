use farm_sim::catalogue::CropInstance;
use farm_sim::error::GameError;
use farm_sim::grid::Grid;

fn crop(name: &str, stage: u32, max_stage: u32) -> CropInstance {
    CropInstance { name: name.to_string(), stage, max_stage, sell_value: 50 }
}

fn stage_at(g: &Grid, x: i32, y: i32) -> Option<u32> {
    g.get(x, y).unwrap().crop.as_ref().map(|c| c.stage)
}

#[test]
fn index_of_linearises_and_checks_bounds() {
    assert_eq!(Grid::index_of(-8, -8), Ok(0));
    assert_eq!(Grid::index_of(0, 0), Ok(136));
    assert_eq!(Grid::index_of(7, 7), Ok(255));
    assert_eq!(Grid::index_of(8, 0), Err(GameError::OutOfBounds));
    assert_eq!(Grid::index_of(0, -9), Err(GameError::OutOfBounds));
}

#[test]
fn get_out_of_bounds() {
    let g = Grid::new();
    assert_eq!(g.get(-9, 0).err(), Some(GameError::OutOfBounds));
    assert!(g.get(-8, 7).unwrap().crop.is_none());
}

#[test]
fn plant_then_harvest_before_maturity() {
    let mut g = Grid::new();
    assert_eq!(g.plant(3, -2, crop("carrots", 0, 5)), Ok(()));
    g.advance_growth(1);
    assert!(g.harvest(3, -2).is_none());
    assert_eq!(stage_at(&g, 3, -2), Some(1));
}

#[test]
fn plant_on_occupied_or_outside_fails() {
    let mut g = Grid::new();
    assert_eq!(g.plant(0, 0, crop("carrots", 0, 5)), Ok(()));
    assert_eq!(g.plant(0, 0, crop("pumpkins", 0, 10)), Err(GameError::PlotOccupied));
    assert_eq!(g.get(0, 0).unwrap().crop.as_ref().unwrap().name, "carrots");
    assert_eq!(g.plant(16, 0, crop("carrots", 0, 5)), Err(GameError::OutOfBounds));
}

#[test]
fn growth_reaches_maximum_and_clamps() {
    let mut g = Grid::new();
    g.plant(-1, 4, crop("carrots", 0, 5)).unwrap();
    for _ in 0..5 {
        g.advance_growth(1);
    }
    assert_eq!(stage_at(&g, -1, 4), Some(5));
    g.advance_growth(1);
    assert_eq!(stage_at(&g, -1, 4), Some(5));
}

#[test]
fn growth_with_zero_ticks_and_large_ticks() {
    let mut g = Grid::new();
    g.plant(2, 2, crop("pumpkins", 3, 10)).unwrap();
    g.advance_growth(0);
    assert_eq!(stage_at(&g, 2, 2), Some(3));
    g.advance_growth(u32::MAX);
    assert_eq!(stage_at(&g, 2, 2), Some(10));
}

#[test]
fn harvest_mature_then_again() {
    let mut g = Grid::new();
    g.plant(5, 5, crop("carrots", 5, 5)).unwrap();
    let got = g.harvest(5, 5).unwrap();
    assert_eq!(got.name, "carrots");
    assert_eq!(got.stage, 5);
    assert!(g.get(5, 5).unwrap().crop.is_none());
    assert!(g.harvest(5, 5).is_none());
}

#[test]
fn harvest_outside_or_empty_is_none() {
    let mut g = Grid::new();
    assert!(g.harvest(100, 0).is_none());
    assert!(g.harvest(0, 0).is_none());
    assert!(!g.is_occupied(0, 0));
}
