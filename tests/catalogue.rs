use farm_sim::catalogue::{Catalogue, CropDef, ItemDef, SeedDef};
use farm_sim::error::GameError;

fn s(text: &str) -> String {
    text.to_string()
}

#[test]
fn lookup_seed_finds_seed() {
    let cat = Catalogue::standard();
    let seed = cat.lookup_seed(&s("carrot seeds")).unwrap();
    assert_eq!(seed.cost, 10);
    assert_eq!(seed.yields, "carrots");
    let seed = cat.lookup_seed(&s("pumpkin seeds")).unwrap();
    assert_eq!(seed.cost, 20);
    assert_eq!(seed.yields, "pumpkins");
}

#[test]
fn lookup_seed_rejects_crop_and_absent() {
    let cat = Catalogue::standard();
    assert_eq!(cat.lookup_seed(&s("carrots")).err(), Some(GameError::NotASeed));
    assert_eq!(cat.lookup_seed(&s("wheat seeds")).err(), Some(GameError::NotASeed));
}

#[test]
fn lookup_crop_finds_crop() {
    let cat = Catalogue::standard();
    let crop = cat.lookup_crop(&s("pumpkins")).unwrap();
    assert_eq!(crop.max_stage, 10);
    assert_eq!(crop.sell_value, 100);
}

#[test]
fn lookup_crop_rejects_seed_and_absent() {
    let cat = Catalogue::standard();
    assert_eq!(cat.lookup_crop(&s("carrot seeds")).err(), Some(GameError::NotACrop));
    assert_eq!(cat.lookup_crop(&s("")).err(), Some(GameError::NotACrop));
}

#[test]
fn instantiate_crop_starts_at_stage_zero() {
    let cat = Catalogue::standard();
    let c = cat.instantiate_crop(&s("carrots")).unwrap();
    assert_eq!(c.name, "carrots");
    assert_eq!(c.stage, 0);
    assert_eq!(c.max_stage, 5);
    assert_eq!(c.sell_value, 50);
}

#[test]
fn instantiate_crop_errors() {
    let cat = Catalogue::standard();
    assert_eq!(cat.instantiate_crop(&s("beets")).err(), Some(GameError::UnknownItem));
    assert_eq!(cat.instantiate_crop(&s("carrot seeds")).err(), Some(GameError::NotACrop));
}

#[test]
fn first_entry_of_a_name_wins() {
    let items = vec![
        ItemDef::Crop(CropDef { name: s("beans"), max_stage: 3, sell_value: 7 }),
        ItemDef::Seed(SeedDef { name: s("beans"), cost: 1, yields: s("beans") }),
    ];
    let cat = Catalogue::from_items(items);
    assert_eq!(cat.lookup_crop(&s("beans")).unwrap().sell_value, 7);
    assert_eq!(cat.lookup_seed(&s("beans")).err(), Some(GameError::NotASeed));
    assert_eq!(cat.position(&s("beans")), Some(0));
    assert_eq!(cat.position(&s("peas")), None);
}

#[test]
fn validate_accepts_standard_table() {
    assert_eq!(Catalogue::standard().validate(), Ok(()));
    assert_eq!(Catalogue::standard().entries().len(), 4);
}

#[test]
fn validate_rejects_dangling_yield() {
    let items = vec![ItemDef::Seed(SeedDef { name: s("rye seeds"), cost: 3, yields: s("rye") })];
    let cat = Catalogue::from_items(items);
    assert_eq!(cat.validate(), Err(GameError::NotACrop));
}

#[test]
fn error_descriptions_differ() {
    assert_eq!(GameError::OutOfBounds.describe(), "coordinate outside the grid");
    assert_ne!(GameError::NotASeed.describe(), GameError::NotACrop.describe());
}
