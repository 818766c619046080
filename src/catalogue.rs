use vstd::prelude::*;
use crate::error::GameError;

verus! {

/// A plantable item: buying it costs `cost`, planting it grows the crop named `yields`.
pub struct SeedDef {
    pub name: String,
    pub cost: u32,
    pub yields: String,
}

/// A harvestable item: it matures at `max_stage` and sells for `sell_value`.
pub struct CropDef {
    pub name: String,
    pub max_stage: u32,
    pub sell_value: u32,
}

/// One entry of the catalogue.
pub enum ItemDef {
    Seed(SeedDef),
    Crop(CropDef),
}

/// A live, growing crop, copied from its definition when planted.
pub struct CropInstance {
    pub name: String,
    pub stage: u32,
    pub max_stage: u32,
    pub sell_value: u32,
}

impl CropInstance {
    /// A crop is mature, and may be harvested, once its stage reached its maximum.
    pub open spec fn is_mature(self) -> bool {
        self.stage == self.max_stage
    }
}

pub open spec fn item_name(d: ItemDef) -> Seq<char> {
    match d {
        ItemDef::Seed(s) => s.name@,
        ItemDef::Crop(c) => c.name@,
    }
}

/// `i` is the first position of `items` whose entry is named `name`.
pub open spec fn is_first_named(items: Seq<ItemDef>, name: Seq<char>, i: int) -> bool {
    &&& 0 <= i < items.len()
    &&& item_name(items[i]) == name
    &&& forall|j: int| 0 <= j < i ==> item_name(#[trigger] items[j]) != name
}

/// The definition that a name resolves to: the first entry of that name.
pub open spec fn resolve(items: Seq<ItemDef>, name: Seq<char>) -> Option<ItemDef> {
    if exists|i: int| is_first_named(items, name, i) {
        Some(items[choose|i: int| is_first_named(items, name, i)])
    } else {
        None
    }
}

/// The seed that a name resolves to, if it resolves to a seed.
pub open spec fn resolve_seed(items: Seq<ItemDef>, name: Seq<char>) -> Option<SeedDef> {
    match resolve(items, name) {
        Some(ItemDef::Seed(s)) => Some(s),
        _ => None,
    }
}

/// The crop that a name resolves to, if it resolves to a crop.
pub open spec fn resolve_crop(items: Seq<ItemDef>, name: Seq<char>) -> Option<CropDef> {
    match resolve(items, name) {
        Some(ItemDef::Crop(c)) => Some(c),
        _ => None,
    }
}

/// A fresh instance of a crop definition, at stage zero.
pub open spec fn fresh_crop(c: CropDef) -> CropInstance {
    CropInstance { name: c.name, stage: 0, max_stage: c.max_stage, sell_value: c.sell_value }
}

/// What instantiating the crop of that name gives.
pub open spec fn instantiate_result(items: Seq<ItemDef>, name: Seq<char>) -> Result<
    CropInstance,
    GameError,
> {
    match resolve(items, name) {
        None => Err(GameError::UnknownItem),
        Some(ItemDef::Seed(_)) => Err(GameError::NotACrop),
        Some(ItemDef::Crop(c)) => Ok(fresh_crop(c)),
    }
}

proof fn lemma_first_unique(items: Seq<ItemDef>, name: Seq<char>, i: int, k: int)
    requires
        is_first_named(items, name, i),
        is_first_named(items, name, k),
    ensures
        i == k,
{
    if i < k {
        assert(item_name(items[i]) != name);
    } else if k < i {
        assert(item_name(items[k]) != name);
    }
}

/// The standard table: carrot seeds (cost 10) grow carrots (5 stages, sell for
/// 50); pumpkin seeds (cost 20) grow pumpkins (10 stages, sell for 100).
pub open spec fn is_standard_table(items: Seq<ItemDef>) -> bool {
    &&& items.len() == 4
    &&& items[0] matches ItemDef::Seed(s) && s.name@ == "carrot seeds"@ && s.cost == 10
        && s.yields@ == "carrots"@
    &&& items[1] matches ItemDef::Seed(s) && s.name@ == "pumpkin seeds"@ && s.cost == 20
        && s.yields@ == "pumpkins"@
    &&& items[2] matches ItemDef::Crop(c) && c.name@ == "carrots"@ && c.max_stage == 5
        && c.sell_value == 50
    &&& items[3] matches ItemDef::Crop(c) && c.name@ == "pumpkins"@ && c.max_stage == 10
        && c.sell_value == 100
}

/// The read-only table of item definitions; a name resolves to its first entry.
pub struct Catalogue {
    pub items: Vec<ItemDef>,
}

impl Catalogue {
    /// A catalogue holding the given definitions, in that order.
    pub fn from_items(items: Vec<ItemDef>) -> (r: Catalogue)
        ensures
            r.items@ == items@,
    {
        Catalogue { items }
    }

    /// The table of the standard game: carrot and pumpkin seeds and crops.
    pub fn standard() -> (r: Catalogue)
        ensures
            is_standard_table(r.items@),
            r.yields_resolve(),
    {
        let mut items: Vec<ItemDef> = Vec::new();
        items.push(
            ItemDef::Seed(
                SeedDef {
                    name: "carrot seeds".to_string(),
                    cost: 10,
                    yields: "carrots".to_string(),
                },
            ),
        );
        items.push(
            ItemDef::Seed(
                SeedDef {
                    name: "pumpkin seeds".to_string(),
                    cost: 20,
                    yields: "pumpkins".to_string(),
                },
            ),
        );
        items.push(
            ItemDef::Crop(
                CropDef { name: "carrots".to_string(), max_stage: 5, sell_value: 50 },
            ),
        );
        items.push(
            ItemDef::Crop(
                CropDef { name: "pumpkins".to_string(), max_stage: 10, sell_value: 100 },
            ),
        );
        let r = Catalogue { items };
        proof {
            reveal_strlit("carrot seeds");
            reveal_strlit("pumpkin seeds");
            reveal_strlit("carrots");
            reveal_strlit("pumpkins");
            let t = r.items@;
            assert("carrot seeds"@[6] != "carrots"@[6]);
            assert(item_name(t[0]) != "carrots"@);
            assert("pumpkin seeds"@[0] != "carrots"@[0]);
            assert(item_name(t[1]) != "carrots"@);
            assert(is_first_named(t, "carrots"@, 2));
            assert(item_name(t[0]) != "pumpkins"@);
            assert("pumpkin seeds"@[7] != "pumpkins"@[7]);
            assert(item_name(t[1]) != "pumpkins"@);
            assert(item_name(t[2]) != "pumpkins"@);
            assert(is_first_named(t, "pumpkins"@, 3));
            lemma_first_unique(t, "carrots"@, 2, choose|k: int| is_first_named(t, "carrots"@, k));
            lemma_first_unique(
                t,
                "pumpkins"@,
                3,
                choose|k: int| is_first_named(t, "pumpkins"@, k),
            );
        }
        r
    }

    /// Every seed's yielded crop resolves to a crop of the catalogue.
    pub open spec fn yields_resolve(&self) -> bool {
        forall|i: int|
            0 <= i < self.items@.len() ==> match #[trigger] self.items@[i] {
                ItemDef::Seed(s) => resolve_crop(self.items@, s.yields@) is Some,
                ItemDef::Crop(_) => true,
            }
    }

    /// Checks the table once built: `NotACrop` where some seed yields a name that
    /// does not resolve to a crop.
    pub fn validate(&self) -> (r: Result<(), GameError>)
        ensures
            r == (if self.yields_resolve() {
                Ok(())
            } else {
                Err(GameError::NotACrop)
            }),
    {
        let mut i: usize = 0;
        while i < self.items.len()
            invariant
                i <= self.items@.len(),
                forall|j: int|
                    0 <= j < i ==> match #[trigger] self.items@[j] {
                        ItemDef::Seed(s) => resolve_crop(self.items@, s.yields@) is Some,
                        ItemDef::Crop(_) => true,
                    },
            decreases self.items@.len() - i,
        {
            match &self.items[i] {
                ItemDef::Seed(s) => {
                    if self.lookup_crop(&s.yields).is_err() {
                        return Err(GameError::NotACrop);
                    }
                },
                ItemDef::Crop(_) => {},
            }
            i += 1;
        }
        Ok(())
    }

    /// The definitions, in catalogue order.
    pub fn entries(&self) -> (r: &Vec<ItemDef>)
        ensures
            r@ == self.items@,
    {
        &self.items
    }

    /// The position of the first entry named `name`, if any.
    pub fn position(&self, name: &String) -> (r: Option<usize>)
        ensures
            match r {
                Some(i) => is_first_named(self.items@, name@, i as int),
                None => forall|i: int|
                    0 <= i < self.items@.len() ==> item_name(#[trigger] self.items@[i])
                        != name@,
            },
            r is Some <==> resolve(self.items@, name@) is Some,
            r matches Some(i) ==> resolve(self.items@, name@) == Some(self.items@[i as int]),
    {
        let mut i: usize = 0;
        while i < self.items.len()
            invariant
                i <= self.items@.len(),
                forall|j: int| 0 <= j < i ==> item_name(#[trigger] self.items@[j]) != name@,
            decreases self.items@.len() - i,
        {
            let found = match &self.items[i] {
                ItemDef::Seed(s) => s.name.eq(name),
                ItemDef::Crop(c) => c.name.eq(name),
            };
            if found {
                proof {
                    let items = self.items@;
                    assert(is_first_named(items, name@, i as int));
                    let k = choose|k: int| is_first_named(items, name@, k);
                    lemma_first_unique(items, name@, i as int, k);
                }
                return Some(i);
            }
            i += 1;
        }
        assert(forall|k: int| !is_first_named(self.items@, name@, k));
        None
    }

    /// The seed definition of that name; `NotASeed` if the name is absent or names a crop.
    pub fn lookup_seed(&self, name: &String) -> (r: Result<&SeedDef, GameError>)
        ensures
            match r {
                Ok(s) => resolve_seed(self.items@, name@) == Some(*s),
                Err(e) => e == GameError::NotASeed && resolve_seed(self.items@, name@) is None,
            },
    {
        match self.position(name) {
            Some(i) => match &self.items[i] {
                ItemDef::Seed(s) => Ok(s),
                ItemDef::Crop(_) => Err(GameError::NotASeed),
            },
            None => Err(GameError::NotASeed),
        }
    }

    /// The crop definition of that name; `NotACrop` if the name is absent or names a seed.
    pub fn lookup_crop(&self, name: &String) -> (r: Result<&CropDef, GameError>)
        ensures
            match r {
                Ok(c) => resolve_crop(self.items@, name@) == Some(*c),
                Err(e) => e == GameError::NotACrop && resolve_crop(self.items@, name@) is None,
            },
    {
        match self.position(name) {
            Some(i) => match &self.items[i] {
                ItemDef::Crop(c) => Ok(c),
                ItemDef::Seed(_) => Err(GameError::NotACrop),
            },
            None => Err(GameError::NotACrop),
        }
    }

    /// A fresh instance, at stage zero, of the crop of that name; `UnknownItem`
    /// if no entry has that name, `NotACrop` if it names a seed.
    pub fn instantiate_crop(&self, name: &String) -> (r: Result<CropInstance, GameError>)
        ensures
            r == instantiate_result(self.items@, name@),
    {
        match self.position(name) {
            Some(i) => match &self.items[i] {
                ItemDef::Crop(c) => Ok(
                    CropInstance {
                        name: c.name.clone(),
                        stage: 0,
                        max_stage: c.max_stage,
                        sell_value: c.sell_value,
                    },
                ),
                ItemDef::Seed(_) => Err(GameError::NotACrop),
            },
            None => Err(GameError::UnknownItem),
        }
    }
}

} // verus!
