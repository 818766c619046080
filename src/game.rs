use vstd::prelude::*;
use crate::catalogue::{
    Catalogue,
    ItemDef,
    SeedDef,
    CropInstance,
    resolve_seed,
    resolve_crop,
    instantiate_result,
    is_standard_table,
};
use crate::error::GameError;
use crate::grid::{Grid, Plot, in_bounds, cell, grown_plot, after_plant, harvest_result, after_harvest};
use crate::inventory::{
    Inventory,
    Entries,
    add_overflows,
    after_add,
    remove_fails,
    after_remove,
    quantity,
    lemma_add_quantity,
};

verus! {

/// A mutation requested during a step, applied when the step drains its queue.
pub enum GameEvent {
    AddToInventory(String, u32),
    RemoveFromInventory(String, u32),
    PlantFromInventory(String, i32, i32),
}

/// What a click on a plot did.
#[derive(Debug, Clone, Copy, PartialEq, Eq, Structural)]
pub enum ClickOutcome {
    /// A mature crop was taken off the plot; one unit of it is queued for the inventory.
    Harvested,
    /// A unit of the selected seed was planted on the empty plot.
    Planted,
    /// The plot holds an immature crop, or no seed is selected.
    Nothing,
}

/// The mutable part of the game: plots, inventory entries and money.
pub struct FarmModel {
    pub plots: Seq<Plot>,
    pub inventory: Entries,
    pub money: u32,
}

pub open spec fn grown_plots(plots: Seq<Plot>, ticks: u32) -> Seq<Plot> {
    plots.map_values(|p: Plot| grown_plot(p, ticks))
}

/// What planting one unit of the seed `item` at `(x, y)` from the inventory reports.
pub open spec fn plant_result(items: Seq<ItemDef>, m: FarmModel, item: Seq<char>, x: int, y: int) -> Result<
    (),
    GameError,
> {
    match resolve_seed(items, item) {
        None => Err(GameError::NotASeed),
        Some(seed) => if remove_fails(m.inventory, item, 1) {
            Err(GameError::InsufficientQuantity)
        } else if !in_bounds(x, y) {
            Err(GameError::OutOfBounds)
        } else if m.plots[cell(x, y)].crop is Some {
            Err(GameError::PlotOccupied)
        } else {
            match instantiate_result(items, seed.yields@) {
                Err(e) => Err(e),
                Ok(_) => Ok(()),
            }
        },
    }
}

/// The state after planting: one seed fewer, the yielded crop on the plot.
/// Where planting fails nothing changes.
pub open spec fn after_plant_from_inventory(
    items: Seq<ItemDef>,
    m: FarmModel,
    item: Seq<char>,
    x: int,
    y: int,
) -> FarmModel {
    if plant_result(items, m, item, x, y) is Ok {
        let seed = resolve_seed(items, item)->Some_0;
        let crop = instantiate_result(items, seed.yields@)->Ok_0;
        FarmModel {
            plots: after_plant(m.plots, x, y, crop),
            inventory: after_remove(m.inventory, item, 1),
            money: m.money,
        }
    } else {
        m
    }
}

/// What applying one event reports.
pub open spec fn event_result(items: Seq<ItemDef>, m: FarmModel, e: GameEvent) -> Result<
    (),
    GameError,
> {
    match e {
        GameEvent::AddToInventory(item, amount) => if add_overflows(m.inventory, item@, amount) {
            Err(GameError::Overflow)
        } else {
            Ok(())
        },
        GameEvent::RemoveFromInventory(item, amount) => if remove_fails(
            m.inventory,
            item@,
            amount,
        ) {
            Err(GameError::InsufficientQuantity)
        } else {
            Ok(())
        },
        GameEvent::PlantFromInventory(item, x, y) => plant_result(items, m, item@, x as int, y as int),
    }
}

/// The state after applying one event; a failed event changes nothing.
pub open spec fn after_event(items: Seq<ItemDef>, m: FarmModel, e: GameEvent) -> FarmModel {
    if event_result(items, m, e) is Err {
        m
    } else {
        match e {
            GameEvent::AddToInventory(item, amount) => FarmModel {
                inventory: after_add(m.inventory, item, amount),
                ..m
            },
            GameEvent::RemoveFromInventory(item, amount) => FarmModel {
                inventory: after_remove(m.inventory, item@, amount),
                ..m
            },
            GameEvent::PlantFromInventory(item, x, y) => after_plant_from_inventory(
                items,
                m,
                item@,
                x as int,
                y as int,
            ),
        }
    }
}

/// The state after applying the events in order.
pub open spec fn after_events(items: Seq<ItemDef>, m: FarmModel, evs: Seq<GameEvent>) -> FarmModel
    decreases evs.len(),
{
    if evs.len() == 0 {
        m
    } else {
        after_event(items, after_events(items, m, evs.drop_last()), evs.last())
    }
}

/// What buying one unit of the seed reports: `NotASeed`, `InsufficientFunds`
/// where the money is below its cost, `Overflow` where the quantity would leave `u32`.
pub open spec fn buy_result(items: Seq<ItemDef>, m: FarmModel, name: Seq<char>) -> Result<
    (),
    GameError,
> {
    match resolve_seed(items, name) {
        None => Err(GameError::NotASeed),
        Some(seed) => if m.money < seed.cost {
            Err(GameError::InsufficientFunds)
        } else if add_overflows(m.inventory, name, 1) {
            Err(GameError::Overflow)
        } else {
            Ok(())
        },
    }
}

/// What selling one unit of the crop reports: `NotACrop`, `InsufficientQuantity`
/// where none is held, `Overflow` where the money would leave `u32`.
pub open spec fn sell_result(items: Seq<ItemDef>, m: FarmModel, name: Seq<char>) -> Result<
    (),
    GameError,
> {
    match resolve_crop(items, name) {
        None => Err(GameError::NotACrop),
        Some(crop) => if remove_fails(m.inventory, name, 1) {
            Err(GameError::InsufficientQuantity)
        } else if m.money + crop.sell_value > u32::MAX {
            Err(GameError::Overflow)
        } else {
            Ok(())
        },
    }
}

/// The whole simulation state: catalogue, plots, inventory, money, the queue
/// of pending events and the seed that a click on an empty plot plants.
pub struct Game {
    pub catalogue: Catalogue,
    pub grid: Grid,
    pub inventory: Inventory,
    pub money: u32,
    pub events: Vec<GameEvent>,
    pub selected_seed: Option<String>,
}

impl Game {
    pub open spec fn wf(&self) -> bool {
        self.grid.wf() && self.inventory.wf()
    }

    pub open spec fn model(&self) -> FarmModel {
        FarmModel { plots: self.grid.plots@, inventory: self.inventory.entries@, money: self.money }
    }

    pub open spec fn items(&self) -> Seq<ItemDef> {
        self.catalogue.items@
    }

    /// A game on the given catalogue and inventory with the given money, an
    /// empty grid, an empty queue and no selected seed.
    pub fn with_state(catalogue: Catalogue, inventory: Inventory, money: u32) -> (r: Game)
        requires
            inventory.wf(),
        ensures
            r.wf(),
            r.catalogue == catalogue,
            r.inventory == inventory,
            r.money == money,
            r.events@.len() == 0,
            r.selected_seed is None,
            forall|i: int| 0 <= i < 256 ==> (#[trigger] r.grid.plots@[i]).crop is None,
    {
        Game {
            catalogue,
            grid: Grid::new(),
            inventory,
            money,
            events: Vec::new(),
            selected_seed: None,
        }
    }

    /// The opening position of the standard game: the standard catalogue, ten
    /// carrot seeds, no money, carrot seeds selected, an empty grid.
    pub fn new() -> (r: Game)
        ensures
            r.wf(),
            r.money == 0,
            r.events@.len() == 0,
            is_standard_table(r.items()),
            r.catalogue.yields_resolve(),
            r.inventory.entries@.len() == 1,
            r.inventory.entries@[0].0@ == "carrot seeds"@,
            r.inventory.entries@[0].1 == 10,
            r.selected_seed matches Some(s) && s@ == "carrot seeds"@,
            forall|i: int| 0 <= i < 256 ==> (#[trigger] r.grid.plots@[i]).crop is None,
    {
        let mut inventory = Inventory::new();
        let seeds = "carrot seeds".to_string();
        let added = inventory.add(seeds, 10);
        assert(added is Ok);
        let mut game = Game::with_state(Catalogue::standard(), inventory, 0);
        game.selected_seed = Some("carrot seeds".to_string());
        game
    }

    /// The current balance.
    pub fn money(&self) -> (r: u32)
        ensures
            r == self.money,
    {
        self.money
    }

    /// The inventory entries, in display order.
    pub fn inventory_snapshot(&self) -> (r: &Vec<(String, u32)>)
        ensures
            r@ == self.inventory.entries@,
    {
        self.inventory.snapshot()
    }

    /// The catalogue definitions, in catalogue order.
    pub fn catalogue_entries(&self) -> (r: &Vec<ItemDef>)
        ensures
            r@ == self.catalogue.items@,
    {
        self.catalogue.entries()
    }

    /// The seed that a click on an empty plot plants.
    pub fn selected_seed(&self) -> (r: &Option<String>)
        ensures
            *r == self.selected_seed,
    {
        &self.selected_seed
    }

    /// The plot at `(x, y)`; `OutOfBounds` outside the grid.
    pub fn plot_at(&self, x: i32, y: i32) -> (r: Result<&Plot, GameError>)
        requires
            self.wf(),
        ensures
            r is Ok <==> in_bounds(x as int, y as int),
            r matches Ok(p) ==> *p == self.grid.plots@[cell(x as int, y as int)],
            r matches Err(e) ==> e == GameError::OutOfBounds,
    {
        self.grid.get(x, y)
    }

    /// Selects the seed that clicks on empty plots plant; `NotASeed`, leaving the
    /// selection as it was, where the name is not that of a seed.
    pub fn select_seed(&mut self, name: String) -> (r: Result<(), GameError>)
        ensures
            r is Ok <==> resolve_seed(old(self).items(), name@) is Some,
            r matches Err(e) ==> e == GameError::NotASeed && final(self).selected_seed == old(
                self,
            ).selected_seed,
            r is Ok ==> final(self).selected_seed == Some(name),
            final(self).catalogue == old(self).catalogue,
            final(self).grid == old(self).grid,
            final(self).inventory == old(self).inventory,
            final(self).money == old(self).money,
            final(self).events == old(self).events,
    {
        match self.catalogue.lookup_seed(&name) {
            Ok(_) => {
                self.selected_seed = Some(name);
                Ok(())
            },
            Err(e) => Err(e),
        }
    }

    /// Queues an event for the next step.
    pub fn enqueue(&mut self, event: GameEvent)
        ensures
            final(self).events@ == old(self).events@.push(event),
            final(self).catalogue == old(self).catalogue,
            final(self).grid == old(self).grid,
            final(self).inventory == old(self).inventory,
            final(self).money == old(self).money,
            final(self).selected_seed == old(self).selected_seed,
    {
        self.events.push(event);
    }
    /// Plants one unit of the seed `item` from the inventory at `(x, y)`. All
    /// checks come before any change, so a failure loses no seed.
    pub fn plant_from_inventory(&mut self, item: &String, x: i32, y: i32) -> (r: Result<
        (),
        GameError,
    >)
        requires
            old(self).wf(),
        ensures
            final(self).wf(),
            r == plant_result(old(self).items(), old(self).model(), item@, x as int, y as int),
            final(self).model() == after_plant_from_inventory(
                old(self).items(),
                old(self).model(),
                item@,
                x as int,
                y as int,
            ),
            final(self).catalogue == old(self).catalogue,
            final(self).events == old(self).events,
            final(self).selected_seed == old(self).selected_seed,
    {
        let seed: &SeedDef = match self.catalogue.lookup_seed(item) {
            Ok(s) => s,
            Err(e) => return Err(e),
        };
        if self.inventory.quantity_of(item) < 1 {
            return Err(GameError::InsufficientQuantity);
        }
        if Grid::index_of(x, y).is_err() {
            return Err(GameError::OutOfBounds);
        }
        if self.grid.is_occupied(x, y) {
            return Err(GameError::PlotOccupied);
        }
        let crop = match self.catalogue.instantiate_crop(&seed.yields) {
            Ok(c) => c,
            Err(e) => return Err(e),
        };
        let removed = self.inventory.remove(item, 1);
        let planted = self.grid.plant(x, y, crop);
        assert(removed is Ok && planted is Ok);
        Ok(())
    }

    /// Applies one event to the state; a failed event changes nothing.
    pub fn apply_event(&mut self, event: &GameEvent) -> (r: Result<(), GameError>)
        requires
            old(self).wf(),
        ensures
            final(self).wf(),
            r == event_result(old(self).items(), old(self).model(), *event),
            final(self).model() == after_event(old(self).items(), old(self).model(), *event),
            final(self).catalogue == old(self).catalogue,
            final(self).events == old(self).events,
            final(self).selected_seed == old(self).selected_seed,
    {
        match event {
            GameEvent::AddToInventory(item, amount) => {
                let owned: String = item.clone();
                assert(owned@ == item@);
                self.inventory.add(owned, *amount)
            },
            GameEvent::RemoveFromInventory(item, amount) => self.inventory.remove(item, *amount),
            GameEvent::PlantFromInventory(item, x, y) => self.plant_from_inventory(item, *x, *y),
        }
    }

    /// One simulation step: every crop grows by `ticks`, then the queued events
    /// are applied in the order they came, each failure reported and skipped.
    /// Returns one report per event, in queue order; the queue is left empty.
    pub fn step(&mut self, ticks: u32) -> (r: Vec<Result<(), GameError>>)
        requires
            old(self).wf(),
        ensures
            final(self).wf(),
            final(self).events@.len() == 0,
            r@.len() == old(self).events@.len(),
            final(self).model() == after_events(
                old(self).items(),
                FarmModel { plots: grown_plots(old(self).grid.plots@, ticks), ..old(self).model() },
                old(self).events@,
            ),
            forall|j: int|
                0 <= j < r@.len() ==> #[trigger] r@[j] == event_result(
                    old(self).items(),
                    after_events(
                        old(self).items(),
                        FarmModel {
                            plots: grown_plots(old(self).grid.plots@, ticks),
                            ..old(self).model()
                        },
                        old(self).events@.take(j),
                    ),
                    old(self).events@[j],
                ),
            final(self).catalogue == old(self).catalogue,
            final(self).selected_seed == old(self).selected_seed,
    {
        let ghost before = self.grid.plots@;
        self.grid.advance_growth(ticks);
        assert(self.grid.plots@ =~= grown_plots(before, ticks));
        let ghost start = self.model();
        let ghost items = self.items();
        let mut events: Vec<GameEvent> = Vec::new();
        std::mem::swap(&mut self.events, &mut events);
        let mut reports: Vec<Result<(), GameError>> = Vec::new();
        let mut i: usize = 0;
        assert(events@.take(0) =~= Seq::<GameEvent>::empty());
        while i < events.len()
            invariant
                self.wf(),
                i <= events@.len(),
                self.items() == items,
                self.events@.len() == 0,
                reports@.len() == i,
                self.model() == after_events(items, start, events@.take(i as int)),
                forall|j: int|
                    0 <= j < i ==> #[trigger] reports@[j] == event_result(
                        items,
                        after_events(items, start, events@.take(j)),
                        events@[j],
                    ),
                self.catalogue == old(self).catalogue,
                self.selected_seed == old(self).selected_seed,
            decreases events@.len() - i,
        {
            let report = self.apply_event(&events[i]);
            proof {
                let next = events@.take(i + 1);
                assert(next.drop_last() =~= events@.take(i as int));
                assert(next.last() == events@[i as int]);
            }
            reports.push(report);
            i += 1;
        }
        assert(events@.take(events@.len() as int) =~= events@);
        reports
    }

    /// Buys one unit of the seed: the money falls by its cost and the inventory
    /// gains one unit of it. `InsufficientFunds` where the money is below the cost;
    /// any failure leaves money and inventory unchanged.
    pub fn buy_seed(&mut self, name: &String) -> (r: Result<(), GameError>)
        requires
            old(self).wf(),
        ensures
            final(self).wf(),
            r == buy_result(old(self).items(), old(self).model(), name@),
            r is Err ==> final(self).model() == old(self).model(),
            resolve_seed(old(self).items(), name@) matches Some(seed) && old(self).money
                < seed.cost ==> r == Err::<(), GameError>(GameError::InsufficientFunds),
            r is Ok ==> final(self).money == old(self).money - resolve_seed(
                old(self).items(),
                name@,
            )->Some_0.cost,
            r is Ok ==> final(self).inventory.entries@ == after_add(
                old(self).inventory.entries@,
                *name,
                1,
            ),
            r is Ok ==> quantity(final(self).inventory.entries@, name@) == quantity(
                old(self).inventory.entries@,
                name@,
            ) + 1,
            r is Ok ==> final(self).grid == old(self).grid,
            final(self).catalogue == old(self).catalogue,
            final(self).events == old(self).events,
            final(self).selected_seed == old(self).selected_seed,
    {
        let ghost s0 = self.inventory.entries@;
        let cost = match self.catalogue.lookup_seed(name) {
            Ok(s) => s.cost,
            Err(e) => return Err(e),
        };
        if self.money < cost {
            return Err(GameError::InsufficientFunds);
        }
        match self.inventory.add(name.clone(), 1) {
            Ok(()) => {
                proof {
                    lemma_add_quantity(s0, *name, 1, name@);
                }
                self.money = self.money - cost;
                Ok(())
            },
            Err(e) => Err(e),
        }
    }

    /// Sells one unit of the crop: the money rises by its sell value and the
    /// inventory loses one unit of it. Any failure changes nothing.
    pub fn sell_item(&mut self, name: &String) -> (r: Result<(), GameError>)
        requires
            old(self).wf(),
        ensures
            final(self).wf(),
            r == sell_result(old(self).items(), old(self).model(), name@),
            r is Err ==> final(self).model() == old(self).model(),
            r is Ok ==> final(self).money == old(self).money + resolve_crop(
                old(self).items(),
                name@,
            )->Some_0.sell_value,
            r is Ok ==> final(self).inventory.entries@ == after_remove(
                old(self).inventory.entries@,
                name@,
                1,
            ),
            r is Ok ==> final(self).grid == old(self).grid,
            final(self).catalogue == old(self).catalogue,
            final(self).events == old(self).events,
            final(self).selected_seed == old(self).selected_seed,
    {
        let value = match self.catalogue.lookup_crop(name) {
            Ok(c) => c.sell_value,
            Err(e) => return Err(e),
        };
        if self.inventory.quantity_of(name) < 1 {
            return Err(GameError::InsufficientQuantity);
        }
        if self.money > u32::MAX - value {
            return Err(GameError::Overflow);
        }
        let removed = self.inventory.remove(name, 1);
        assert(removed is Ok);
        self.money = self.money + value;
        Ok(())
    }
    /// A click on plot `(x, y)`: a mature crop there is harvested and one unit of
    /// it queued for the inventory; on an empty plot one unit of the selected seed
    /// is planted from the inventory. Running out of that seed clears the selection.
    pub fn try_plant_or_harvest(&mut self, x: i32, y: i32) -> (r: Result<ClickOutcome, GameError>)
        requires
            old(self).wf(),
        ensures
            final(self).wf(),
            final(self).catalogue == old(self).catalogue,
            !in_bounds(x as int, y as int) ==> r == Err::<ClickOutcome, GameError>(
                GameError::OutOfBounds,
            ) && final(self).model() == old(self).model() && final(self).events == old(
                self,
            ).events && final(self).selected_seed == old(self).selected_seed,
            in_bounds(x as int, y as int) && old(self).grid.plots@[cell(
                x as int,
                y as int,
            )].crop is Some ==> {
                &&& r == Ok::<ClickOutcome, GameError>(
                    if harvest_result(old(self).grid.plots@, x as int, y as int) is Some {
                        ClickOutcome::Harvested
                    } else {
                        ClickOutcome::Nothing
                    },
                )
                &&& final(self).grid.plots@ == after_harvest(
                    old(self).grid.plots@,
                    x as int,
                    y as int,
                )
                &&& final(self).events@ == match harvest_result(
                    old(self).grid.plots@,
                    x as int,
                    y as int,
                ) {
                    Some(c) => old(self).events@.push(GameEvent::AddToInventory(c.name, 1)),
                    None => old(self).events@,
                }
                &&& final(self).inventory == old(self).inventory
                &&& final(self).money == old(self).money
                &&& final(self).selected_seed == old(self).selected_seed
            },
            in_bounds(x as int, y as int) && old(self).grid.plots@[cell(
                x as int,
                y as int,
            )].crop is None ==> match old(self).selected_seed {
                None => {
                    &&& r == Ok::<ClickOutcome, GameError>(ClickOutcome::Nothing)
                    &&& final(self).model() == old(self).model()
                    &&& final(self).selected_seed == old(self).selected_seed
                },
                Some(seed) => {
                    let planted = plant_result(
                        old(self).items(),
                        old(self).model(),
                        seed@,
                        x as int,
                        y as int,
                    );
                    &&& r == match planted {
                        Ok(_) => Ok::<ClickOutcome, GameError>(ClickOutcome::Planted),
                        Err(e) => Err(e),
                    }
                    &&& final(self).model() == after_plant_from_inventory(
                        old(self).items(),
                        old(self).model(),
                        seed@,
                        x as int,
                        y as int,
                    )
                    &&& final(self).selected_seed == if planted == Err::<(), GameError>(
                        GameError::InsufficientQuantity,
                    ) {
                        None
                    } else {
                        old(self).selected_seed
                    }
                },
            } && final(self).events == old(self).events,
    {
        if Grid::index_of(x, y).is_err() {
            return Err(GameError::OutOfBounds);
        }
        if self.grid.is_occupied(x, y) {
            match self.grid.harvest(x, y) {
                Some(crop) => {
                    self.events.push(GameEvent::AddToInventory(crop.name, 1));
                    Ok(ClickOutcome::Harvested)
                },
                None => Ok(ClickOutcome::Nothing),
            }
        } else {
            let seed = match &self.selected_seed {
                Some(s) => s.clone(),
                None => return Ok(ClickOutcome::Nothing),
            };
            match self.plant_from_inventory(&seed, x, y) {
                Ok(()) => Ok(ClickOutcome::Planted),
                Err(e) => {
                    if e == GameError::InsufficientQuantity {
                        self.selected_seed = None;
                    }
                    Err(e)
                },
            }
        }
    }
}

} // verus!
