use vstd::prelude::*;
use crate::catalogue::{CropInstance, CropDef, fresh_crop};
use crate::error::GameError;

verus! {

/// Plots per row and per column.
pub const WIDTH: i32 = 16;

/// The smallest coordinate on each axis; the largest is `HALF - 1`.
pub const HALF: i32 = 8;

/// Number of plots in the grid.
pub const PLOT_COUNT: usize = 256;

/// One grid cell, which may hold one growing crop.
pub struct Plot {
    pub crop: Option<CropInstance>,
}

pub open spec fn in_bounds(x: int, y: int) -> bool {
    -8 <= x < 8 && -8 <= y < 8
}

/// The position of plot `(x, y)` in the row-major vector of plots.
pub open spec fn cell(x: int, y: int) -> int {
    (x + 8) + (y + 8) * 16
}

/// A crop after `ticks` units of growth: its stage rises, but never past its maximum.
pub open spec fn grown(c: CropInstance, ticks: u32) -> CropInstance {
    if c.stage < c.max_stage {
        CropInstance {
            stage: if ticks >= c.max_stage - c.stage {
                c.max_stage
            } else {
                (c.stage + ticks) as u32
            },
            ..c
        }
    } else {
        c
    }
}

pub open spec fn grown_plot(p: Plot, ticks: u32) -> Plot {
    match p.crop {
        Some(c) => Plot { crop: Some(grown(c, ticks)) },
        None => p,
    }
}

/// A crop after `n` single growth ticks.
pub open spec fn grown_times(c: CropInstance, n: nat) -> CropInstance
    decreases n,
{
    if n == 0 {
        c
    } else {
        grown(grown_times(c, (n - 1) as nat), 1)
    }
}

/// The plots after planting `c` at `(x, y)`, where that plot is empty.
pub open spec fn after_plant(plots: Seq<Plot>, x: int, y: int, c: CropInstance) -> Seq<Plot> {
    plots.update(cell(x, y), Plot { crop: Some(c) })
}

/// What harvesting `(x, y)` returns: the crop there, where it is mature.
pub open spec fn harvest_result(plots: Seq<Plot>, x: int, y: int) -> Option<CropInstance> {
    if in_bounds(x, y) {
        match plots[cell(x, y)].crop {
            Some(c) => if c.is_mature() {
                Some(c)
            } else {
                None
            },
            None => None,
        }
    } else {
        None
    }
}

/// The plots after harvesting `(x, y)`: emptied where a mature crop stood.
pub open spec fn after_harvest(plots: Seq<Plot>, x: int, y: int) -> Seq<Plot> {
    if harvest_result(plots, x, y) is Some {
        plots.update(cell(x, y), Plot { crop: None })
    } else {
        plots
    }
}

proof fn lemma_cell_in_range(x: int, y: int)
    requires
        in_bounds(x, y),
    ensures
        0 <= cell(x, y) < 256,
{
}

/// Single growth ticks, as many as a crop lacks to its maximum, bring it to its
/// maximum stage; one more tick leaves it as it is.
pub proof fn lemma_growth_reaches_maximum(c: CropInstance)
    requires
        c.stage <= c.max_stage,
    ensures
        grown_times(c, (c.max_stage - c.stage) as nat).stage == c.max_stage,
        grown(grown_times(c, (c.max_stage - c.stage) as nat), 1) == grown_times(
            c,
            (c.max_stage - c.stage) as nat,
        ),
{
    lemma_grown_times_stage(c, (c.max_stage - c.stage) as nat);
}

proof fn lemma_grown_times_stage(c: CropInstance, n: nat)
    requires
        c.stage + n <= c.max_stage,
    ensures
        grown_times(c, n) == (CropInstance { stage: (c.stage + n) as u32, ..c }),
    decreases n,
{
    if n > 0 {
        lemma_grown_times_stage(c, (n - 1) as nat);
    }
}

/// A freshly planted crop reaches its maximum stage after exactly `max_stage`
/// single ticks, keeping the name of its definition; one more tick leaves it unchanged.
pub proof fn lemma_fresh_crop_matures(d: CropDef)
    ensures
        grown_times(fresh_crop(d), d.max_stage as nat).stage == d.max_stage,
        grown_times(fresh_crop(d), d.max_stage as nat).name == d.name,
        grown(grown_times(fresh_crop(d), d.max_stage as nat), 1) == grown_times(
            fresh_crop(d),
            d.max_stage as nat,
        ),
{
    lemma_growth_reaches_maximum(fresh_crop(d));
    lemma_grown_times_stage(fresh_crop(d), d.max_stage as nat);
}

/// Planting on an empty plot and harvesting it at once, before the crop is
/// mature, yields nothing and leaves the crop in place with its stage.
pub proof fn lemma_plant_then_harvest_immature(
    plots: Seq<Plot>,
    x: int,
    y: int,
    c: CropInstance,
)
    requires
        plots.len() == 256,
        in_bounds(x, y),
        plots[cell(x, y)].crop is None,
        !c.is_mature(),
    ensures
        harvest_result(after_plant(plots, x, y, c), x, y) is None,
        after_harvest(after_plant(plots, x, y, c), x, y) == after_plant(plots, x, y, c),
        after_plant(plots, x, y, c)[cell(x, y)].crop == Some(c),
{
    lemma_cell_in_range(x, y);
}

/// Harvesting a mature crop returns it and empties the plot; harvesting the
/// same plot again at once returns nothing.
pub proof fn lemma_harvest_mature_twice(plots: Seq<Plot>, x: int, y: int, c: CropInstance)
    requires
        plots.len() == 256,
        in_bounds(x, y),
        plots[cell(x, y)].crop == Some(c),
        c.is_mature(),
    ensures
        harvest_result(plots, x, y) == Some(c),
        after_harvest(plots, x, y)[cell(x, y)].crop is None,
        harvest_result(after_harvest(plots, x, y), x, y) is None,
        after_harvest(after_harvest(plots, x, y), x, y) == after_harvest(plots, x, y),
{
    lemma_cell_in_range(x, y);
}

/// The fixed 16 by 16 grid of plots, addressed by coordinates in `[-8, 8)` on each axis.
pub struct Grid {
    pub plots: Vec<Plot>,
}

impl Grid {
    pub open spec fn wf(&self) -> bool {
        self.plots@.len() == 256
    }

    /// A grid of empty plots.
    pub fn new() -> (r: Grid)
        ensures
            r.wf(),
            forall|i: int| 0 <= i < 256 ==> (#[trigger] r.plots@[i]).crop is None,
    {
        let mut plots: Vec<Plot> = Vec::new();
        let mut i: usize = 0;
        while i < PLOT_COUNT
            invariant
                i <= 256,
                plots@.len() == i,
                forall|j: int| 0 <= j < i ==> (#[trigger] plots@[j]).crop is None,
            decreases 256 - i,
        {
            plots.push(Plot { crop: None });
            i += 1;
        }
        Grid { plots }
    }

    /// The position of plot `(x, y)`; `OutOfBounds` outside the grid.
    pub fn index_of(x: i32, y: i32) -> (r: Result<usize, GameError>)
        ensures
            r is Ok <==> in_bounds(x as int, y as int),
            r matches Ok(i) ==> i == cell(x as int, y as int) && i < 256,
            r matches Err(e) ==> e == GameError::OutOfBounds,
    {
        if x < -HALF || x >= HALF || y < -HALF || y >= HALF {
            Err(GameError::OutOfBounds)
        } else {
            Ok(((x + HALF) + (y + HALF) * WIDTH) as usize)
        }
    }

    /// The plot at `(x, y)`; `OutOfBounds` outside the grid.
    pub fn get(&self, x: i32, y: i32) -> (r: Result<&Plot, GameError>)
        requires
            self.wf(),
        ensures
            r is Ok <==> in_bounds(x as int, y as int),
            r matches Ok(p) ==> *p == self.plots@[cell(x as int, y as int)],
            r matches Err(e) ==> e == GameError::OutOfBounds,
    {
        let i = Self::index_of(x, y)?;
        Ok(&self.plots[i])
    }

    /// Whether plot `(x, y)`, inside the grid, holds a crop.
    pub fn is_occupied(&self, x: i32, y: i32) -> (r: bool)
        requires
            self.wf(),
            in_bounds(x as int, y as int),
        ensures
            r == self.plots@[cell(x as int, y as int)].crop is Some,
    {
        match Self::index_of(x, y) {
            Ok(i) => self.plots[i].crop.is_some(),
            Err(_) => false,
        }
    }

    /// Advances every crop below its maximum stage by `ticks`, never past its maximum.
    pub fn advance_growth(&mut self, ticks: u32)
        requires
            old(self).wf(),
        ensures
            final(self).wf(),
            forall|i: int|
                0 <= i < 256 ==> #[trigger] final(self).plots@[i] == grown_plot(
                    old(self).plots@[i],
                    ticks,
                ),
    {
        let ghost before = self.plots@;
        let mut i: usize = 0;
        while i < self.plots.len()
            invariant
                self.plots@.len() == 256,
                i <= 256,
                forall|j: int| 0 <= j < i ==> #[trigger] self.plots@[j] == grown_plot(before[j], ticks),
                forall|j: int| i <= j < 256 ==> #[trigger] self.plots@[j] == before[j],
            decreases 256 - i,
        {
            let next = match &self.plots[i].crop {
                Some(c) => {
                    if c.stage < c.max_stage {
                        let stage = if ticks >= c.max_stage - c.stage {
                            c.max_stage
                        } else {
                            c.stage + ticks
                        };
                        Some(
                            CropInstance {
                                name: c.name.clone(),
                                stage,
                                max_stage: c.max_stage,
                                sell_value: c.sell_value,
                            },
                        )
                    } else {
                        None
                    }
                },
                None => None,
            };
            if let Some(c) = next {
                self.plots[i] = Plot { crop: Some(c) };
            }
            i += 1;
        }
    }

    /// Puts `crop` on plot `(x, y)`. Fails with `OutOfBounds` outside the grid and
    /// with `PlotOccupied` where the plot holds a crop; a failure changes nothing.
    pub fn plant(&mut self, x: i32, y: i32, crop: CropInstance) -> (r: Result<(), GameError>)
        requires
            old(self).wf(),
        ensures
            final(self).wf(),
            r == (if !in_bounds(x as int, y as int) {
                Err(GameError::OutOfBounds)
            } else if old(self).plots@[cell(x as int, y as int)].crop is Some {
                Err(GameError::PlotOccupied)
            } else {
                Ok(())
            }),
            r is Ok ==> final(self).plots@ == after_plant(old(self).plots@, x as int, y as int, crop),
            r is Err ==> final(self).plots@ == old(self).plots@,
    {
        let i = Self::index_of(x, y)?;
        if self.plots[i].crop.is_some() {
            return Err(GameError::PlotOccupied);
        }
        self.plots[i] = Plot { crop: Some(crop) };
        Ok(())
    }

    /// Takes the crop off plot `(x, y)` where it is mature and returns it;
    /// otherwise returns nothing and leaves the grid as it is.
    pub fn harvest(&mut self, x: i32, y: i32) -> (r: Option<CropInstance>)
        requires
            old(self).wf(),
        ensures
            final(self).wf(),
            r == harvest_result(old(self).plots@, x as int, y as int),
            final(self).plots@ == after_harvest(old(self).plots@, x as int, y as int),
    {
        let i = match Self::index_of(x, y) {
            Ok(i) => i,
            Err(_) => return None,
        };
        let mature = match &self.plots[i].crop {
            Some(c) => c.stage == c.max_stage,
            None => false,
        };
        if !mature {
            return None;
        }
        let mut taken = Plot { crop: None };
        std::mem::swap(&mut self.plots[i], &mut taken);
        taken.crop
    }
}

} // verus!
