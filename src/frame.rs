//! One frame of rain: the configuration it is drawn with, the grid of cells it
//! produces, and the per-frame step that spawns, advances and composes.

use crate::columns::{slot_after_advance, slot_after_spawn, ColumnTracker, Speed};
use crate::drops::{head_at, level_at, scale, spent, RainDrop};
use crate::glyphs::{glyph_index, Catalog};
use crate::random::{lcg_iter, roll_of, Lcg};
use vstd::prelude::*;

verus! {

/// The named terminal colors the rain can be drawn in.
#[derive(Clone, Copy, Debug, PartialEq, Eq)]
pub enum RainColor {
    Black,
    Red,
    Green,
    Yellow,
    Blue,
    Magenta,
    Cyan,
    White,
    DarkGray,
    LightRed,
    LightGreen,
    LightYellow,
    LightBlue,
    LightMagenta,
    LightCyan,
    Gray,
}

/// Everything a frame is drawn with besides time and size.
#[derive(Clone, Copy, Debug, PartialEq, Eq)]
pub struct RainConfig {
    pub tail_color: RainColor,
    pub head_color: RainColor,
    pub speed: Speed,
    pub tail_lifespan_ms: u64,
}

/// One cell of a frame.
#[derive(Clone, Copy, Debug, PartialEq, Eq)]
pub enum Cell {
    Empty,
    Lit { glyph: char, color: RainColor, level: crate::drops::Intensity },
}

/// The cell `(column, row)` at time `t`, given what the column holds.
#[verifier::opaque]
pub open spec fn cell_of(
    slot: Option<RainDrop>,
    column: int,
    row: int,
    t: int,
    cfg: RainConfig,
    glyphs: Seq<char>,
) -> Cell {
    match slot {
        None => Cell::Empty,
        Some(d) => {
            let lv = level_at(d, row, t, cfg.tail_lifespan_ms as int);
            if lv == 0 {
                Cell::Empty
            } else {
                Cell::Lit {
                    glyph: glyphs[glyph_index(column, row, t, glyphs.len() as int)],
                    color: if row == head_at(d.spawn_ms as int, d.ms_per_row as int, t) {
                        cfg.head_color
                    } else {
                        cfg.tail_color
                    },
                    level: crate::drops::Intensity {
                        num: lv as u64,
                        den: scale(cfg.tail_lifespan_ms as int) as u64,
                    },
                }
            }
        },
    }
}

/// A frame: `height` rows of `width` cells each.
pub struct Grid {
    pub width: usize,
    pub height: usize,
    pub rows: Vec<Vec<Cell>>,
}

impl Grid {
    /// The grid has the size it claims.
    pub open spec fn shaped(&self) -> bool {
        &&& self.rows@.len() == self.height
        &&& forall|y: int| 0 <= y < self.height ==> (#[trigger] self.rows@[y])@.len() == self.width
    }

    pub open spec fn at(&self, x: int, y: int) -> Cell {
        self.rows@[y]@[x]
    }

    /// The cell in column `x` of row `y`.
    pub fn cell(&self, x: usize, y: usize) -> (r: Cell)
        requires
            self.shaped(),
            x < self.width,
            y < self.height,
        ensures
            r == self.at(x as int, y as int),
    {
        self.rows[y][x]
    }
}

/// Every lit cell shows a glyph of the catalog.
pub proof fn lemma_lit_glyph_in_catalog(
    slot: Option<RainDrop>,
    column: int,
    row: int,
    t: int,
    cfg: RainConfig,
    glyphs: Seq<char>,
)
    requires
        glyphs.len() > 0,
    ensures
        cell_of(slot, column, row, t, cfg, glyphs) matches Cell::Lit { glyph, .. } ==> glyphs.contains(glyph),
{
    reveal(cell_of);
    if let Cell::Lit { glyph, .. } = cell_of(slot, column, row, t, cfg, glyphs) {
        let i = glyph_index(column, row, t, glyphs.len() as int);
        assert(glyphs[i] == glyph);
    }
}

/// The cell in column `x` of row `y` at time `t`.
fn cell_at(tracker: &ColumnTracker, cfg: &RainConfig, catalog: &Catalog, x: usize, y: usize, t: u64) -> (r: Cell)
    requires
        tracker.wf(),
        tracker.advanced_to(t as int),
        catalog.wf(),
        x < tracker@.len(),
    ensures
        r == cell_of(tracker@[x as int], x as int, y as int, t as int, *cfg, catalog@),
{
    reveal(cell_of);
    match tracker.drop_at(x) {
        None => Cell::Empty,
        Some(d) => {
            assert(tracker@[x as int] == Some(d));
            let level = d.intensity(y as u64, t, cfg.tail_lifespan_ms);
            if level.dark() {
                Cell::Empty
            } else {
                let glyph = catalog.glyph_for(x as u64, y as u64, t);
                let color = if y as u64 == d.head_row {
                    cfg.head_color
                } else {
                    cfg.tail_color
                };
                Cell::Lit { glyph, color, level }
            }
        },
    }
}

/// Draws the frame at time `t` from the drops of `tracker`, which must
/// already be advanced to `t`: one row of cells per grid row, one cell per
/// column of the tracker.
pub fn compose(tracker: &ColumnTracker, cfg: &RainConfig, catalog: &Catalog, t: u64, height: usize) -> (r: Grid)
    requires
        tracker.wf(),
        tracker.advanced_to(t as int),
        catalog.wf(),
    ensures
        r.width == tracker@.len(),
        r.height == height,
        r.shaped(),
        forall|x: int, y: int|
            0 <= x < r.width && 0 <= y < r.height ==> #[trigger] r.at(x, y) == cell_of(
                tracker@[x],
                x,
                y,
                t as int,
                *cfg,
                catalog@,
            ),
        forall|x: int, y: int|
            0 <= x < r.width && 0 <= y < r.height ==> (#[trigger] r.at(x, y) matches Cell::Lit {
                glyph,
                ..
            } ==> catalog@.contains(glyph)),
{
    let width = tracker.width();
    let mut rows: Vec<Vec<Cell>> = Vec::new();
    let mut y: usize = 0;
    while y < height
        invariant
            tracker.wf(),
            tracker.advanced_to(t as int),
            catalog.wf(),
            width == tracker@.len(),
            y <= height,
            rows@.len() == y,
            forall|yy: int| 0 <= yy < y ==> (#[trigger] rows@[yy])@.len() == width,
            forall|xx: int, yy: int|
                0 <= xx < width && 0 <= yy < y ==> #[trigger] rows@[yy]@[xx] == cell_of(
                    tracker@[xx],
                    xx,
                    yy,
                    t as int,
                    *cfg,
                    catalog@,
                ),
        decreases height - y,
    {
        let mut row: Vec<Cell> = Vec::new();
        let mut x: usize = 0;
        while x < width
            invariant
                tracker.wf(),
                tracker.advanced_to(t as int),
                catalog.wf(),
                width == tracker@.len(),
                y < height,
                x <= width,
                row@.len() == x,
                forall|xx: int|
                    0 <= xx < x ==> #[trigger] row@[xx] == cell_of(
                        tracker@[xx],
                        xx,
                        y as int,
                        t as int,
                        *cfg,
                        catalog@,
                    ),
            decreases width - x,
        {
            let cell = cell_at(tracker, cfg, catalog, x, y, t);
            row.push(cell);
            x = x + 1;
        }
        rows.push(row);
        y = y + 1;
    }
    let r = Grid { width, height, rows };
    proof {
        catalog.lemma_wf();
    }
    assert forall|x: int, y: int|
        0 <= x < r.width && 0 <= y < r.height implies (#[trigger] r.at(x, y) matches Cell::Lit {
            glyph,
            ..
        } ==> catalog@.contains(glyph)) by {
        lemma_lit_glyph_in_catalog(tracker@[x], x, y, t as int, *cfg, catalog@);
    }
    r
}

/// The roll that column `column` draws in a frame whose generator starts at
/// state `seed`: columns draw in order, one step each.
pub open spec fn spawn_roll(seed: u64, column: int) -> u64 {
    roll_of(lcg_iter(seed, (column + 1) as nat))
}

/// The slots fitted to `width` columns.
pub open spec fn resized(slots: Seq<Option<RainDrop>>, width: nat) -> Seq<Option<RainDrop>> {
    Seq::new(
        width,
        |i: int|
            if i < slots.len() {
                slots[i]
            } else {
                None
            },
    )
}

/// The slots after one frame at time `t`: fitted to the width, each column
/// given its spawn attempt, then every drop advanced.
pub open spec fn stepped(
    slots: Seq<Option<RainDrop>>,
    width: nat,
    seed: u64,
    t: u64,
    cfg: RainConfig,
    height: nat,
) -> Seq<Option<RainDrop>> {
    Seq::new(
        width,
        |i: int|
            slot_after_advance(
                slot_after_spawn(resized(slots, width)[i], t, cfg.speed, spawn_roll(seed, i)),
                t as int,
                height as int,
                cfg.tail_lifespan_ms as int,
            ),
    )
}

/// One frame at time `t` on a `width` by `height` grid: fits the tracker to
/// the width, lets every column attempt a spawn with a roll from `rng`,
/// advances every drop to `t`, then composes the grid.
pub fn render_frame(
    tracker: &mut ColumnTracker,
    rng: &mut Lcg,
    cfg: &RainConfig,
    catalog: &Catalog,
    t: u64,
    width: usize,
    height: usize,
) -> (r: Grid)
    requires
        old(tracker).wf(),
        old(tracker).started_by(t as int),
        catalog.wf(),
    ensures
        final(tracker).wf(),
        final(tracker).advanced_to(t as int),
        final(tracker)@ == stepped(old(tracker)@, width as nat, old(rng).state, t, *cfg, height as nat),
        final(rng).state == lcg_iter(old(rng).state, width as nat),
        r.width == width,
        r.height == height,
        r.shaped(),
        forall|x: int, y: int|
            0 <= x < width && 0 <= y < height ==> #[trigger] r.at(x, y) == cell_of(
                final(tracker)@[x],
                x,
                y,
                t as int,
                *cfg,
                catalog@,
            ),
        forall|x: int, y: int|
            0 <= x < width && 0 <= y < height ==> (#[trigger] r.at(x, y) matches Cell::Lit {
                glyph,
                ..
            } ==> catalog@.contains(glyph)),
{
    let ghost seed = rng.state;
    let ghost fitted = resized(old(tracker)@, width as nat);
    tracker.resize(width);
    assert(tracker@ =~= fitted);
    let mut i: usize = 0;
    while i < width
        invariant
            i <= width,
            tracker.wf(),
            tracker.started_by(t as int),
            tracker@.len() == width,
            fitted.len() == width,
            rng.state == lcg_iter(seed, i as nat),
            forall|j: int|
                0 <= j < i ==> #[trigger] tracker@[j] == slot_after_spawn(
                    fitted[j],
                    t,
                    cfg.speed,
                    spawn_roll(seed, j),
                ),
            forall|j: int| i <= j < width ==> #[trigger] tracker@[j] == fitted[j],
        decreases width - i,
    {
        let roll = rng.next_u64();
        tracker.spawn(i, t, cfg.speed, roll);
        i = i + 1;
    }
    let ghost spawned = tracker@;
    tracker.advance(t, height as u64, cfg.tail_lifespan_ms);
    assert(tracker@ =~= stepped(old(tracker)@, width as nat, seed, t, *cfg, height as nat)) by {
        assert forall|j: int| 0 <= j < width implies #[trigger] tracker@[j] == stepped(
            old(tracker)@,
            width as nat,
            seed,
            t,
            *cfg,
            height as nat,
        )[j] by {
            assert(spawned[j] == slot_after_spawn(fitted[j], t, cfg.speed, spawn_roll(seed, j)));
        }
    }
    compose(tracker, cfg, catalog, t, height)
}

/// Across a frame, a column whose drop is still visible keeps that same drop,
/// its head moved on: no second head ever starts over a live one.
pub proof fn lemma_frame_keeps_live_drop(
    slots: Seq<Option<RainDrop>>,
    width: nat,
    seed: u64,
    t: u64,
    cfg: RainConfig,
    height: nat,
    column: int,
)
    requires
        0 <= column < slots.len(),
        column < width,
        slots[column] matches Some(d) && !spent(d, t as int, height as int, cfg.tail_lifespan_ms as int),
    ensures
        stepped(slots, width, seed, t, cfg, height)[column] == Some(
            RainDrop {
                head_row: head_at(
                    slots[column]->Some_0.spawn_ms as int,
                    slots[column]->Some_0.ms_per_row as int,
                    t as int,
                ) as u64,
                ..slots[column]->Some_0
            },
        ),
{
}

/// A drop that starts at the instant of the frame lights the top row of its
/// column and nothing else.
pub proof fn lemma_new_drop_lights_top_row_only(d: RainDrop, row: int, life: int)
    requires
        d.wf(),
        row >= 0,
        life >= 0,
    ensures
        level_at(d, row, d.spawn_ms as int, life) > 0 <==> row == 0,
{
}

} // verus!
