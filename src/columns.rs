//! Per-column drop bookkeeping: spawning gated on an empty column, advancing
//! heads with time and retiring drops once nothing of them is visible.

use crate::drops::{head_at, spent, RainDrop};
use vstd::prelude::*;

verus! {

/// Spawn rolls are read modulo this many.
pub const ROLL_RANGE: u64 = 1000;

/// How fast the rain falls.
#[derive(Clone, Copy, Debug, PartialEq, Eq)]
pub enum Speed {
    Slow,
    Fast,
}

pub open spec fn period_of(speed: Speed) -> u64 {
    match speed {
        Speed::Slow => 200,
        Speed::Fast => 50,
    }
}

pub open spec fn spawn_chance_of(speed: Speed) -> u64 {
    match speed {
        Speed::Slow => 20,
        Speed::Fast => 50,
    }
}

impl Speed {
    /// Milliseconds a head takes to fall one row.
    pub fn ms_per_row(&self) -> (r: u64)
        ensures
            r == period_of(*self),
            r > 0,
    {
        match self {
            Speed::Slow => 200,
            Speed::Fast => 50,
        }
    }

    /// Chance, out of `ROLL_RANGE`, that an empty column starts a drop on a
    /// given frame; the slower rain is the sparser one.
    pub fn spawn_chance(&self) -> (r: u64)
        ensures
            r == spawn_chance_of(*self),
            r < ROLL_RANGE,
    {
        match self {
            Speed::Slow => 20,
            Speed::Fast => 50,
        }
    }
}

/// A column may start a drop only while it holds none, and then only when the
/// roll falls under the speed's chance.
pub open spec fn spawn_allowed(slot: Option<RainDrop>, speed: Speed, roll: u64) -> bool {
    slot.is_none() && roll % ROLL_RANGE < spawn_chance_of(speed)
}

/// What a column holds after a spawn attempt at time `t`.
pub open spec fn slot_after_spawn(slot: Option<RainDrop>, t: u64, speed: Speed, roll: u64) -> Option<
    RainDrop,
> {
    if spawn_allowed(slot, speed, roll) {
        Some(RainDrop { spawn_ms: t, ms_per_row: period_of(speed), head_row: 0 })
    } else {
        slot
    }
}

/// What a column holds after advancing to time `t`.
pub open spec fn slot_after_advance(slot: Option<RainDrop>, t: int, height: int, life: int) -> Option<
    RainDrop,
> {
    match slot {
        None => None,
        Some(d) => if spent(d, t, height, life) {
            None
        } else {
            Some(
                RainDrop {
                    head_row: head_at(d.spawn_ms as int, d.ms_per_row as int, t) as u64,
                    ..d
                },
            )
        },
    }
}

/// No overlapping heads: a spawn attempt on a column that holds a drop leaves
/// that drop in place, so a column never holds more than one.
pub proof fn lemma_spawn_keeps_live_drop(slot: Option<RainDrop>, t: u64, speed: Speed, roll: u64)
    requires
        slot.is_some(),
    ensures
        slot_after_spawn(slot, t, speed, roll) == slot,
{
}

/// The drops of a grid, one slot per column.
pub struct ColumnTracker {
    pub slots: Vec<Option<RainDrop>>,
}

impl ColumnTracker {
    pub open spec fn view(&self) -> Seq<Option<RainDrop>> {
        self.slots@
    }

    pub open spec fn wf(&self) -> bool {
        forall|i: int| 0 <= i < self@.len() ==> (#[trigger] self@[i] matches Some(d) ==> d.wf())
    }

    /// Every drop started no later than `t`.
    pub open spec fn started_by(&self, t: int) -> bool {
        forall|i: int| 0 <= i < self@.len() ==> (#[trigger] self@[i] matches Some(d) ==> d.spawn_ms <= t)
    }

    /// Every drop has its head row at its position for time `t`.
    pub open spec fn advanced_to(&self, t: int) -> bool {
        forall|i: int|
            0 <= i < self@.len() ==> (#[trigger] self@[i] matches Some(d) ==> d.spawn_ms <= t
                && d.head_row == head_at(d.spawn_ms as int, d.ms_per_row as int, t))
    }

    /// A tracker for `width` columns, none of them holding a drop.
    pub fn new(width: usize) -> (r: ColumnTracker)
        ensures
            r.wf(),
            r@ == Seq::new(width as nat, |i: int| None::<RainDrop>),
    {
        let mut slots: Vec<Option<RainDrop>> = Vec::new();
        let mut i: usize = 0;
        while i < width
            invariant
                i <= width,
                slots@ == Seq::new(i as nat, |j: int| None::<RainDrop>),
            decreases width - i,
        {
            slots.push(None);
            i = i + 1;
        }
        ColumnTracker { slots }
    }

    pub fn width(&self) -> (r: usize)
        ensures
            r == self@.len(),
    {
        self.slots.len()
    }

    /// The drop that `column` holds, if any.
    pub fn drop_at(&self, column: usize) -> (r: Option<RainDrop>)
        requires
            column < self@.len(),
        ensures
            r == self@[column as int],
    {
        self.slots[column]
    }

    /// Fits the tracker to `width` columns: columns that remain keep their
    /// drop, new ones start empty.
    pub fn resize(&mut self, width: usize)
        requires
            old(self).wf(),
        ensures
            final(self).wf(),
            final(self)@.len() == width,
            forall|i: int|
                0 <= i < width ==> #[trigger] final(self)@[i] == if i < old(self)@.len() {
                    old(self)@[i]
                } else {
                    None
                },
    {
        if width <= self.slots.len() {
            self.slots.truncate(width);
        } else {
            while self.slots.len() < width
                invariant
                    self.slots@.len() <= width,
                    self.slots@.len() >= old(self)@.len(),
                    forall|i: int|
                        0 <= i < self.slots@.len() ==> #[trigger] self.slots@[i] == if i < old(
                            self,
                        )@.len() {
                            old(self)@[i]
                        } else {
                            None
                        },
                decreases width - self.slots@.len(),
            {
                self.slots.push(None);
            }
        }
    }

    /// Attempts to start a drop in `column` at time `t`; says whether one
    /// started.
    pub fn spawn(&mut self, column: usize, t: u64, speed: Speed, roll: u64) -> (r: bool)
        requires
            old(self).wf(),
            column < old(self)@.len(),
        ensures
            final(self).wf(),
            r == spawn_allowed(old(self)@[column as int], speed, roll),
            final(self)@ == old(self)@.update(
                column as int,
                slot_after_spawn(old(self)@[column as int], t, speed, roll),
            ),
    {
        let free = self.slots[column].is_none();
        if free && roll % ROLL_RANGE < speed.spawn_chance() {
            self.slots[column] = Some(RainDrop::new(t, speed.ms_per_row()));
            true
        } else {
            false
        }
    }

    /// Moves every head to its row at time `t` and retires the drops that
    /// are spent on a grid of `height` rows with trails fading over `life` ms.
    pub fn advance(&mut self, t: u64, height: u64, life: u64)
        requires
            old(self).wf(),
            old(self).started_by(t as int),
        ensures
            final(self).wf(),
            final(self).advanced_to(t as int),
            final(self)@.len() == old(self)@.len(),
            forall|i: int|
                0 <= i < old(self)@.len() ==> #[trigger] final(self)@[i] == slot_after_advance(
                    old(self)@[i],
                    t as int,
                    height as int,
                    life as int,
                ),
    {
        let n = self.slots.len();
        let mut i: usize = 0;
        while i < n
            invariant
                n == old(self)@.len(),
                self@.len() == n,
                i <= n,
                old(self).wf(),
                old(self).started_by(t as int),
                forall|j: int|
                    0 <= j < i ==> #[trigger] self@[j] == slot_after_advance(
                        old(self)@[j],
                        t as int,
                        height as int,
                        life as int,
                    ),
                forall|j: int| i <= j < n ==> #[trigger] self@[j] == old(self)@[j],
            decreases n - i,
        {
            let slot = self.slots[i];
            match slot {
                None => {},
                Some(d) => {
                    let head = d.head_row_at(t);
                    let gone = if head < height {
                        false
                    } else if height == 0 {
                        true
                    } else {
                        let low = d.intensity(height - 1, t, life);
                        low.dark()
                    };
                    if gone {
                        self.slots[i] = None;
                    } else {
                        self.slots[i] = Some(RainDrop { head_row: head, ..d });
                    }
                },
            }
            i = i + 1;
        }
    }
}

} // verus!
