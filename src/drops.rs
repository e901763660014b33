//! One falling trail in a column, and how brightly it lights each row.

use vstd::arithmetic::div_mod::{lemma_div_is_ordered, lemma_fundamental_div_mod};
use vstd::arithmetic::mul::lemma_mul_inequality;
use vstd::prelude::*;

verus! {

/// Row reached by the head of a drop spawned at `spawn` that falls one row
/// every `period` milliseconds, at time `t` (both in milliseconds).
pub open spec fn head_at(spawn: int, period: int, t: int) -> int {
    (t - spawn) / period
}

/// Milliseconds since `row` was first lit by the head.
pub open spec fn age_at(spawn: int, period: int, row: int, t: int) -> int {
    t - spawn - row * period
}

/// Denominator of every intensity for a given lifespan.
pub open spec fn scale(life: int) -> int {
    if life == 0 {
        1
    } else {
        life
    }
}

/// Trail brightness (over `scale(life)`) of a cell first lit `age` ms ago:
/// linear fade from full down to nothing at exactly `life`.
pub open spec fn decay_level(age: int, life: int) -> int {
    if age < life {
        life - age
    } else {
        0
    }
}

/// Brightness (over `scale(life)`) of `row` under drop `d` at time `t`.
pub open spec fn level_at(d: RainDrop, row: int, t: int, life: int) -> int {
    let head = head_at(d.spawn_ms as int, d.ms_per_row as int, t);
    if row > head {
        0
    } else if row == head {
        scale(life)
    } else {
        decay_level(age_at(d.spawn_ms as int, d.ms_per_row as int, row, t), life)
    }
}

/// A drop is spent at `t` once its head has left a grid of `height` rows and
/// the bottom row of that grid has faded out: nothing of it is left to draw.
pub open spec fn spent(d: RainDrop, t: int, height: int, life: int) -> bool {
    head_at(d.spawn_ms as int, d.ms_per_row as int, t) >= height && (height == 0 || age_at(
        d.spawn_ms as int,
        d.ms_per_row as int,
        height - 1,
        t,
    ) >= life)
}

/// The head never climbs back: for a fixed speed its row does not decrease
/// as time goes on.
pub proof fn lemma_head_never_rises(spawn: int, period: int, t1: int, t2: int)
    requires
        period > 0,
        spawn <= t1 <= t2,
    ensures
        head_at(spawn, period, t1) <= head_at(spawn, period, t2),
{
    lemma_div_is_ordered(t1 - spawn, t2 - spawn, period);
}

/// The head row is always at full intensity.
pub proof fn lemma_head_is_full(d: RainDrop, t: int, life: int)
    requires
        d.wf(),
        d.spawn_ms <= t,
        life >= 0,
    ensures
        level_at(d, head_at(d.spawn_ms as int, d.ms_per_row as int, t), t, life) == scale(life),
{
}

/// The fade is strictly decreasing in the age of a cell and reaches zero at
/// exactly the lifespan, where it stays.
pub proof fn lemma_fade_reaches_zero_at_lifespan(a1: int, a2: int, life: int)
    requires
        0 <= a1 < a2,
        life >= 0,
    ensures
        decay_level(life, life) == 0,
        a1 < life ==> decay_level(a1, life) > 0,
        a1 < life ==> decay_level(a1, life) > decay_level(a2, life),
        a1 >= life ==> decay_level(a1, life) == 0 && decay_level(a2, life) == 0,
{
}

/// Along one drop, a row further behind the head (lit longer ago) is never
/// brighter than one nearer to it, and is strictly dimmer while still lit.
pub proof fn lemma_trail_dims_with_distance(d: RainDrop, t: int, life: int, r1: int, r2: int)
    requires
        d.wf(),
        d.spawn_ms <= t,
        life >= 0,
        0 <= r1 < r2 <= head_at(d.spawn_ms as int, d.ms_per_row as int, t),
    ensures
        level_at(d, r1, t, life) <= level_at(d, r2, t, life),
        level_at(d, r1, t, life) > 0 ==> level_at(d, r1, t, life) < level_at(d, r2, t, life),
{
    let s = t - d.spawn_ms;
    let p = d.ms_per_row as int;
    let h = s / p;
    lemma_fundamental_div_mod(s, p);
    assert(h * p <= s) by (nonlinear_arith)
        requires
            s == p * (s / p) + s % p,
            h == s / p,
            s % p >= 0,
    {}
    assert(s - r1 * p >= p && s - r1 * p > s - r2 * p) by (nonlinear_arith)
        requires
            h * p <= s,
            r1 < r2,
            r2 <= h,
            p > 0,
    {}
}

/// With a lifespan of zero a live drop lights exactly one cell of the grid:
/// its head.
pub proof fn lemma_zero_lifespan_lights_head_only(d: RainDrop, t: int, height: int, row: int)
    requires
        d.wf(),
        d.spawn_ms <= t,
        !spent(d, t, height, 0),
        0 <= row < height,
    ensures
        0 <= head_at(d.spawn_ms as int, d.ms_per_row as int, t) < height,
        level_at(d, row, t, 0) > 0 <==> row == head_at(d.spawn_ms as int, d.ms_per_row as int, t),
{
    let s = t - d.spawn_ms;
    let p = d.ms_per_row as int;
    let h = s / p;
    lemma_fundamental_div_mod(s, p);
    assert(h * p <= s && h >= 0) by (nonlinear_arith)
        requires
            s == p * (s / p) + s % p,
            h == s / p,
            s % p >= 0,
            s >= 0,
            p > 0,
    {}
    if h >= height {
        assert(s - (height - 1) * p >= p) by (nonlinear_arith)
            requires
                h * p <= s,
                h >= height,
                p > 0,
        {}
    }
    if row < h {
        assert(s - row * p >= p) by (nonlinear_arith)
            requires
                h * p <= s,
                row < h,
                p > 0,
        {}
    }
}

/// A brightness in [0, 1], held as the fraction `num / den`.
#[derive(Clone, Copy, Debug, PartialEq, Eq)]
pub struct Intensity {
    pub num: u64,
    pub den: u64,
}

impl Intensity {
    pub open spec fn is_full(self) -> bool {
        self.num == self.den
    }

    pub open spec fn is_dark(self) -> bool {
        self.num == 0
    }

    pub fn full(&self) -> (r: bool)
        ensures
            r == self.is_full(),
    {
        self.num == self.den
    }

    pub fn dark(&self) -> (r: bool)
        ensures
            r == self.is_dark(),
    {
        self.num == 0
    }
}

/// One falling trail: when it started, how fast it falls and where its head is.
#[derive(Clone, Copy, Debug, PartialEq, Eq)]
pub struct RainDrop {
    pub spawn_ms: u64,
    pub ms_per_row: u64,
    pub head_row: u64,
}

impl RainDrop {
    pub open spec fn wf(self) -> bool {
        self.ms_per_row > 0
    }

    /// A fresh drop with its head on the top row.
    pub fn new(spawn_ms: u64, ms_per_row: u64) -> (r: RainDrop)
        requires
            ms_per_row > 0,
        ensures
            r.wf(),
            r == (RainDrop { spawn_ms, ms_per_row, head_row: 0 }),
    {
        RainDrop { spawn_ms, ms_per_row, head_row: 0 }
    }

    /// Row of the head at time `t`.
    pub fn head_row_at(&self, t: u64) -> (r: u64)
        requires
            self.wf(),
            self.spawn_ms <= t,
        ensures
            r == head_at(self.spawn_ms as int, self.ms_per_row as int, t as int),
    {
        (t - self.spawn_ms) / self.ms_per_row
    }

    /// How brightly this drop lights `row` at time `t`, for a trail that fades
    /// over `life` milliseconds.
    pub fn intensity(&self, row: u64, t: u64, life: u64) -> (r: Intensity)
        requires
            self.wf(),
            self.spawn_ms <= t,
        ensures
            r.den == scale(life as int),
            r.num == level_at(*self, row as int, t as int, life as int),
            r.num <= r.den,
    {
        let den: u64 = if life == 0 {
            1
        } else {
            life
        };
        let head = self.head_row_at(t);
        if row > head {
            Intensity { num: 0, den }
        } else if row == head {
            Intensity { num: den, den }
        } else {
            let since: u64 = t - self.spawn_ms;
            proof {
                lemma_fundamental_div_mod(since as int, self.ms_per_row as int);
                lemma_mul_inequality(row as int, head as int, self.ms_per_row as int);
                assert(head * self.ms_per_row <= since) by (nonlinear_arith)
                    requires
                        since == self.ms_per_row * (since / self.ms_per_row) + since % self.ms_per_row,
                        head == since / self.ms_per_row,
                        since % self.ms_per_row >= 0,
                {}
            }
            let age: u64 = since - row * self.ms_per_row;
            if age < life {
                Intensity { num: life - age, den }
            } else {
                Intensity { num: 0, den }
            }
        }
    }
}

} // verus!
