//! Time positions within one normalized period, and the grid of positions
//! that a run of `n` samples visits.

use vstd::prelude::*;

verus! {

/// A point of the normalized period `[0, 1)`: position `index` out of
/// `count` evenly spaced positions, standing for the rational
/// `index / count`.
///
/// The sampler only ever hands out well-formed positions, those with
/// `index < count`; see [`TimePos::wf`].
#[derive(Clone, Copy, Debug, PartialEq, Eq, Structural)]
pub struct TimePos {
    /// How many steps of `1 / count` lie between the start of the period and
    /// this position.
    pub index: usize,
    /// Into how many steps the period is cut.
    pub count: usize,
}

impl TimePos {
    /// The position lies on its grid: `index < count`, hence `count > 0`.
    pub open spec fn wf(self) -> bool {
        self.index < self.count
    }

    /// The real number that the position stands for.
    pub open spec fn value(self) -> real {
        self.index as real / self.count as real
    }

    /// A well-formed position lies in the half-open interval `[0, 1)`.
    pub proof fn lemma_value_in_period(self)
        requires
            self.wf(),
        ensures
            0real <= self.value() < 1real,
    {
        let i = self.index as real;
        let n = self.count as real;
        assert(0real <= i / n < 1real) by (nonlinear_arith)
            requires
                0real <= i < n,
        ;
    }
}

/// The positions that a run of `n` samples visits, in the order of the
/// visits: `0, 1/n, 2/n, ..., (n-1)/n`.
pub open spec fn grid(n: usize) -> Seq<TimePos> {
    Seq::new(n as nat, |i: int| TimePos { index: i as usize, count: n })
}

/// The grid of `n` samples has `n` positions, each well formed, and position
/// `i` stands for exactly `i / n`.
pub proof fn lemma_grid_positions(n: usize, i: int)
    requires
        0 <= i < n,
    ensures
        grid(n).len() == n,
        grid(n)[i].wf(),
        grid(n)[i].index == i,
        grid(n)[i].count == n,
        grid(n)[i].value() == i as real / n as real,
        0real <= grid(n)[i].value() < 1real,
{
    grid(n)[i].lemma_value_in_period();
}

/// The grid starts at the beginning of the period.
pub proof fn lemma_grid_starts_at_zero(n: usize)
    requires
        n > 0,
    ensures
        grid(n)[0].value() == 0real,
{
    let d = n as real;
    assert(0real / d == 0real) by (nonlinear_arith)
        requires
            d > 0real,
    ;
}

/// Neighbouring positions of the grid are one step of `1 / n` apart.
pub proof fn lemma_grid_step(n: usize, i: int)
    requires
        0 <= i,
        i + 1 < n,
    ensures
        grid(n)[i + 1].value() == grid(n)[i].value() + 1real / n as real,
{
    let a = i as real;
    let d = n as real;
    assert((a + 1real) / d == a / d + 1real / d) by (nonlinear_arith)
        requires
            d > 0real,
    ;
    assert((i + 1) as real == a + 1real);
}

/// Later positions of the grid stand for strictly later times.
pub proof fn lemma_grid_increasing(n: usize, i: int, j: int)
    requires
        0 <= i < j < n,
    ensures
        grid(n)[i].value() < grid(n)[j].value(),
{
    let a = i as real;
    let b = j as real;
    let d = n as real;
    assert(a / d < b / d) by (nonlinear_arith)
        requires
            a < b,
            d > 0real,
    ;
}

} // verus!
