//! Progress accounting. The unpack phase covers 0 to 50 percent; the other
//! half is shared evenly among the target libraries, and within one library
//! evenly among its steps.
use vstd::prelude::*;
use vstd::arithmetic::div_mod::{lemma_div_is_ordered, lemma_div_by_multiple};

verus! {

/// Steps that each target library goes through.
pub const STEPS_PER_TARGET: usize = 15;

/// Percentage reported once `done` of the `n * STEPS_PER_TARGET` library
/// steps are complete.
pub open spec fn library_percent_spec(n: nat, done: nat) -> int {
    (50 + (50 * done) / (n * STEPS_PER_TARGET as nat)) as int
}

/// Percentage reported once `done` of `total` executables were handled in
/// the unpack phase; with none to handle the phase is complete at once.
pub open spec fn unpack_percent_spec(done: nat, total: nat) -> int {
    if total == 0 {
        50
    } else {
        ((50 * done) / total) as int
    }
}

pub fn unpack_percent(done: usize, total: usize) -> (r: u32)
    requires
        done <= total,
    ensures
        r == unpack_percent_spec(done as nat, total as nat),
        r <= 50,
{
    if total == 0 {
        return 50;
    }
    proof {
        lemma_div_is_ordered(50 * done as int, 50 * total as int, total as int);
        lemma_div_by_multiple(50, total as int);
        assert(50 * done as int <= 50 * total as int) by (nonlinear_arith)
            requires done <= total;
        assert((50 * total as int) / (total as int) == 50) by (nonlinear_arith)
            requires total > 0, (50 * total as int) / (total as int) == 50;
    }
    let p = (50u128 * done as u128) / (total as u128);
    p as u32
}

/// Progress through the library steps of one run.
pub struct ProgressBudget {
    pub n_targets: usize,
    pub done: u128,
}

impl ProgressBudget {
    pub open spec fn total(&self) -> nat {
        self.n_targets as nat * STEPS_PER_TARGET as nat
    }

    pub open spec fn wf(&self) -> bool {
        self.n_targets > 0 && self.done <= self.total()
    }

    pub fn new(n_targets: usize) -> (r: ProgressBudget)
        requires
            n_targets > 0,
        ensures
            r.wf(),
            r.n_targets == n_targets,
            r.done == 0,
    {
        ProgressBudget { n_targets, done: 0 }
    }

    /// Percentage at the current point.
    pub fn percent(&self) -> (r: u32)
        requires
            self.wf(),
        ensures
            r == library_percent_spec(self.n_targets as nat, self.done as nat),
            50 <= r <= 100,
    {
        proof {
            lemma_library_percent_bounds(self.n_targets as nat, self.done as nat);
        }
        assert(self.n_targets as nat * 15 <= 0xffff_ffff_ffff_ffff_ffff * 15) by (nonlinear_arith)
            requires self.n_targets <= usize::MAX, usize::MAX <= 0xffff_ffff_ffff_ffff_ffff;
        let total: u128 = self.n_targets as u128 * 15;
        50 + ((50 * self.done) / total) as u32
    }

    /// Marks one library step done and returns the new percentage.
    pub fn advance(&mut self) -> (r: u32)
        requires
            old(self).wf(),
            old(self).done < old(self).total(),
        ensures
            final(self).wf(),
            final(self).n_targets == old(self).n_targets,
            final(self).done == old(self).done + 1,
            r == library_percent_spec(final(self).n_targets as nat, final(self).done as nat),
    {
        self.done = self.done + 1;
        self.percent()
    }
}

/// Library percentages stay within 50 and 100.
pub proof fn lemma_library_percent_bounds(n: nat, done: nat)
    requires
        n > 0,
        done <= n * STEPS_PER_TARGET as nat,
    ensures
        50 <= library_percent_spec(n, done) <= 100,
{
    let t = n * 15;
    assert(t > 0) by (nonlinear_arith)
        requires n > 0, t == n * 15;
    assert(50 * done <= 50 * t) by (nonlinear_arith)
        requires done <= t;
    lemma_div_is_ordered(50 * done as int, 50 * t as int, t as int);
    lemma_div_by_multiple(50, t as int);
    assert(0 <= (50 * done) / t) by (nonlinear_arith)
        requires t > 0;
}

/// Within one run the reported percentage never goes down, and it reaches
/// 100 when every step of every library is done.
pub proof fn lemma_library_percent_monotone(n: nat, d1: nat, d2: nat)
    requires
        n > 0,
        d1 <= d2,
    ensures
        library_percent_spec(n, d1) <= library_percent_spec(n, d2),
        library_percent_spec(n, n * STEPS_PER_TARGET as nat) == 100,
{
    let t = n * 15;
    assert(t > 0) by (nonlinear_arith)
        requires n > 0, t == n * 15;
    assert(50 * d1 <= 50 * d2) by (nonlinear_arith)
        requires d1 <= d2;
    lemma_div_is_ordered(50 * d1 as int, 50 * d2 as int, t as int);
    lemma_div_by_multiple(50, t as int);
}

/// The unpack phase's percentage never goes down as executables are handled,
/// and ends at 50.
pub proof fn lemma_unpack_percent_monotone(d1: nat, d2: nat, total: nat)
    requires
        d1 <= d2 <= total,
    ensures
        unpack_percent_spec(d1, total) <= unpack_percent_spec(d2, total),
        unpack_percent_spec(total, total) == 50,
{
    if total > 0 {
        assert(50 * d1 <= 50 * d2) by (nonlinear_arith)
            requires d1 <= d2;
        lemma_div_is_ordered(50 * d1 as int, 50 * d2 as int, total as int);
        lemma_div_by_multiple(50, total as int);
    }
}

} // verus!
