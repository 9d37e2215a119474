//! Production processes, the mix planner and the convergence driver.
//!
//! Each process serves a fraction (`mix_share`, in millis: 1000 == 1.0) of
//! the demand for its output category. `calculate_mix` computes a target
//! distribution from scarcity-weighted costs; `update_mixes` moves actual
//! shares toward their targets by bounded steps and renormalizes each
//! category so its shares again sum to one.

use vstd::prelude::*;
use vstd::arithmetic::div_mod::{
    lemma_div_is_ordered, lemma_div_multiples_vanish, lemma_fundamental_div_mod,
};
use vstd::arithmetic::mul::lemma_mul_nonnegative;
use crate::kinds::{Output, OutputMap, ResourceMap, ByproductMap, Feedstock, FeedstockMap};

verus! {

/// Size of one ordinary convergence step, in millis of share.
pub const MIX_CHANGE_SPEED: u64 = 10;

/// A promoted process's target share is floored at this value.
pub const PROMOTED_TARGET: u64 = 500;

/// Smallest accelerated step a promoted process takes when expanding.
pub const PROMOTED_MIN_STEP: u64 = 50;

/// A process whose weighted scarcity cost reaches this bound is priced out.
pub const SCORE_CAP: i64 = 10_000_000;

/// Most processes one call may plan over; keeps all share sums in range.
pub const MAX_PROCESSES: usize = 100_000;

/// A qualitative tag carried by a process, used for feature-scoped effects
/// and for priority biases.
#[derive(Clone, Copy, PartialEq, Eq, Structural, Debug)]
pub enum ProcessFeature {
    BuildsSoil,
    DegradesSoil,
    UsesPesticides,
    UsesSynFertilizer,
    UsesLivestock,
    IsIntermittent,
    IsNuclear,
    IsSolar,
    IsCCS,
    IsCombustion,
}

/// Player policy applied to one process.
#[derive(Clone, Copy, PartialEq, Eq, Structural, Debug)]
pub enum ProcessStatus {
    Neutral,
    Banned,
    Promoted,
}

/// Last observed direction of a process's share, for observability only.
#[derive(Clone, Copy, PartialEq, Eq, Structural, Debug)]
pub enum ProcessChange {
    Neutral,
    Expanding,
    Contracting,
}

/// The planner's policy bias: either no bias, or a bias toward processes
/// carrying a given qualitative feature.
#[derive(Clone, Copy, PartialEq, Eq, Structural, Debug)]
pub enum Priority {
    Neutral,
    Feature(ProcessFeature),
}

/// One method of producing a fixed output category.
#[derive(Debug)]
pub struct Process {
    pub id: usize,
    pub name: String,
    /// Fraction of category demand served, in millis; sums to 1000 per category.
    pub mix_share: u64,
    pub output: Output,
    /// Multiplicative adjustment to effective output; baseline 1000 (== 1.0).
    pub output_modifier: i64,
    /// Per-unit-output resource intensities (non-negative).
    pub resources: ResourceMap,
    /// Per-unit-output byproduct intensities.
    pub byproducts: ByproductMap,
    /// The feedstock this process consumes and its per-unit intensity.
    pub feedstock: (Feedstock, i64),
    pub features: Vec<ProcessFeature>,
    /// Locked processes are invisible to the player and frozen by the driver.
    pub locked: bool,
    pub status: ProcessStatus,
    pub change: ProcessChange,
}

/// An ephemeral production order: how much one process must produce.
#[derive(Clone, Copy, PartialEq, Eq, Structural, Debug)]
pub struct ProductionOrder {
    pub process_id: usize,
    pub amount: i64,
}

pub open spec fn imin(a: int, b: int) -> int {
    if a < b {
        a
    } else {
        b
    }
}

pub open spec fn imax(a: int, b: int) -> int {
    if a < b {
        b
    } else {
        a
    }
}

impl Process {
    /// Shares stay within one whole unit and intensities are non-negative.
    pub open spec fn wf(&self) -> bool {
        &&& self.mix_share <= 1000
        &&& self.resources.nonneg()
        &&& self.feedstock.1 >= 0
    }

    pub open spec fn spec_has_feature(&self, f: ProcessFeature) -> bool {
        self.features@.contains(f)
    }

    /// Whether this process carries the given qualitative feature.
    pub fn has_feature(&self, f: ProcessFeature) -> (r: bool)
        ensures
            r == self.spec_has_feature(f),
    {
        let mut i: usize = 0;
        while i < self.features.len()
            invariant
                i <= self.features@.len(),
                forall|j: int| 0 <= j < i ==> self.features@[j] != f,
            decreases self.features@.len() - i,
        {
            if self.features[i] == f {
                proof {
                    assert(self.features@.contains(f));
                }
                return true;
            }
            i = i + 1;
        }
        false
    }

    pub fn is_banned(&self) -> (r: bool)
        ensures
            r == (self.status == ProcessStatus::Banned),
    {
        self.status == ProcessStatus::Banned
    }

    pub fn is_promoted(&self) -> (r: bool)
        ensures
            r == (self.status == ProcessStatus::Promoted),
    {
        self.status == ProcessStatus::Promoted
    }

    /// The production order for this process under the given demand:
    /// `amount = demand[output] * mix_share`, in millis.
    pub fn production_order(&self, demand: &OutputMap) -> (r: ProductionOrder)
        requires
            self.wf(),
        ensures
            r.process_id == self.id,
            r.amount as int == crate::num::mul_div_amt(
                demand.spec_get(self.output) as int,
                self.mix_share as int,
                1000,
            ),
    {
        let share: i64 = self.mix_share as i64;
        ProductionOrder {
            process_id: self.id,
            amount: crate::num::amt_mul_div(demand.get(self.output), share, 1000),
        }
    }
}

/// One scarcity-cost term: `intensity * weight / 1000`, capped at `SCORE_CAP`.
pub open spec fn spec_cost_term(a: int, w: int) -> int {
    imin((a * w) / 1000, SCORE_CAP as int)
}

/// The weighted scarcity cost of a process: resource intensities times
/// resource weights, plus its feedstock intensity times that feedstock's
/// weight, each term capped.
pub open spec fn spec_cost(p: Process, rw: ResourceMap, fw: FeedstockMap) -> int {
    spec_cost_term(p.resources.land as int, rw.land as int)
        + spec_cost_term(p.resources.water as int, rw.water as int)
        + spec_cost_term(p.resources.fuel as int, rw.fuel as int)
        + spec_cost_term(p.resources.electricity as int, rw.electricity as int)
        + spec_cost_term(p.feedstock.1 as int, fw.spec_get(p.feedstock.0) as int)
}

/// The planner's raw preference for a process: zero when banned, priced out,
/// or its output is not demanded; otherwise how far its cost sits below the cap.
pub open spec fn spec_base_score(
    p: Process,
    demand: OutputMap,
    rw: ResourceMap,
    fw: FeedstockMap,
) -> int {
    if p.status == ProcessStatus::Banned || demand.spec_get(p.output) <= 0 {
        0
    } else if spec_cost(p, rw, fw) >= SCORE_CAP as int {
        0
    } else {
        SCORE_CAP as int - spec_cost(p, rw, fw)
    }
}

/// The preference after the priority bias: doubled for processes carrying
/// the prioritized feature.
pub open spec fn spec_score(
    p: Process,
    demand: OutputMap,
    rw: ResourceMap,
    fw: FeedstockMap,
    pr: Priority,
) -> int {
    spec_base_score(p, demand, rw, fw) * (match pr {
        Priority::Neutral => 1int,
        Priority::Feature(f) => if p.spec_has_feature(f) {
            2int
        } else {
            1int
        },
    })
}

/// Sum of scores of the first `n` processes whose output is `o`.
pub open spec fn cat_score_total(
    s: Seq<Process>,
    o: Output,
    demand: OutputMap,
    rw: ResourceMap,
    fw: FeedstockMap,
    pr: Priority,
    n: int,
) -> int
    decreases n,
{
    if n <= 0 {
        0
    } else {
        cat_score_total(s, o, demand, rw, fw, pr, n - 1) + if s[n - 1].output == o {
            spec_score(s[n - 1], demand, rw, fw, pr)
        } else {
            0
        }
    }
}

/// The planner's target share for process `i`: its score's fraction of its
/// category's score total, in millis; zero when the category has no score.
pub open spec fn spec_target(
    s: Seq<Process>,
    i: int,
    demand: OutputMap,
    rw: ResourceMap,
    fw: FeedstockMap,
    pr: Priority,
) -> int {
    let t = cat_score_total(s, s[i].output, demand, rw, fw, pr, s.len() as int);
    if t > 0 {
        (spec_score(s[i], demand, rw, fw, pr) * 1000) / t
    } else {
        0
    }
}

/// The effective target: a promoted process's target is floored at
/// `PROMOTED_TARGET` regardless of the planner's output.
pub open spec fn spec_eff_target(p: Process, target: int) -> int {
    if p.status == ProcessStatus::Promoted {
        imax(PROMOTED_TARGET as int, target)
    } else {
        target
    }
}

/// One bounded convergence step of an unlocked process toward `target`:
/// a fixed small step, accelerated when promoted (expanding) or banned
/// (contracting), floored at zero, with the direction recorded in `change`.
pub open spec fn spec_step(p: Process, target: int) -> Process
    recommends
        p.wf(),
        0 <= target <= 1000,
{
    let et = spec_eff_target(p, target);
    if (p.mix_share as int) < et {
        let step = if p.status == ProcessStatus::Promoted {
            imax((p.mix_share as int) / 10, PROMOTED_MIN_STEP as int)
        } else {
            MIX_CHANGE_SPEED as int
        };
        Process {
            mix_share: (p.mix_share as int + step) as u64,
            change: ProcessChange::Expanding,
            ..p
        }
    } else if (p.mix_share as int) > et {
        let step = if p.status == ProcessStatus::Banned {
            (p.mix_share as int) / 10
        } else {
            MIX_CHANGE_SPEED as int
        };
        let ns = if step <= p.mix_share as int {
            p.mix_share as int - step
        } else {
            0
        };
        Process { mix_share: ns as u64, change: ProcessChange::Contracting, ..p }
    } else {
        Process { change: ProcessChange::Neutral, ..p }
    }
}

/// All processes after the driver pass: locked ones frozen, unlocked ones
/// stepped toward their effective targets.
pub open spec fn spec_stepped(
    s: Seq<Process>,
    demand: OutputMap,
    rw: ResourceMap,
    fw: FeedstockMap,
    pr: Priority,
) -> Seq<Process> {
    Seq::new(
        s.len(),
        |i: int|
            if s[i].locked {
                s[i]
            } else {
                spec_step(s[i], spec_target(s, i, demand, rw, fw, pr))
            },
    )
}

/// Sum of the shares of the first `n` processes whose output is `o`.
pub open spec fn cat_prefix(s: Seq<Process>, o: Output, n: int) -> int
    decreases n,
{
    if n <= 0 {
        0
    } else {
        cat_prefix(s, o, n - 1) + if s[n - 1].output == o {
            s[n - 1].mix_share as int
        } else {
            0
        }
    }
}

/// Total share of output category `o`.
pub open spec fn cat_share_total(s: Seq<Process>, o: Output) -> int {
    cat_prefix(s, o, s.len() as int)
}

/// The renormalized share of process `i`: the difference of consecutive
/// cumulative quotients, so that each category's shares sum to exactly 1000.
/// A category whose total is zero is left untouched.
pub open spec fn renorm_share(s: Seq<Process>, i: int) -> int {
    let o = s[i].output;
    let t = cat_share_total(s, o);
    if t > 0 {
        (cat_prefix(s, o, i + 1) * 1000) / t - (cat_prefix(s, o, i) * 1000) / t
    } else {
        s[i].mix_share as int
    }
}

/// All processes after renormalization.
pub open spec fn spec_renorm(s: Seq<Process>) -> Seq<Process> {
    Seq::new(s.len(), |i: int| Process { mix_share: renorm_share(s, i) as u64, ..s[i] })
}

/// The full effect of one `update_mixes` call.
pub open spec fn spec_update_mixes(
    s: Seq<Process>,
    demand: OutputMap,
    rw: ResourceMap,
    fw: FeedstockMap,
    pr: Priority,
) -> Seq<Process> {
    spec_renorm(spec_stepped(s, demand, rw, fw, pr))
}

/// One capped scarcity-cost term.
fn cost_term(a: i64, w: i64) -> (r: i64)
    requires
        a >= 0,
        w >= 0,
    ensures
        r as int == spec_cost_term(a as int, w as int),
        0 <= r <= SCORE_CAP,
{
    proof {
        lemma_mul_nonnegative(a as int, w as int);
        crate::num::lemma_mag_mul_bound(a as u128, w as u128);
    }
    let q: u128 = ((a as u128) * (w as u128)) / 1000;
    if q >= SCORE_CAP as u128 {
        SCORE_CAP
    } else {
        q as i64
    }
}

/// The weighted scarcity cost of a process.
fn cost_of(p: &Process, rw: &ResourceMap, fw: &FeedstockMap) -> (c: i64)
    requires
        p.wf(),
        rw.nonneg(),
        fw.nonneg(),
    ensures
        c as int == spec_cost(*p, *rw, *fw),
        0 <= c <= 5 * SCORE_CAP,
{
    let c1 = cost_term(p.resources.land, rw.land);
    let c2 = cost_term(p.resources.water, rw.water);
    let c3 = cost_term(p.resources.fuel, rw.fuel);
    let c4 = cost_term(p.resources.electricity, rw.electricity);
    let c5 = cost_term(p.feedstock.1, fw.get(p.feedstock.0));
    c1 + c2 + c3 + c4 + c5
}

/// The planner's biased preference for one process.
fn score_of(
    p: &Process,
    demand: &OutputMap,
    rw: &ResourceMap,
    fw: &FeedstockMap,
    pr: &Priority,
) -> (r: i64)
    requires
        p.wf(),
        rw.nonneg(),
        fw.nonneg(),
    ensures
        r as int == spec_score(*p, *demand, *rw, *fw, *pr),
        0 <= r <= 2 * SCORE_CAP,
{
    let base: i64 = if p.is_banned() || demand.get(p.output) <= 0 {
        0
    } else {
        let c = cost_of(p, rw, fw);
        if c >= SCORE_CAP {
            0
        } else {
            SCORE_CAP - c
        }
    };
    let doubled: bool = match pr {
        Priority::Neutral => false,
        Priority::Feature(f) => p.has_feature(*f),
    };
    if doubled {
        base * 2
    } else {
        base
    }
}

/// A member's score never exceeds its category's score total.
proof fn lemma_score_member_le_total(
    s: Seq<Process>,
    o: Output,
    demand: OutputMap,
    rw: ResourceMap,
    fw: FeedstockMap,
    pr: Priority,
    i: int,
    n: int,
)
    requires
        0 <= i < n <= s.len(),
        s[i].output == o,
        forall|j: int| 0 <= j < s.len() ==> #[trigger] spec_score(s[j], demand, rw, fw, pr)
            >= 0,
    ensures
        spec_score(s[i], demand, rw, fw, pr) <= cat_score_total(s, o, demand, rw, fw, pr, n),
    decreases n,
{
    if n - 1 > i {
        lemma_score_member_le_total(s, o, demand, rw, fw, pr, i, n - 1);
    } else {
        lemma_cat_score_total_bounds_nonneg(s, o, demand, rw, fw, pr, n - 1);
    }
}

/// Score totals are non-negative.
proof fn lemma_cat_score_total_bounds_nonneg(
    s: Seq<Process>,
    o: Output,
    demand: OutputMap,
    rw: ResourceMap,
    fw: FeedstockMap,
    pr: Priority,
    n: int,
)
    requires
        0 <= n <= s.len(),
        forall|j: int| 0 <= j < s.len() ==> #[trigger] spec_score(s[j], demand, rw, fw, pr)
            >= 0,
    ensures
        cat_score_total(s, o, demand, rw, fw, pr, n) >= 0,
    decreases n,
{
    if n > 0 {
        lemma_cat_score_total_bounds_nonneg(s, o, demand, rw, fw, pr, n - 1);
    }
}

/// Every planner target lies in `[0, 1000]`.
pub proof fn lemma_target_in_range(
    s: Seq<Process>,
    i: int,
    demand: OutputMap,
    rw: ResourceMap,
    fw: FeedstockMap,
    pr: Priority,
)
    requires
        0 <= i < s.len(),
        forall|j: int| 0 <= j < s.len() ==> #[trigger] spec_score(s[j], demand, rw, fw, pr)
            >= 0,
    ensures
        0 <= spec_target(s, i, demand, rw, fw, pr) <= 1000,
{
    let o = s[i].output;
    let t = cat_score_total(s, o, demand, rw, fw, pr, s.len() as int);
    if t > 0 {
        let sc = spec_score(s[i], demand, rw, fw, pr);
        lemma_score_member_le_total(s, o, demand, rw, fw, pr, i, s.len() as int);
        lemma_mul_nonnegative(sc, 1000);
        lemma_div_is_ordered(sc * 1000, t * 1000, t);
        lemma_div_multiples_vanish(1000, t);
        assert(t * 1000 == 1000 * t);
        lemma_div_is_ordered(0, sc * 1000, t);
    }
}

/// Compute the planner's target mix: one target share (in millis) per
/// process, proportional to its score within its output category.
pub fn calculate_mix(
    processes: &Vec<Process>,
    demand: &OutputMap,
    resource_weights: &ResourceMap,
    feedstock_weights: &FeedstockMap,
    priority: &Priority,
) -> (targets: Vec<u64>)
    requires
        processes@.len() <= MAX_PROCESSES,
        forall|i: int| 0 <= i < processes@.len() ==> (#[trigger] processes@[i]).wf(),
        resource_weights.nonneg(),
        feedstock_weights.nonneg(),
    ensures
        targets@.len() == processes@.len(),
        forall|i: int| 0 <= i < processes@.len() ==> #[trigger] targets@[i] as int
            == spec_target(processes@, i, *demand, *resource_weights, *feedstock_weights, *priority),
        forall|i: int| 0 <= i < processes@.len() ==> #[trigger] targets@[i] <= 1000,
{
    let ghost s = processes@;
    let ghost dem = *demand;
    let ghost rw = *resource_weights;
    let ghost fw = *feedstock_weights;
    let ghost pr = *priority;

    let mut totals = OutputMap::new();
    let mut i: usize = 0;
    while i < processes.len()
        invariant
            i <= s.len(),
            s.len() <= MAX_PROCESSES,
            processes@ == s,
            dem == *demand,
            rw == *resource_weights,
            fw == *feedstock_weights,
            pr == *priority,
            forall|j: int| 0 <= j < s.len() ==> (#[trigger] s[j]).wf(),
            resource_weights.nonneg(),
            feedstock_weights.nonneg(),
            forall|o: Output| #[trigger] totals.spec_get(o) as int
                == cat_score_total(s, o, dem, rw, fw, pr, i as int),
            forall|o: Output| 0 <= #[trigger] totals.spec_get(o) as int
                <= (i as int) * 20_000_000,
        decreases s.len() - i,
    {
        let p = &processes[i];
        let sc = score_of(p, demand, resource_weights, feedstock_weights, priority);
        let t0 = totals.get(p.output);
        let ghost tot0 = totals;
        totals.set(p.output, t0 + sc);
        proof {
            assert forall|o: Output| #[trigger] totals.spec_get(o) as int
                == cat_score_total(s, o, dem, rw, fw, pr, i as int + 1) by {
                assert(cat_score_total(s, o, dem, rw, fw, pr, i as int + 1)
                    == cat_score_total(s, o, dem, rw, fw, pr, i as int) + (
                if s[i as int].output == o {
                    spec_score(s[i as int], dem, rw, fw, pr)
                } else {
                    0
                }));
                if o != s[i as int].output {
                    assert(totals.spec_get(o) == tot0.spec_get(o));
                }
            }
            assert((i as int) * 20_000_000 + 20_000_000 == (i as int + 1) * 20_000_000)
                by (nonlinear_arith);
            assert forall|o: Output| 0 <= #[trigger] totals.spec_get(o) as int
                <= (i as int + 1) * 20_000_000 by {
                if o != s[i as int].output {
                    assert(totals.spec_get(o) == tot0.spec_get(o));
                    assert(tot0.spec_get(o) as int <= (i as int) * 20_000_000);
                }
            }
        }
        i = i + 1;
    }

    proof {
        assert(forall|j: int| 0 <= j < s.len() ==> #[trigger] spec_score(s[j], dem, rw, fw, pr)
            >= 0) by {
            assert forall|j: int| 0 <= j < s.len() implies #[trigger] spec_score(
                s[j],
                dem,
                rw,
                fw,
                pr,
            ) >= 0 by {
                lemma_score_nonneg(s[j], dem, rw, fw, pr);
            }
        }
    }

    let mut targets: Vec<u64> = Vec::new();
    let mut k: usize = 0;
    while k < processes.len()
        invariant
            k <= s.len(),
            s.len() <= MAX_PROCESSES,
            processes@ == s,
            dem == *demand,
            rw == *resource_weights,
            fw == *feedstock_weights,
            pr == *priority,
            forall|j: int| 0 <= j < s.len() ==> (#[trigger] s[j]).wf(),
            resource_weights.nonneg(),
            feedstock_weights.nonneg(),
            forall|j: int| 0 <= j < s.len() ==> #[trigger] spec_score(s[j], dem, rw, fw, pr) >= 0,
            forall|o: Output| #[trigger] totals.spec_get(o) as int
                == cat_score_total(s, o, dem, rw, fw, pr, s.len() as int),
            targets@.len() == k,
            forall|j: int| 0 <= j < k ==> #[trigger] targets@[j] as int
                == spec_target(s, j, dem, rw, fw, pr),
            forall|j: int| 0 <= j < k ==> #[trigger] targets@[j] <= 1000,
        decreases s.len() - k,
    {
        let p = &processes[k];
        let sc = score_of(p, demand, resource_weights, feedstock_weights, priority);
        let t = totals.get(p.output);
        let tg: u64 = if t > 0 {
            proof {
                lemma_target_in_range(s, k as int, dem, rw, fw, pr);
                lemma_score_member_le_total(s, p.output, dem, rw, fw, pr, k as int, s.len() as int);
            }
            ((sc as u64) * 1000) / (t as u64)
        } else {
            0
        };
        targets.push(tg);
        k = k + 1;
    }
    targets
}

/// Share prefixes are monotone in the prefix length.
proof fn lemma_cat_prefix_monotone(s: Seq<Process>, o: Output, m: int, n: int)
    requires
        0 <= m <= n <= s.len(),
    ensures
        cat_prefix(s, o, m) <= cat_prefix(s, o, n),
    decreases n,
{
    if n > m {
        lemma_cat_prefix_monotone(s, o, m, n - 1);
    }
}

/// Share prefixes are non-negative.
proof fn lemma_cat_prefix_nonneg(s: Seq<Process>, o: Output, n: int)
    requires
        0 <= n <= s.len(),
    ensures
        cat_prefix(s, o, n) >= 0,
{
    lemma_cat_prefix_monotone(s, o, 0, n);
}

/// A member's share never exceeds its category's share total.
proof fn lemma_cat_member_le_total(s: Seq<Process>, i: int)
    requires
        0 <= i < s.len(),
    ensures
        s[i].mix_share as int <= cat_share_total(s, s[i].output),
{
    let o = s[i].output;
    lemma_cat_prefix_nonneg(s, o, i);
    assert(cat_prefix(s, o, i + 1) == cat_prefix(s, o, i) + s[i].mix_share as int);
    lemma_cat_prefix_monotone(s, o, i + 1, s.len() as int);
}

/// Share prefixes grow by at most `b` per element when every share is at
/// most `b`.
proof fn lemma_cat_prefix_bound(s: Seq<Process>, o: Output, n: int, b: int)
    requires
        0 <= n <= s.len(),
        b >= 0,
        forall|j: int| 0 <= j < s.len() ==> (#[trigger] s[j].mix_share) as int <= b,
    ensures
        cat_prefix(s, o, n) <= n * b,
    decreases n,
{
    if n > 0 {
        lemma_cat_prefix_bound(s, o, n - 1, b);
        assert((n - 1) * b + b == n * b) by (nonlinear_arith);
    }
}

/// The renormalized share of any process is non-negative; in a category
/// with positive total it is at most 1000, and in a category with zero
/// total it is the untouched share.
pub proof fn lemma_renorm_share_bounds(s: Seq<Process>, i: int)
    requires
        0 <= i < s.len(),
    ensures
        0 <= renorm_share(s, i),
        cat_share_total(s, s[i].output) > 0 ==> renorm_share(s, i) <= 1000,
        cat_share_total(s, s[i].output) <= 0 ==> renorm_share(s, i) == s[i].mix_share as int,
{
    let o = s[i].output;
    let t = cat_share_total(s, o);
    if t > 0 {
        let pa = cat_prefix(s, o, i);
        let pb = cat_prefix(s, o, i + 1);
        lemma_cat_prefix_nonneg(s, o, i);
        assert(pb == pa + s[i].mix_share as int);
        lemma_cat_prefix_monotone(s, o, i + 1, s.len() as int);
        lemma_div_is_ordered(pa * 1000, pb * 1000, t);
        lemma_div_is_ordered(0, pa * 1000, t);
        assert(0int / t == 0) by {
            lemma_div_multiples_vanish(0, t);
        }
        lemma_div_is_ordered(pb * 1000, t * 1000, t);
        assert((t * 1000) / t == 1000) by {
            lemma_div_multiples_vanish(1000, t);
        }
    }
}

/// The prefix sums of a renormalized category are the cumulative quotients
/// of the unrenormalized prefix sums.
proof fn lemma_renorm_prefix(s: Seq<Process>, o: Output, n: int)
    requires
        0 <= n <= s.len(),
        cat_share_total(s, o) > 0,
    ensures
        cat_prefix(spec_renorm(s), o, n) == (cat_prefix(s, o, n) * 1000) / cat_share_total(s, o),
    decreases n,
{
    let t = cat_share_total(s, o);
    if n == 0 {
        assert(0int / t == 0) by {
            lemma_div_multiples_vanish(0, t);
        }
    } else {
        lemma_renorm_prefix(s, o, n - 1);
        if s[n - 1].output == o {
            lemma_renorm_share_bounds(s, n - 1);
            assert(spec_renorm(s)[n - 1].mix_share as int == renorm_share(s, n - 1));
        }
    }
}

/// Law (mix normalization): after renormalization, every output category
/// whose shares had a positive total sums to exactly one (1000 millis).
pub proof fn lemma_renorm_normalizes(s: Seq<Process>, o: Output)
    requires
        cat_share_total(s, o) > 0,
    ensures
        cat_share_total(spec_renorm(s), o) == 1000,
{
    lemma_renorm_prefix(s, o, s.len() as int);
    let t = cat_share_total(s, o);
    assert((t * 1000) / t == 1000) by {
        lemma_div_multiples_vanish(1000, t);
    }
}

/// Law (mix normalization, full pipeline): after `update_mixes`, every
/// output category whose stepped shares had a positive total sums to
/// exactly one. A category driven entirely to zero is left untouched.
pub proof fn lemma_update_mixes_normalized(
    s: Seq<Process>,
    demand: OutputMap,
    rw: ResourceMap,
    fw: FeedstockMap,
    pr: Priority,
    o: Output,
)
    requires
        cat_share_total(spec_stepped(s, demand, rw, fw, pr), o) > 0,
    ensures
        cat_share_total(spec_update_mixes(s, demand, rw, fw, pr), o) == 1000,
{
    lemma_renorm_normalizes(spec_stepped(s, demand, rw, fw, pr), o);
}

/// Law (non-negativity): every share produced by `update_mixes` is
/// non-negative: it is exactly the renormalized share, which never goes
/// below zero (the driver floors contracted shares at zero first).
pub proof fn lemma_update_mixes_nonneg(
    s: Seq<Process>,
    demand: OutputMap,
    rw: ResourceMap,
    fw: FeedstockMap,
    pr: Priority,
    i: int,
)
    requires
        0 <= i < s.len(),
    ensures
        renorm_share(spec_stepped(s, demand, rw, fw, pr), i) >= 0,
        spec_update_mixes(s, demand, rw, fw, pr)[i].mix_share as int == renorm_share(
            spec_stepped(s, demand, rw, fw, pr),
            i,
        ),
{
    let st = spec_stepped(s, demand, rw, fw, pr);
    lemma_renorm_share_bounds(st, i);
    lemma_cat_member_le_total(st, i);
}

/// Law (locked processes are frozen): the driver pass leaves a locked
/// process entirely untouched; renormalization then only rescales its
/// share alongside its category, and leaves even that alone when the
/// category total is zero.
pub proof fn lemma_locked_frozen(
    s: Seq<Process>,
    demand: OutputMap,
    rw: ResourceMap,
    fw: FeedstockMap,
    pr: Priority,
    i: int,
)
    requires
        0 <= i < s.len(),
        s[i].locked,
    ensures
        spec_stepped(s, demand, rw, fw, pr)[i] == s[i],
        spec_update_mixes(s, demand, rw, fw, pr)[i] == (Process {
            mix_share: renorm_share(spec_stepped(s, demand, rw, fw, pr), i) as u64,
            ..s[i]
        }),
        cat_share_total(spec_stepped(s, demand, rw, fw, pr), s[i].output) <= 0
            ==> spec_update_mixes(s, demand, rw, fw, pr)[i].mix_share == s[i].mix_share,
{
    let st = spec_stepped(s, demand, rw, fw, pr);
    lemma_renorm_share_bounds(st, i);
}

/// A stepped share never exceeds 1100 millis when the inputs are
/// well-formed.
proof fn lemma_stepped_share_bound(
    s: Seq<Process>,
    demand: OutputMap,
    rw: ResourceMap,
    fw: FeedstockMap,
    pr: Priority,
    j: int,
)
    requires
        0 <= j < s.len(),
        forall|i: int| 0 <= i < s.len() ==> (#[trigger] s[i]).wf(),
    ensures
        spec_stepped(s, demand, rw, fw, pr)[j].mix_share <= 1100,
{
    if !s[j].locked {
        assert forall|i: int| 0 <= i < s.len() implies #[trigger] spec_score(
            s[i],
            demand,
            rw,
            fw,
            pr,
        ) >= 0 by {
            lemma_score_nonneg(s[i], demand, rw, fw, pr);
        }
        lemma_target_in_range(s, j, demand, rw, fw, pr);
    }
}

/// Update the process mix in place: compute the planner's targets, move
/// each unlocked process's share one bounded step toward its effective
/// target (recording the direction in `change`), floor shares at zero, and
/// renormalize every output category with a positive share total so its
/// shares sum to exactly one.
pub fn update_mixes(
    processes: &mut Vec<Process>,
    demand: &OutputMap,
    resource_weights: &ResourceMap,
    feedstock_weights: &FeedstockMap,
    priority: &Priority,
)
    requires
        old(processes)@.len() <= MAX_PROCESSES,
        forall|i: int| 0 <= i < old(processes)@.len() ==> (#[trigger] old(processes)@[i]).wf(),
        resource_weights.nonneg(),
        feedstock_weights.nonneg(),
    ensures
        final(processes)@.len() == old(processes)@.len(),
        final(processes)@ == spec_update_mixes(
            old(processes)@,
            *demand,
            *resource_weights,
            *feedstock_weights,
            *priority,
        ),
        forall|i: int| 0 <= i < final(processes)@.len() ==> (#[trigger] final(processes)@[i]).wf(),
{
    let ghost s = processes@;
    let ghost dem = *demand;
    let ghost rw = *resource_weights;
    let ghost fw = *feedstock_weights;
    let ghost pr = *priority;

    let targets = calculate_mix(processes, demand, resource_weights, feedstock_weights, priority);
    let n = processes.len();

    // Driver pass: one bounded step per unlocked process.
    let mut i: usize = 0;
    while i < n
        invariant
            i <= n,
            n == s.len(),
            s.len() <= MAX_PROCESSES,
            targets@.len() == s.len(),
            forall|j: int| 0 <= j < s.len() ==> #[trigger] targets@[j] as int == spec_target(
                s,
                j,
                dem,
                rw,
                fw,
                pr,
            ),
            forall|j: int| 0 <= j < s.len() ==> #[trigger] targets@[j] <= 1000,
            forall|j: int| 0 <= j < s.len() ==> (#[trigger] s[j]).wf(),
            processes@.len() == s.len(),
            forall|j: int| 0 <= j < i ==> #[trigger] processes@[j] == spec_stepped(
                s,
                dem,
                rw,
                fw,
                pr,
            )[j],
            forall|j: int| i <= j < s.len() ==> #[trigger] processes@[j] == s[j],
        decreases n - i,
    {
        let tg: u64 = targets[i];
        if !processes[i].locked {
            let promoted = processes[i].is_promoted();
            let banned = processes[i].is_banned();
            let share: u64 = processes[i].mix_share;
            let et: u64 = if promoted && tg < PROMOTED_TARGET {
                PROMOTED_TARGET
            } else {
                tg
            };
            if share < et {
                let s10 = share / 10;
                let step = if promoted {
                    if s10 < PROMOTED_MIN_STEP {
                        PROMOTED_MIN_STEP
                    } else {
                        s10
                    }
                } else {
                    MIX_CHANGE_SPEED
                };
                let p = &mut processes[i];
                p.mix_share = share + step;
                p.change = ProcessChange::Expanding;
            } else if share > et {
                let step = if banned {
                    share / 10
                } else {
                    MIX_CHANGE_SPEED
                };
                let ns = if step <= share {
                    share - step
                } else {
                    0
                };
                let p = &mut processes[i];
                p.mix_share = ns;
                p.change = ProcessChange::Contracting;
            } else {
                let p = &mut processes[i];
                p.change = ProcessChange::Neutral;
            }
        }
        proof {
            assert(processes@[i as int] == spec_stepped(s, dem, rw, fw, pr)[i as int]);
        }
        i = i + 1;
    }
    proof {
        assert(processes@ =~= spec_stepped(s, dem, rw, fw, pr));
        assert forall|j: int| 0 <= j < s.len() implies (#[trigger] processes@[j]).mix_share
            <= 1100 by {
            lemma_stepped_share_bound(s, dem, rw, fw, pr, j);
        }
    }
    let ghost st = processes@;

    // Share totals per category, over the stepped shares.
    let mut totals = OutputMap::new();
    let mut k: usize = 0;
    while k < n
        invariant
            k <= n,
            n == st.len(),
            st.len() <= MAX_PROCESSES,
            processes@ == st,
            forall|j: int| 0 <= j < st.len() ==> (#[trigger] st[j]).mix_share <= 1100,
            forall|o: Output| #[trigger] totals.spec_get(o) as int == cat_prefix(st, o, k as int),
            forall|o: Output| 0 <= #[trigger] totals.spec_get(o) as int <= (k as int) * 1100,
        decreases n - k,
    {
        let sh: u64 = processes[k].mix_share;
        let o = processes[k].output;
        let t0 = totals.get(o);
        let ghost tot0 = totals;
        totals.set(o, t0 + sh as i64);
        proof {
            assert((k as int) * 1100 + 1100 == (k as int + 1) * 1100) by (nonlinear_arith);
            assert forall|ox: Output| #[trigger] totals.spec_get(ox) as int == cat_prefix(
                st,
                ox,
                k as int + 1,
            ) && 0 <= totals.spec_get(ox) as int <= (k as int + 1) * 1100 by {
                assert(cat_prefix(st, ox, k as int + 1) == cat_prefix(st, ox, k as int) + (
                if st[k as int].output == ox {
                    st[k as int].mix_share as int
                } else {
                    0
                }));
                if ox != st[k as int].output {
                    assert(totals.spec_get(ox) == tot0.spec_get(ox));
                }
            }
        }
        k = k + 1;
    }

    // Renormalization pass: cumulative-quotient differencing per category.
    let mut pfx = OutputMap::new();
    let mut pdv = OutputMap::new();
    let mut m: usize = 0;
    while m < n
        invariant
            m <= n,
            n == st.len(),
            st.len() <= MAX_PROCESSES,
            processes@.len() == st.len(),
            forall|j: int| 0 <= j < st.len() ==> (#[trigger] st[j]).mix_share <= 1100,
            forall|j: int| m <= j < st.len() ==> #[trigger] processes@[j] == st[j],
            forall|j: int| 0 <= j < m ==> #[trigger] processes@[j] == spec_renorm(st)[j],
            forall|o: Output| #[trigger] totals.spec_get(o) as int == cat_share_total(st, o),
            forall|o: Output| #[trigger] pfx.spec_get(o) as int == cat_prefix(st, o, m as int),
            forall|o: Output| 0 <= #[trigger] pfx.spec_get(o) as int <= (m as int) * 1100,
            forall|o: Output| totals.spec_get(o) > 0 ==> #[trigger] pdv.spec_get(o) as int == (
            cat_prefix(st, o, m as int) * 1000) / (totals.spec_get(o) as int),
            forall|o: Output| 0 <= #[trigger] pdv.spec_get(o) <= 1000,
        decreases n - m,
    {
        let o = processes[m].output;
        let sh: u64 = processes[m].mix_share;
        let t = totals.get(o);
        let ghost pfx0 = pfx;
        let ghost pdv0 = pdv;
        if t > 0 {
            let np: i64 = pfx.get(o) + sh as i64;
            pfx.set(o, np);
            proof {
                assert(np as int == cat_prefix(st, o, m as int + 1));
                lemma_cat_prefix_monotone(st, o, m as int + 1, st.len() as int);
                lemma_div_is_ordered(
                    cat_prefix(st, o, m as int) * 1000,
                    np as int * 1000,
                    t as int,
                );
                lemma_div_is_ordered(np as int * 1000, t as int * 1000, t as int);
                assert((t as int * 1000) / (t as int) == 1000) by {
                    lemma_div_multiples_vanish(1000, t as int);
                }
            }
            let cur: u64 = ((np as u64) * 1000) / (t as u64);
            let prev: u64 = pdv.get(o) as u64;
            let ns: u64 = cur - prev;
            pdv.set(o, cur as i64);
            let p = &mut processes[m];
            p.mix_share = ns;
            proof {
                assert(renorm_share(st, m as int) == cur as int - prev as int);
                assert(processes@[m as int] == spec_renorm(st)[m as int]);
            }
        } else {
            proof {
                lemma_cat_member_le_total(st, m as int);
                assert(st[m as int].mix_share == 0);
                assert(renorm_share(st, m as int) == st[m as int].mix_share as int);
                assert(processes@[m as int] == spec_renorm(st)[m as int]);
            }
        }
        proof {
            assert((m as int) * 1100 + 1100 == (m as int + 1) * 1100) by (nonlinear_arith);
            assert forall|ox: Output| #[trigger] pfx.spec_get(ox) as int == cat_prefix(
                st,
                ox,
                m as int + 1,
            ) && 0 <= pfx.spec_get(ox) as int <= (m as int + 1) * 1100 by {
                assert(cat_prefix(st, ox, m as int + 1) == cat_prefix(st, ox, m as int) + (
                if st[m as int].output == ox {
                    st[m as int].mix_share as int
                } else {
                    0
                }));
                if ox != st[m as int].output {
                    assert(pfx.spec_get(ox) == pfx0.spec_get(ox));
                } else {
                    if totals.spec_get(ox) <= 0 {
                        lemma_cat_member_le_total(st, m as int);
                    }
                }
            }
            assert forall|ox: Output| (totals.spec_get(ox) > 0 ==> #[trigger] pdv.spec_get(
                ox,
            ) as int == (cat_prefix(st, ox, m as int + 1) * 1000) / (totals.spec_get(ox) as int))
                && 0 <= pdv.spec_get(ox) <= 1000 by {
                assert(cat_prefix(st, ox, m as int + 1) == cat_prefix(st, ox, m as int) + (
                if st[m as int].output == ox {
                    st[m as int].mix_share as int
                } else {
                    0
                }));
                if ox != st[m as int].output {
                    assert(pdv.spec_get(ox) == pdv0.spec_get(ox));
                } else {
                    if totals.spec_get(ox) <= 0 {
                        lemma_cat_member_le_total(st, m as int);
                    }
                }
            }
        }
        m = m + 1;
    }
    proof {
        assert(processes@ =~= spec_renorm(st));
        assert forall|i2: int| 0 <= i2 < processes@.len() implies (
        #[trigger] processes@[i2]).wf() by {
            lemma_renorm_share_bounds(st, i2);
            lemma_cat_member_le_total(st, i2);
            assert(processes@[i2] == spec_renorm(st)[i2]);
        }
    }
}

/// Law (promote override): a promoted process's effective target is floored
/// at `PROMOTED_TARGET` regardless of the planner's target.
pub proof fn lemma_promoted_floor(p: Process, target: int)
    requires
        p.status == ProcessStatus::Promoted,
    ensures
        spec_eff_target(p, target) >= PROMOTED_TARGET as int,
        spec_eff_target(p, target) >= target,
{
}

/// A banned process always scores zero with the planner.
proof fn lemma_banned_score_zero(
    p: Process,
    demand: OutputMap,
    rw: ResourceMap,
    fw: FeedstockMap,
    pr: Priority,
)
    requires
        p.status == ProcessStatus::Banned,
    ensures
        spec_score(p, demand, rw, fw, pr) == 0,
{
    match pr {
        Priority::Neutral => {},
        Priority::Feature(_) => {},
    }
}

/// In a two-process category whose shares are ordered strictly enough
/// (the larger side holds at least 50.1% of the total), renormalization
/// keeps the ordering strict.
proof fn lemma_renorm_pair_ordered(st: Seq<Process>, lo: int, hi: int)
    requires
        st.len() == 2,
        lo + hi == 1,
        0 <= lo < 2,
        0 <= hi < 2,
        st[lo].output == st[hi].output,
        st[hi].mix_share as int > 0,
        1000 * (st[hi].mix_share as int) >= 501 * (st[lo].mix_share as int
            + st[hi].mix_share as int),
    ensures
        spec_renorm(st)[lo].mix_share < spec_renorm(st)[hi].mix_share,
        cat_share_total(spec_renorm(st), st[lo].output) == 1000,
{
    let o = st[lo].output;
    let ls = st[lo].mix_share as int;
    let hs = st[hi].mix_share as int;
    let t = cat_share_total(st, o);
    assert(cat_prefix(st, o, 0) == 0);
    assert(cat_prefix(st, o, 1) == st[0].mix_share as int);
    assert(t == ls + hs);
    lemma_renorm_normalizes(st, o);
    lemma_renorm_prefix(st, o, 1);
    lemma_renorm_prefix(st, o, 2);
    lemma_renorm_share_bounds(st, 0);
    lemma_renorm_share_bounds(st, 1);
    let r = spec_renorm(st);
    assert(cat_share_total(r, o) == renorm_share(st, 0) + renorm_share(st, 1));
    if hi == 0 {
        // the larger share comes first: its quotient is at least 501
        assert(1000 * hs >= 501 * t);
        lemma_div_is_ordered(501 * t, hs * 1000, t);
        assert((t * 501) / t == 501) by {
            lemma_div_multiples_vanish(501, t);
        }
        assert(renorm_share(st, 0) >= 501);
    } else {
        // the smaller share comes first: its quotient is at most 499
        assert(1000 * ls <= 499 * t);
        lemma_div_is_ordered(ls * 1000, 499 * t, t);
        assert((t * 499) / t == 499) by {
            lemma_div_multiples_vanish(499, t);
        }
        assert(renorm_share(st, 0) <= 499);
    }
}

/// Law (ban override): in a two-process category, a banned process ends one
/// `update_mixes` call with a strictly smaller share than an otherwise
/// identical unbanned competitor that scores positively with the planner.
pub proof fn lemma_banned_contracts(
    s: Seq<Process>,
    demand: OutputMap,
    rw: ResourceMap,
    fw: FeedstockMap,
    pr: Priority,
    bi: int,
    ni: int,
)
    requires
        s.len() == 2,
        bi + ni == 1,
        0 <= bi < 2,
        0 <= ni < 2,
        s[bi].wf(),
        s[ni].wf(),
        !s[bi].locked,
        !s[ni].locked,
        s[bi].output == s[ni].output,
        s[bi].mix_share == s[ni].mix_share,
        s[bi].status == ProcessStatus::Banned,
        s[ni].status == ProcessStatus::Neutral,
        spec_score(s[ni], demand, rw, fw, pr) > 0,
    ensures
        spec_update_mixes(s, demand, rw, fw, pr)[bi].mix_share < spec_update_mixes(
            s,
            demand,
            rw,
            fw,
            pr,
        )[ni].mix_share,
{
    let o = s[bi].output;
    let sig = spec_score(s[ni], demand, rw, fw, pr);
    lemma_banned_score_zero(s[bi], demand, rw, fw, pr);
    assert(cat_score_total(s, o, demand, rw, fw, pr, 0) == 0);
    assert(cat_score_total(s, o, demand, rw, fw, pr, 1) == spec_score(s[0], demand, rw, fw, pr));
    assert(cat_score_total(s, o, demand, rw, fw, pr, 2) == sig + spec_score(
        s[bi],
        demand,
        rw,
        fw,
        pr,
    ));
    let total = cat_score_total(s, o, demand, rw, fw, pr, 2);
    assert(total == sig);
    // banned target is zero, the competitor's is the whole category
    assert((sig * 0) / sig == 0) by {
        lemma_div_multiples_vanish(0, sig);
    }
    assert(spec_target(s, bi, demand, rw, fw, pr) == 0);
    assert((sig * 1000) / sig == 1000) by {
        lemma_div_multiples_vanish(1000, sig);
    }
    assert(spec_target(s, ni, demand, rw, fw, pr) == 1000);

    let m = s[bi].mix_share as int;
    let st = spec_stepped(s, demand, rw, fw, pr);
    let bs = st[bi].mix_share as int;
    let ns = st[ni].mix_share as int;
    lemma_fundamental_div_mod(m, 10);
    vstd::arithmetic::div_mod::lemma_mod_bound(m, 10);
    vstd::arithmetic::div_mod::lemma_div_pos_is_pos(m, 10);
    if m == 0 {
        assert(bs == 0);
        assert(ns == 10);
    } else if m < 1000 {
        assert(bs == m - m / 10);
        assert(ns == m + 10);
    } else {
        assert(m == 1000);
        assert(bs == 900);
        assert(ns == 1000);
    }
    assert(bs < ns);
    assert(1000 * ns >= 501 * (bs + ns));
    assert(st[bi].output == o && st[ni].output == o);
    lemma_renorm_pair_ordered(st, bi, ni);
}

/// Law (monotonic scarcity response): two processes share an output and
/// demand, start at equal halves, and differ only in their weighted
/// scarcity cost; after one `update_mixes` call the strictly cheaper one
/// holds the strictly larger share, and the category still sums to one.
/// The planner's integer targets must separate by at least one millis step
/// (the 501-millis condition below); costs so close that truncation maps
/// them to the same target move neither process.
pub proof fn lemma_scarcity_monotone(
    s: Seq<Process>,
    demand: OutputMap,
    rw: ResourceMap,
    fw: FeedstockMap,
    pr: Priority,
)
    requires
        s.len() == 2,
        s[0].wf(),
        s[1].wf(),
        !s[0].locked,
        !s[1].locked,
        s[0].output == s[1].output,
        s[0].status == ProcessStatus::Neutral,
        s[1].status == ProcessStatus::Neutral,
        s[0].mix_share == 500,
        s[1].mix_share == 500,
        s[0].features@ == s[1].features@,
        demand.spec_get(s[0].output) > 0,
        spec_cost(s[1], rw, fw) < spec_cost(s[0], rw, fw),
        spec_cost(s[0], rw, fw) < SCORE_CAP as int,
        1000 * spec_score(s[1], demand, rw, fw, pr) >= 501 * (spec_score(s[0], demand, rw, fw, pr)
            + spec_score(s[1], demand, rw, fw, pr)),
    ensures
        spec_update_mixes(s, demand, rw, fw, pr)[1].mix_share > spec_update_mixes(
            s,
            demand,
            rw,
            fw,
            pr,
        )[0].mix_share,
        cat_share_total(spec_update_mixes(s, demand, rw, fw, pr), s[0].output) == 1000,
{
    let o = s[0].output;
    let s0 = spec_score(s[0], demand, rw, fw, pr);
    let s1 = spec_score(s[1], demand, rw, fw, pr);
    lemma_score_nonneg(s[0], demand, rw, fw, pr);
    assert(spec_base_score(s[0], demand, rw, fw) > 0);
    assert(s0 > 0) by {
        match pr {
            Priority::Neutral => {},
            Priority::Feature(_) => {},
        }
    }
    assert(cat_score_total(s, o, demand, rw, fw, pr, 0) == 0);
    assert(cat_score_total(s, o, demand, rw, fw, pr, 1) == s0);
    let total = cat_score_total(s, o, demand, rw, fw, pr, 2);
    assert(total == s0 + s1);
    // the cheaper process's target is at least 501, the dearer one's at most 499
    assert(1000 * s0 <= 499 * total);
    lemma_div_is_ordered(s0 * 1000, 499 * total, total);
    assert((total * 499) / total == 499) by {
        lemma_div_multiples_vanish(499, total);
    }
    assert(spec_target(s, 0, demand, rw, fw, pr) <= 499);
    lemma_div_is_ordered(501 * total, s1 * 1000, total);
    assert((total * 501) / total == 501) by {
        lemma_div_multiples_vanish(501, total);
    }
    assert(spec_target(s, 1, demand, rw, fw, pr) >= 501);
    lemma_score_nonneg(s[1], demand, rw, fw, pr);
    lemma_target_in_range(s, 0, demand, rw, fw, pr);
    lemma_target_in_range(s, 1, demand, rw, fw, pr);

    let st = spec_stepped(s, demand, rw, fw, pr);
    assert(st[0].mix_share == 490);
    assert(st[1].mix_share == 510);
    assert(st[0].output == o && st[1].output == o);
    lemma_renorm_pair_ordered(st, 0, 1);
}

/// Scores are never negative.
proof fn lemma_score_nonneg(
    p: Process,
    demand: OutputMap,
    rw: ResourceMap,
    fw: FeedstockMap,
    pr: Priority,
)
    ensures
        spec_score(p, demand, rw, fw, pr) >= 0,
{
    let base = spec_base_score(p, demand, rw, fw);
    assert(base >= 0);
    match pr {
        Priority::Neutral => {},
        Priority::Feature(f) => {
            if p.spec_has_feature(f) {
                assert(base * 2 >= 0);
            }
        },
    }
}

} // verus!
