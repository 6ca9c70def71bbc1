//! Build time estimates: what earlier comparable builds took, and what the
//! first long engine pass of this build suggests.
use vstd::prelude::*;
use vstd::relations::{sorted_by, total_ordering};
use crate::progress::{
    duration_text, format_duration, historical_range, is_useful_estimate, sat_mul, saturating_mul, similar_packages,
    useful_estimate, PackagePlanSample,
};

verus! {

broadcast use vstd::seq_lib::group_to_multiset_ensures;

/// The order of durations.
pub open spec fn le_u64() -> spec_fn(u64, u64) -> bool {
    |a: u64, b: u64| a <= b
}

pub proof fn lemma_le_u64_total()
    ensures
        total_ordering(le_u64()),
{
    let leq = le_u64();
    assert(vstd::relations::reflexive(leq)) by {
        assert forall|x: u64| #[trigger] leq(x, x) by {}
    }
    assert(vstd::relations::antisymmetric(leq)) by {
        assert forall|x: u64, y: u64| #[trigger] leq(x, y) && #[trigger] leq(y, x) implies x == y by {}
    }
    assert(vstd::relations::transitive(leq)) by {
        assert forall|x: u64, y: u64, z: u64| #[trigger] leq(x, y) && #[trigger] leq(y, z) implies leq(x, z) by {}
    }
    assert(vstd::relations::strongly_connected(leq)) by {
        assert forall|x: u64, y: u64| #[trigger] leq(x, y) || #[trigger] leq(y, x) by {}
    }
}

/// The middle value of some durations: the one at index `len / 2` once
/// they are sorted (the upper middle for an even count); 0 for none.
pub open spec fn median_of(values: Seq<u64>) -> u64 {
    if values.len() == 0 {
        0
    } else {
        values.sort_by(le_u64())[(values.len() / 2) as int]
    }
}

fn sorted_copy(values: &Vec<u64>) -> (r: Vec<u64>)
    ensures
        r@.to_multiset() == values@.to_multiset(),
        sorted_by(r@, le_u64()),
{
    let mut r: Vec<u64> = Vec::new();
    let mut i: usize = 0;
    while i < values.len()
        invariant
            i <= values.len(),
            r@.to_multiset() == values@.subrange(0, i as int).to_multiset(),
            forall|a: int, b: int| 0 <= a < b < r@.len() ==> r@[a] <= r@[b],
        decreases values.len() - i,
    {
        let x = values[i];
        let mut p: usize = 0;
        while p < r.len() && r[p] <= x
            invariant
                p <= r.len(),
                forall|a: int| 0 <= a < p ==> r@[a] <= x,
            decreases r.len() - p,
        {
            p += 1;
        }
        let ghost before = r@;
        r.insert(p, x);
        proof {
            assert(r@ == before.insert(p as int, x));
            assert(values@.subrange(0, i + 1) == values@.subrange(0, i as int).push(x));
            assert forall|a: int, b: int| 0 <= a < b < r@.len() implies r@[a] <= r@[b] by {
                if b < p {
                } else if b == p {
                } else if a < p {
                    assert(r@[b] == before[b - 1]);
                    if p < before.len() {
                        assert(x < before[p as int]);
                    }
                } else if a == p {
                    assert(r@[b] == before[b - 1]);
                    assert(x < before[p as int]);
                } else {
                }
            }
        }
        i += 1;
    }
    assert(values@.subrange(0, values@.len() as int) == values@);
    r
}

pub fn median(values: &Vec<u64>) -> (r: u64)
    ensures
        r == median_of(values@),
{
    if values.len() == 0 {
        return 0;
    }
    let sorted = sorted_copy(values);
    proof {
        lemma_le_u64_total();
        values@.lemma_sort_by_ensures(le_u64());
        vstd::seq_lib::lemma_sorted_unique(sorted@, values@.sort_by(le_u64()), le_u64());
        assert(sorted@.len() == values@.len()) by {
            assert(sorted@.to_multiset().len() == values@.to_multiset().len());
        }
    }
    sorted[values.len() / 2]
}

/// `a + b`, capped at `u64::MAX`.
pub open spec fn sat_add(a: nat, b: nat) -> nat {
    if a + b > u64::MAX {
        u64::MAX as nat
    } else {
        a + b
    }
}

/// `a - b`, floored at 0.
pub open spec fn sat_sub(a: nat, b: nat) -> nat {
    if a >= b {
        (a - b) as nat
    } else {
        0
    }
}

/// One recorded build in the timing history.
#[derive(Debug, Clone)]
pub struct TimingSample {
    pub engine: String,
    pub frozen: bool,
    pub incremental: bool,
    pub total_millis: u64,
    /// Milliseconds per phase, by phase key, in key order.
    pub phase_millis: Vec<(String, u64)>,
    pub engine_passes: usize,
    pub bibliography_runs: usize,
    pub index_runs: usize,
    pub convergence_rounds: usize,
    pub environment_fingerprint: String,
    pub package_plan: Option<PackagePlanSample>,
}

/// What an estimate of the running build knows.
#[derive(Debug, Clone)]
pub struct EstimateContext {
    pub engine: String,
    pub frozen: bool,
    pub incremental: bool,
    pub max_passes: usize,
    pub samples: Vec<TimingSample>,
    pub phase_millis: Vec<(String, u64)>,
    pub engine_millis: Vec<u64>,
    /// The package download plan of this build, once pqty reported one.
    pub package_plan: Option<PackagePlanSample>,
    /// Milliseconds since the build started.
    pub elapsed_millis: u64,
}

/// A range for the whole build; `rough` where it rests on weak evidence.
#[derive(Debug, Clone, Copy, PartialEq, Eq, Structural)]
pub struct TotalEstimate {
    pub lower_millis: u64,
    pub upper_millis: u64,
    pub rough: bool,
}

/// A range for what is left of the build.
#[derive(Debug, Clone, Copy, PartialEq, Eq, Structural)]
pub struct RemainingEstimate {
    pub lower_millis: u64,
    pub upper_millis: u64,
}

/// The milliseconds recorded under `key`, if any.
pub open spec fn phase_of(phases: Seq<(String, u64)>, key: Seq<char>) -> Option<u64>
    decreases phases.len(),
{
    if phases.len() == 0 {
        None
    } else if phases[0].0@ == key {
        Some(phases[0].1)
    } else {
        phase_of(phases.drop_first(), key)
    }
}

pub fn phase(phases: &Vec<(String, u64)>, key: &str) -> (r: Option<u64>)
    ensures
        r == phase_of(phases@, key@),
{
    let mut i: usize = 0;
    assert(phases@.subrange(0, phases@.len() as int) == phases@);
    while i < phases.len()
        invariant
            i <= phases.len(),
            phase_of(phases@, key@) == phase_of(phases@.subrange(i as int, phases@.len() as int), key@),
        decreases phases.len() - i,
    {
        let ghost rest = phases@.subrange(i as int, phases@.len() as int);
        assert(rest[0] == phases@[i as int]);
        assert(rest.drop_first() == phases@.subrange(i + 1, phases@.len() as int));
        if crate::text::eq_str(&crate::text::chars_of(phases[i].0.as_str()), key) {
            return Some(phases[i].1);
        }
        i += 1;
    }
    None
}

/// A sample from a build of the same kind: same engine, same frozen mode,
/// same first-or-incremental build.
pub open spec fn comparable(s: TimingSample, engine: Seq<char>, frozen: bool, incremental: bool) -> bool {
    s.engine@ == engine && s.frozen == frozen && s.incremental == incremental
}

/// The indices of the last `k` comparable samples among the first `n`,
/// newest first.
pub open spec fn comparable_below(samples: Seq<TimingSample>, engine: Seq<char>, frozen: bool, incremental: bool, n: int, k: nat) -> Seq<int>
    decreases n,
{
    if n <= 0 || k == 0 {
        Seq::empty()
    } else if comparable(samples[n - 1], engine, frozen, incremental) {
        seq![n - 1] + comparable_below(samples, engine, frozen, incremental, n - 1, (k - 1) as nat)
    } else {
        comparable_below(samples, engine, frozen, incremental, n - 1, k)
    }
}

/// The five most recent comparable samples, newest first.
pub open spec fn comparable_indices(c: EstimateContext) -> Seq<int> {
    comparable_below(c.samples@, c.engine@, c.frozen, c.incremental, c.samples@.len() as int, 5)
}

pub proof fn lemma_comparable_below(samples: Seq<TimingSample>, engine: Seq<char>, frozen: bool, incremental: bool, n: int, k: nat)
    requires
        n <= samples.len(),
    ensures
        comparable_below(samples, engine, frozen, incremental, n, k).len() <= k,
        forall|i: int| 0 <= i < comparable_below(samples, engine, frozen, incremental, n, k).len() ==> 0 <= #[trigger] comparable_below(samples, engine, frozen, incremental, n, k)[i] < n,
    decreases n,
{
    if n > 0 && k > 0 {
        if comparable(samples[n - 1], engine, frozen, incremental) {
            lemma_comparable_below(samples, engine, frozen, incremental, n - 1, (k - 1) as nat);
            let rest = comparable_below(samples, engine, frozen, incremental, n - 1, (k - 1) as nat);
            assert forall|i: int| 0 <= i < comparable_below(samples, engine, frozen, incremental, n, k).len() implies 0 <= #[trigger] comparable_below(samples, engine, frozen, incremental, n, k)[i] < n by {
                if i > 0 {
                    assert(comparable_below(samples, engine, frozen, incremental, n, k)[i] == rest[i - 1]);
                }
            }
        } else {
            lemma_comparable_below(samples, engine, frozen, incremental, n - 1, k);
        }
    }
}

pub fn comparable_samples(c: &EstimateContext) -> (r: Vec<usize>)
    ensures
        r@.map_values(|i: usize| i as int) == comparable_indices(*c),
{
    let mut r: Vec<usize> = Vec::new();
    let mut n: usize = c.samples.len();
    let mut k: usize = 5;
    let ghost full = comparable_indices(*c);
    while n > 0 && k > 0
        invariant
            n <= c.samples.len(),
            k <= 5,
            full == comparable_indices(*c),
            full == r@.map_values(|i: usize| i as int) + comparable_below(c.samples@, c.engine@, c.frozen, c.incremental, n as int, k as nat),
        decreases n,
    {
        let s = &c.samples[n - 1];
        let same = crate::text::eq_str(&crate::text::chars_of(s.engine.as_str()), c.engine.as_str()) && s.frozen == c.frozen
            && s.incremental == c.incremental;
        let ghost before = r@.map_values(|i: usize| i as int);
        if same {
            r.push(n - 1);
            assert(r@.map_values(|i: usize| i as int) =~= before.push(n - 1));
            k -= 1;
        }
        n -= 1;
    }
    assert(comparable_below(c.samples@, c.engine@, c.frozen, c.incremental, n as int, k as nat) =~= Seq::<int>::empty());
    r
}

/// How long a sample's package phase took, if it was timed.
pub open spec fn packages_millis(s: TimingSample) -> Option<u64> {
    phase_of(s.phase_millis@, "packages"@)
}

/// The samples at `idx` whose package phase was timed, with that time.
pub open spec fn phased(samples: Seq<TimingSample>, idx: Seq<int>) -> Seq<(int, u64)>
    decreases idx.len(),
{
    if idx.len() == 0 {
        Seq::empty()
    } else {
        let rest = phased(samples, idx.drop_last());
        match packages_millis(samples[idx.last()]) {
            Some(p) => rest.push((idx.last(), p)),
            None => rest,
        }
    }
}

/// Their time outside the package phase.
pub open spec fn non_package_values(samples: Seq<TimingSample>, ph: Seq<(int, u64)>) -> Seq<u64> {
    ph.map_values(|e: (int, u64)| sat_sub(samples[e.0].total_millis as nat, e.1 as nat) as u64)
}

/// Their package phase times.
pub open spec fn package_values(ph: Seq<(int, u64)>) -> Seq<u64> {
    ph.map_values(|e: (int, u64)| e.1)
}

/// The package phase times of the samples whose download plan resembles
/// the current one.
pub open spec fn matching_packages(samples: Seq<TimingSample>, ph: Seq<(int, u64)>, current: PackagePlanSample) -> Seq<u64>
    decreases ph.len(),
{
    if ph.len() == 0 {
        Seq::empty()
    } else {
        let rest = matching_packages(samples, ph.drop_last(), current);
        match samples[ph.last().0].package_plan {
            Some(plan) => if similar_packages(plan, current) {
                rest.push(ph.last().1)
            } else {
                rest
            },
            None => rest,
        }
    }
}

pub open spec fn min_of(v: Seq<u64>) -> u64
    decreases v.len(),
{
    if v.len() == 0 {
        0
    } else if v.len() == 1 {
        v[0]
    } else if v.last() < min_of(v.drop_last()) {
        v.last()
    } else {
        min_of(v.drop_last())
    }
}

pub open spec fn max_of(v: Seq<u64>) -> u64
    decreases v.len(),
{
    if v.len() == 0 {
        0
    } else if v.len() == 1 {
        v[0]
    } else if v.last() > max_of(v.drop_last()) {
        v.last()
    } else {
        max_of(v.drop_last())
    }
}

/// A range around the median (`ln/ld` to `un/ud` of it), widened to
/// contain every value.
pub open spec fn guarded(values: Seq<u64>, ln: nat, ld: nat, un: nat, ud: nat) -> Option<(nat, nat)> {
    if values.len() == 0 {
        None
    } else {
        let center = median_of(values) as nat;
        let lo = sat_mul(center, ln) / ld;
        let hi = sat_mul(center, un) / ud;
        Some(
            (
                if (min_of(values) as nat) < lo {
                    min_of(values) as nat
                } else {
                    lo
                },
                if (max_of(values) as nat) > hi {
                    max_of(values) as nat
                } else {
                    hi
                },
            ),
        )
    }
}

/// A range that times the package phase apart from the rest, from the
/// samples that timed it: from those with a similar download plan where
/// there are any, else (more broadly, and rough) from all of them.
pub open spec fn package_aware(samples: Seq<TimingSample>, idx: Seq<int>, current: PackagePlanSample) -> Option<(nat, nat, bool)> {
    let ph = phased(samples, idx);
    if ph.len() == 0 {
        None
    } else {
        let m = matching_packages(samples, ph, current);
        let matched = m.len() > 0;
        let rest = guarded(non_package_values(samples, ph), 4, 5, 13, 10);
        let packages = if matched {
            guarded(m, 4, 5, 13, 10)
        } else {
            guarded(package_values(ph), 3, 5, 8, 5)
        };
        match (rest, packages) {
            (Some(a), Some(b)) => Some((sat_add(a.0, b.0), sat_add(a.1, b.1), !matched)),
            _ => None,
        }
    }
}

fn min_max(values: &Vec<u64>) -> (r: (u64, u64))
    requires
        values@.len() > 0,
    ensures
        r.0 == min_of(values@),
        r.1 == max_of(values@),
{
    let mut lo = values[0];
    let mut hi = values[0];
    let mut i: usize = 1;
    assert(values@.subrange(0, 1) =~= seq![values@[0]]);
    while i < values.len()
        invariant
            1 <= i <= values.len(),
            lo == min_of(values@.subrange(0, i as int)),
            hi == max_of(values@.subrange(0, i as int)),
        decreases values.len() - i,
    {
        let x = values[i];
        proof {
            let t = values@.subrange(0, i + 1);
            assert(t.drop_last() =~= values@.subrange(0, i as int));
            assert(t.last() == x);
        }
        if x < lo {
            lo = x;
        }
        if x > hi {
            hi = x;
        }
        i += 1;
    }
    assert(values@.subrange(0, values@.len() as int) == values@);
    (lo, hi)
}

pub fn guarded_range(values: &Vec<u64>, ln: u64, ld: u64, un: u64, ud: u64) -> (r: Option<(u64, u64)>)
    requires
        ld > 0,
        ud > 0,
    ensures
        match guarded(values@, ln as nat, ld as nat, un as nat, ud as nat) {
            Some(g) => r matches Some(x) && x.0 as nat == g.0 && x.1 as nat == g.1,
            None => r is None,
        },
{
    if values.len() == 0 {
        return None;
    }
    let (minimum, maximum) = min_max(values);
    let center = median(values);
    let lo = saturating_mul(center, ln) / ld;
    let hi = saturating_mul(center, un) / ud;
    Some((if minimum < lo { minimum } else { lo }, if maximum > hi { maximum } else { hi }))
}

fn phased_of(c: &EstimateContext, idx: &Vec<usize>) -> (r: Vec<(usize, u64)>)
    requires
        forall|i: int| 0 <= i < idx@.len() ==> #[trigger] idx@[i] < c.samples@.len(),
    ensures
        r@.map_values(|e: (usize, u64)| (e.0 as int, e.1)) == phased(c.samples@, idx@.map_values(|i: usize| i as int)),
        forall|i: int| 0 <= i < r@.len() ==> #[trigger] r@[i].0 < c.samples@.len(),
{
    let ghost iv = idx@.map_values(|i: usize| i as int);
    let mut r: Vec<(usize, u64)> = Vec::new();
    let mut k: usize = 0;
    while k < idx.len()
        invariant
            k <= idx.len(),
            iv == idx@.map_values(|i: usize| i as int),
            forall|i: int| 0 <= i < idx@.len() ==> #[trigger] idx@[i] < c.samples@.len(),
            r@.map_values(|e: (usize, u64)| (e.0 as int, e.1)) == phased(c.samples@, iv.subrange(0, k as int)),
            forall|i: int| 0 <= i < r@.len() ==> #[trigger] r@[i].0 < c.samples@.len(),
        decreases idx.len() - k,
    {
        let j = idx[k];
        proof {
            let t = iv.subrange(0, k + 1);
            assert(t.drop_last() =~= iv.subrange(0, k as int));
            assert(t.last() == j as int);
        }
        let ghost before = r@.map_values(|e: (usize, u64)| (e.0 as int, e.1));
        match phase(&c.samples[j].phase_millis, "packages") {
            Some(p) => {
                r.push((j, p));
                assert(r@.map_values(|e: (usize, u64)| (e.0 as int, e.1)) =~= before.push((j as int, p)));
            },
            None => {},
        }
        k += 1;
    }
    assert(iv.subrange(0, idx@.len() as int) =~= iv);
    r
}

/// See [`package_aware`].
pub fn package_aware_total_range(c: &EstimateContext, idx: &Vec<usize>, current: PackagePlanSample) -> (r: Option<(u64, u64, bool)>)
    requires
        forall|i: int| 0 <= i < idx@.len() ==> #[trigger] idx@[i] < c.samples@.len(),
    ensures
        match package_aware(c.samples@, idx@.map_values(|i: usize| i as int), current) {
            Some(g) => r matches Some(x) && x.0 as nat == g.0 && x.1 as nat == g.1 && x.2 == g.2,
            None => r is None,
        },
{
    let ph = phased_of(c, idx);
    let ghost pv = ph@.map_values(|e: (usize, u64)| (e.0 as int, e.1));
    if ph.len() == 0 {
        return None;
    }
    let mut non_package: Vec<u64> = Vec::new();
    let mut all_packages: Vec<u64> = Vec::new();
    let mut matching: Vec<u64> = Vec::new();
    let mut k: usize = 0;
    while k < ph.len()
        invariant
            k <= ph.len(),
            pv == ph@.map_values(|e: (usize, u64)| (e.0 as int, e.1)),
            forall|i: int| 0 <= i < ph@.len() ==> #[trigger] ph@[i].0 < c.samples@.len(),
            non_package@ == non_package_values(c.samples@, pv.subrange(0, k as int)),
            all_packages@ == package_values(pv.subrange(0, k as int)),
            matching@ == matching_packages(c.samples@, pv.subrange(0, k as int), current),
        decreases ph.len() - k,
    {
        let (j, p) = ph[k];
        let sample = &c.samples[j];
        proof {
            let t = pv.subrange(0, k + 1);
            assert(t.drop_last() =~= pv.subrange(0, k as int));
            assert(t.last() == (j as int, p));
            assert(non_package_values(c.samples@, t) =~= non_package_values(c.samples@, pv.subrange(0, k as int)).push(
                sat_sub(c.samples@[j as int].total_millis as nat, p as nat) as u64,
            ));
            assert(package_values(t) =~= package_values(pv.subrange(0, k as int)).push(p));
        }
        non_package.push(sample.total_millis.saturating_sub(p));
        all_packages.push(p);
        match sample.package_plan {
            Some(plan) => {
                if crate::progress::similar_package_work(plan, current) {
                    matching.push(p);
                }
            },
            None => {},
        }
        k += 1;
    }
    assert(pv.subrange(0, pv.len() as int) =~= pv);
    let matched = matching.len() > 0;
    let rest = guarded_range(&non_package, 4, 5, 13, 10);
    let packages = if matched {
        guarded_range(&matching, 4, 5, 13, 10)
    } else {
        guarded_range(&all_packages, 3, 5, 8, 5)
    };
    match (rest, packages) {
        (Some(a), Some(b)) => Some((a.0.saturating_add(b.0), a.1.saturating_add(b.1), !matched)),
        _ => None,
    }
}

/// What earlier comparable builds predict for the whole build: the package
/// aware range where this build has a download plan and the samples timed
/// their package phase, else the range around their median total.
pub open spec fn historical_estimate(c: EstimateContext) -> Option<(nat, nat, bool)> {
    let idx = comparable_indices(c);
    if idx.len() == 0 {
        None
    } else {
        let from_plan = match c.package_plan {
            Some(plan) => package_aware(c.samples@, idx, plan),
            None => None,
        };
        match from_plan {
            Some(x) => Some(x),
            None => {
                let total = median_of(idx.map_values(|i: int| c.samples@[i].total_millis));
                let range = historical_range(total);
                Some((range.0, range.1, false))
            },
        }
    }
}

/// What this build's engine passes predict, once a pass has taken ten
/// seconds or more: at least one more pass unless a final pass already ran,
/// at most every pass the build may still make.
pub open spec fn observed_estimate(c: EstimateContext) -> Option<(nat, nat, bool)> {
    if c.engine_millis@.len() == 0 {
        None
    } else {
        let per_pass = median_of(c.engine_millis@) as nat;
        if per_pass < 10000 {
            None
        } else {
            let plausible = c.max_passes + if c.frozen {
                0nat
            } else {
                4nat
            };
            let high = if plausible > c.engine_millis@.len() {
                (plausible - c.engine_millis@.len()) as nat
            } else {
                1nat
            };
            let elapsed = c.elapsed_millis as nat;
            let lower = match phase_of(c.phase_millis@, "engine-final"@) {
                Some(m) => if m > 0 {
                    elapsed
                } else {
                    sat_add(elapsed, per_pass)
                },
                None => sat_add(elapsed, per_pass),
            };
            Some((lower, sat_add(elapsed, sat_mul(per_pass, high)), true))
        }
    }
}

/// The estimate of the whole build: where history and observation agree,
/// their overlap; where they conflict, a range wide enough for both.
pub open spec fn total_estimate(c: EstimateContext) -> Option<(nat, nat, bool)> {
    match (historical_estimate(c), observed_estimate(c)) {
        (Some(h), Some(o)) => {
            let lower = if h.0 > o.0 {
                h.0
            } else {
                o.0
            };
            let upper = if h.1 < o.1 {
                h.1
            } else {
                o.1
            };
            if lower < upper {
                Some((lower, upper, true))
            } else {
                Some(
                    (
                        if h.0 < o.0 {
                            h.0
                        } else {
                            o.0
                        },
                        if h.1 > o.1 {
                            h.1
                        } else {
                            o.1
                        },
                        true,
                    ),
                )
            }
        },
        (Some(e), None) => Some(e),
        (None, Some(e)) => Some(e),
        (None, None) => None,
    }
}

pub open spec fn estimate_view(e: Option<TotalEstimate>) -> Option<(nat, nat, bool)> {
    match e {
        Some(t) => Some((t.lower_millis as nat, t.upper_millis as nat, t.rough)),
        None => None,
    }
}

/// The totals of the samples at `idx`, in that order.
pub open spec fn totals_at(c: EstimateContext, idx: Seq<int>) -> Seq<u64> {
    idx.map_values(|i: int| c.samples@[i].total_millis)
}

pub(crate) fn comparable_totals(c: &EstimateContext, idx: &Vec<usize>) -> (r: Vec<u64>)
    requires
        forall|i: int| 0 <= i < idx@.len() ==> #[trigger] idx@[i] < c.samples@.len(),
    ensures
        r@ == totals_at(*c, idx@.map_values(|i: usize| i as int)),
{
    let ghost iv = idx@.map_values(|i: usize| i as int);
    let mut totals: Vec<u64> = Vec::new();
    let mut k: usize = 0;
    while k < idx.len()
        invariant
            k <= idx.len(),
            iv == idx@.map_values(|i: usize| i as int),
            forall|i: int| 0 <= i < idx@.len() ==> #[trigger] idx@[i] < c.samples@.len(),
            totals@ == iv.subrange(0, k as int).map_values(|i: int| c.samples@[i].total_millis),
        decreases idx.len() - k,
    {
        totals.push(c.samples[idx[k]].total_millis);
        proof {
            let f = |i: int| c.samples@[i].total_millis;
            assert(iv.subrange(0, k + 1) =~= iv.subrange(0, k as int).push(iv[k as int]));
            assert(iv.subrange(0, k + 1).map_values(f) =~= iv.subrange(0, k as int).map_values(f).push(f(iv[k as int])));
        }
        k += 1;
    }
    assert(iv.subrange(0, iv.len() as int) =~= iv);
    totals
}

fn historical_of(c: &EstimateContext) -> (r: Option<TotalEstimate>)
    ensures
        estimate_view(r) == historical_estimate(*c),
{
    let idx = comparable_samples(c);
    proof {
        lemma_comparable_below(c.samples@, c.engine@, c.frozen, c.incremental, c.samples@.len() as int, 5);
        assert forall|i: int| 0 <= i < idx@.len() implies #[trigger] idx@[i] < c.samples@.len() by {
            assert(idx@.map_values(|i: usize| i as int)[i] == idx@[i] as int);
        }
    }
    if idx.len() == 0 {
        return None;
    }
    let from_plan = match c.package_plan {
        Some(plan) => package_aware_total_range(c, &idx, plan),
        None => None,
    };
    match from_plan {
        Some((lower, upper, rough)) => Some(TotalEstimate { lower_millis: lower, upper_millis: upper, rough }),
        None => {
            let totals = comparable_totals(c, &idx);
            let total = median(&totals);
            let (lower, upper) = crate::progress::historical_total_range(total);
            Some(TotalEstimate { lower_millis: lower, upper_millis: upper, rough: false })
        },
    }
}

fn observed_of(c: &EstimateContext) -> (r: Option<TotalEstimate>)
    requires
        c.max_passes <= usize::MAX - 4,
    ensures
        estimate_view(r) == observed_estimate(*c),
{
    if c.engine_millis.len() == 0 {
        return None;
    }
    let per_pass = median(&c.engine_millis);
    if per_pass < 10000 {
        return None;
    }
    let completed = c.engine_millis.len();
    let plausible = c.max_passes + if c.frozen { 0 } else { 4 };
    let high: usize = if plausible > completed { plausible - completed } else { 1 };
    let elapsed = c.elapsed_millis;
    let lower = match phase(&c.phase_millis, "engine-final") {
        Some(m) => if m > 0 { elapsed } else { elapsed.saturating_add(per_pass) },
        None => elapsed.saturating_add(per_pass),
    };
    let upper = elapsed.saturating_add(saturating_mul(per_pass, high as u64));
    Some(TotalEstimate { lower_millis: lower, upper_millis: upper, rough: true })
}

pub fn estimate_total(c: &EstimateContext) -> (r: Option<TotalEstimate>)
    requires
        c.max_passes <= usize::MAX - 4,
    ensures
        estimate_view(r) == total_estimate(*c),
{
    let historical = historical_of(c);
    let observed = observed_of(c);
    match (historical, observed) {
        (Some(h), Some(o)) => {
            let lower = if h.lower_millis > o.lower_millis { h.lower_millis } else { o.lower_millis };
            let upper = if h.upper_millis < o.upper_millis { h.upper_millis } else { o.upper_millis };
            if lower < upper {
                Some(TotalEstimate { lower_millis: lower, upper_millis: upper, rough: true })
            } else {
                Some(
                    TotalEstimate {
                        lower_millis: if h.lower_millis < o.lower_millis { h.lower_millis } else { o.lower_millis },
                        upper_millis: if h.upper_millis > o.upper_millis { h.upper_millis } else { o.upper_millis },
                        rough: true,
                    },
                )
            }
        },
        (Some(e), None) => Some(e),
        (None, Some(e)) => Some(e),
        (None, None) => None,
    }
}

/// What is left of the estimated total, once the build has not yet run
/// past its upper end.
pub open spec fn remaining_estimate(c: EstimateContext) -> Option<(nat, nat)> {
    match total_estimate(c) {
        Some(t) => if t.1 <= c.elapsed_millis {
            None
        } else {
            Some((sat_sub(t.0, c.elapsed_millis as nat), sat_sub(t.1, c.elapsed_millis as nat)))
        },
        None => None,
    }
}

pub fn estimate_remaining(c: &EstimateContext) -> (r: Option<RemainingEstimate>)
    requires
        c.max_passes <= usize::MAX - 4,
    ensures
        match remaining_estimate(*c) {
            Some(x) => r matches Some(e) && e.lower_millis as nat == x.0 && e.upper_millis as nat == x.1,
            None => r is None,
        },
{
    let total = match estimate_total(c) {
        Some(t) => t,
        None => return None,
    };
    if total.upper_millis <= c.elapsed_millis {
        return None;
    }
    Some(
        RemainingEstimate {
            lower_millis: total.lower_millis.saturating_sub(c.elapsed_millis),
            upper_millis: total.upper_millis.saturating_sub(c.elapsed_millis),
        },
    )
}

/// The live line's estimate of the whole build.
pub open spec fn total_status_text(c: EstimateContext) -> Seq<char> {
    match total_estimate(c) {
        Some(t) => if is_useful_estimate(t.0 as u64, t.1 as u64) {
            (if t.2 {
                "rough"@
            } else {
                "estimated"@
            }) + " total "@ + duration_text(t.0) + "–"@ + duration_text(t.1)
        } else {
            "total estimate after first LaTeX pass"@
        },
        None => "total estimate after first LaTeX pass"@,
    }
}

pub fn live_total_status(c: &EstimateContext) -> (r: String)
    requires
        c.max_passes <= usize::MAX - 4,
    ensures
        r@ == total_status_text(*c),
{
    let t = match estimate_total(c) {
        Some(t) => t,
        None => return String::from_str("total estimate after first LaTeX pass"),
    };
    if !useful_estimate(t.lower_millis, t.upper_millis) {
        return String::from_str("total estimate after first LaTeX pass");
    }
    let mut r = String::from_str(if t.rough { "rough" } else { "estimated" });
    r.append(" total ");
    r.append(format_duration(t.lower_millis).as_str());
    r.append("–");
    r.append(format_duration(t.upper_millis).as_str());
    r
}

/// The live line's estimate of the time left.
pub open spec fn remaining_status_text(c: EstimateContext) -> Seq<char> {
    match total_estimate(c) {
        Some(t) => {
            let lower = sat_sub(t.0, c.elapsed_millis as nat);
            let upper = sat_sub(t.1, c.elapsed_millis as nat);
            if upper < 2000 {
                "finishing"@
            } else if lower < 1000 {
                "up to "@ + duration_text(upper) + " left"@
            } else if sat_sub(upper, lower) < 1000 {
                "about "@ + duration_text(upper) + " left"@
            } else {
                "about "@ + duration_text(lower) + "–"@ + duration_text(upper) + " left"@
            }
        },
        None => "estimating time left"@,
    }
}

pub fn live_remaining_status(c: &EstimateContext) -> (r: String)
    requires
        c.max_passes <= usize::MAX - 4,
    ensures
        r@ == remaining_status_text(*c),
{
    let t = match estimate_total(c) {
        Some(t) => t,
        None => return String::from_str("estimating time left"),
    };
    let lower = t.lower_millis.saturating_sub(c.elapsed_millis);
    let upper = t.upper_millis.saturating_sub(c.elapsed_millis);
    if upper < 2000 {
        return String::from_str("finishing");
    }
    if lower < 1000 {
        let mut r = String::from_str("up to ");
        r.append(format_duration(upper).as_str());
        r.append(" left");
        return r;
    }
    if upper.saturating_sub(lower) < 1000 {
        let mut r = String::from_str("about ");
        r.append(format_duration(upper).as_str());
        r.append(" left");
        return r;
    }
    let mut r = String::from_str("about ");
    r.append(format_duration(lower).as_str());
    r.append("–");
    r.append(format_duration(upper).as_str());
    r.append(" left");
    r
}

/// The suffix of a plain progress line: the elapsed time, and the estimate
/// of what is left where it is worth showing.
pub open spec fn remaining_suffix_text(c: EstimateContext) -> Seq<char> {
    let elapsed = " · elapsed "@ + duration_text(c.elapsed_millis as nat);
    match remaining_estimate(c) {
        Some(e) => if is_useful_estimate(e.0 as u64, e.1 as u64) {
            elapsed + " · estimated "@ + duration_text(e.0) + "–"@ + duration_text(e.1) + " remaining"@
        } else {
            elapsed
        },
        None => elapsed,
    }
}

pub fn remaining_suffix(c: &EstimateContext) -> (r: String)
    requires
        c.max_passes <= usize::MAX - 4,
    ensures
        r@ == remaining_suffix_text(*c),
{
    let mut r = String::from_str(" · elapsed ");
    r.append(format_duration(c.elapsed_millis).as_str());
    match estimate_remaining(c) {
        Some(e) => {
            if useful_estimate(e.lower_millis, e.upper_millis) {
                r.append(" · estimated ");
                r.append(format_duration(e.lower_millis).as_str());
                r.append("–");
                r.append(format_duration(e.upper_millis).as_str());
                r.append(" remaining");
            }
        },
        None => {},
    }
    r
}

/// One field of the timing summary: the phase's label and duration, where
/// it took any time.
pub open spec fn summary_field(phases: Seq<(String, u64)>, key: Seq<char>, label: Seq<char>) -> Seq<Seq<char>> {
    match phase_of(phases, key) {
        Some(m) => if m > 0 {
            seq![label + " "@ + duration_text(m as nat)]
        } else {
            Seq::empty()
        },
        None => Seq::empty(),
    }
}

/// The timing line of a finished build.
pub open spec fn timing_summary_text(total: u64, phases: Seq<(String, u64)>) -> Seq<char> {
    crate::diagnostics::join_with(
        seq!["build timing: total "@ + duration_text(total as nat)] + summary_field(phases, "toolchain"@, "toolchain"@)
            + summary_field(phases, "packages"@, "packages"@) + summary_field(phases, "format"@, "format"@)
            + summary_field(phases, "engine-discovery"@, "discovery engines"@) + summary_field(
            phases,
            "engine-final"@,
            "final engines"@,
        ) + summary_field(phases, "bibliography"@, "bibliography"@) + summary_field(phases, "index"@, "indexes"@),
        " · "@,
    )
}

fn push_field(fields: &mut Vec<String>, phases: &Vec<(String, u64)>, key: &str, label: &str)
    ensures
        crate::setup::strings_view(final(fields)@) == crate::setup::strings_view(old(fields)@) + summary_field(phases@, key@, label@),
{
    let ghost before = crate::setup::strings_view(fields@);
    match phase(phases, key) {
        Some(m) => {
            if m > 0 {
                let mut f = String::from_str(label);
                f.append(" ");
                f.append(format_duration(m).as_str());
                fields.push(f);
                assert(crate::setup::strings_view(fields@) =~= before + summary_field(phases@, key@, label@));
            } else {
                assert(crate::setup::strings_view(fields@) =~= before + summary_field(phases@, key@, label@));
            }
        },
        None => {
            assert(crate::setup::strings_view(fields@) =~= before + summary_field(phases@, key@, label@));
        },
    }
}

pub fn timing_summary(total: u64, phases: &Vec<(String, u64)>) -> (r: String)
    ensures
        r@ == timing_summary_text(total, phases@),
{
    let mut first = String::from_str("build timing: total ");
    first.append(format_duration(total).as_str());
    let mut fields: Vec<String> = Vec::new();
    fields.push(first);
    let ghost head = crate::setup::strings_view(fields@);
    assert(head =~= seq!["build timing: total "@ + duration_text(total as nat)]);
    push_field(&mut fields, phases, "toolchain", "toolchain");
    push_field(&mut fields, phases, "packages", "packages");
    push_field(&mut fields, phases, "format", "format");
    push_field(&mut fields, phases, "engine-discovery", "discovery engines");
    push_field(&mut fields, phases, "engine-final", "final engines");
    push_field(&mut fields, phases, "bibliography", "bibliography");
    push_field(&mut fields, phases, "index", "indexes");
    crate::diagnostics::join_strings(&fields, " · ")
}

} // verus!
