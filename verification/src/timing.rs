//! The timing history a project keeps, and the progress state of one build:
//! what each phase took, when an estimate is announced, and the sample a
//! finished build adds to the history.
use vstd::prelude::*;
use crate::estimate::{
    comparable_indices, comparable_samples, comparable_totals, estimate_remaining, lemma_comparable_below, median,
    median_of, phase_of, remaining_estimate, totals_at, EstimateContext, RemainingEstimate, TimingSample,
};
use crate::progress::{duration_text, format_duration, phase_key, sat_mul, PhaseKind};
use crate::text::chars_of;

verus! {

pub const HISTORY_SCHEMA: &'static str = "texe.timing-history/v1";

/// The most samples a timing history keeps.
pub const MAX_SAMPLES: usize = 20;

/// The timing history of a project: its most recent builds, oldest first.
#[derive(Debug, Clone)]
pub struct TimingHistory {
    pub schema: String,
    pub samples: Vec<TimingSample>,
}

impl Default for TimingHistory {
    fn default() -> (r: Self)
        ensures
            r.schema@ == HISTORY_SCHEMA@,
            r.samples@.len() == 0,
    {
        TimingHistory { schema: String::from_str(HISTORY_SCHEMA), samples: Vec::new() }
    }
}

/// A history read back counts only under the schema this texe writes;
/// any other starts over empty.
pub fn accept_history(history: TimingHistory) -> (r: TimingHistory)
    ensures
        history.schema@ == HISTORY_SCHEMA@ ==> r == history,
        history.schema@ != HISTORY_SCHEMA@ ==> r.schema@ == HISTORY_SCHEMA@ && r.samples@.len() == 0,
{
    if crate::text::eq_str(&chars_of(history.schema.as_str()), HISTORY_SCHEMA) {
        history
    } else {
        TimingHistory::default()
    }
}

/// The samples kept once `sample` is added: the newest `MAX_SAMPLES`.
pub open spec fn kept_samples(samples: Seq<TimingSample>, sample: TimingSample) -> Seq<TimingSample> {
    let all = samples.push(sample);
    if all.len() > MAX_SAMPLES {
        all.subrange(all.len() - MAX_SAMPLES, all.len() as int)
    } else {
        all
    }
}

/// Adds a finished build to the history, dropping the oldest samples
/// beyond `MAX_SAMPLES`.
pub fn record_sample(history: &mut TimingHistory, sample: TimingSample)
    ensures
        final(history).schema == old(history).schema,
        final(history).samples@ == kept_samples(old(history).samples@, sample),
{
    let ghost all = history.samples@.push(sample);
    history.samples.push(sample);
    if history.samples.len() <= MAX_SAMPLES {
        return;
    }
    while history.samples.len() > MAX_SAMPLES
        invariant
            history.samples@.len() >= MAX_SAMPLES,
            all.len() >= history.samples@.len(),
            history.samples@ == all.subrange(all.len() - history.samples@.len(), all.len() as int),
            history.schema == old(history).schema,
        decreases history.samples.len(),
    {
        let ghost before = history.samples@;
        history.samples.remove(0);
        assert(history.samples@ =~= all.subrange(all.len() - history.samples@.len(), all.len() as int));
    }
    assert(all.subrange(0, all.len() as int) =~= all);
}

/// The phase timings as keys and milliseconds.
pub open spec fn phases_view(p: Seq<(String, u64)>) -> Seq<(Seq<char>, u64)> {
    p.map_values(|x: (String, u64)| (x.0@, x.1))
}

pub fn clone_phases(phases: &Vec<(String, u64)>) -> (r: Vec<(String, u64)>)
    ensures
        phases_view(r@) == phases_view(phases@),
{
    let mut r: Vec<(String, u64)> = Vec::new();
    let mut i: usize = 0;
    while i < phases.len()
        invariant
            i <= phases.len(),
            phases_view(r@) == phases_view(phases@.subrange(0, i as int)),
        decreases phases.len() - i,
    {
        let key = String::from_str(phases[i].0.as_str());
        r.push((key, phases[i].1));
        assert(phases_view(phases@.subrange(0, i + 1)) =~= phases_view(phases@.subrange(0, i as int)).push((phases@[i as int].0@, phases@[i as int].1)));
        assert(phases_view(r@) =~= phases_view(phases@.subrange(0, i + 1)));
        i += 1;
    }
    assert(phases@.subrange(0, phases@.len() as int) =~= phases@);
    r
}

proof fn lemma_phase_absent(s: Seq<(String, u64)>, k: Seq<char>)
    requires
        forall|j: int| 0 <= j < s.len() ==> (#[trigger] s[j]).0@ != k,
    ensures
        phase_of(s, k) is None,
    decreases s.len(),
{
    if s.len() > 0 {
        assert forall|j: int| 0 <= j < s.drop_first().len() implies (#[trigger] s.drop_first()[j]).0@ != k by {
            assert(s.drop_first()[j] == s[j + 1]);
        }
        lemma_phase_absent(s.drop_first(), k);
    }
}

proof fn lemma_phase_update(s: Seq<(String, u64)>, i: int, x: (String, u64), k: Seq<char>)
    requires
        0 <= i < s.len(),
        x.0@ == s[i].0@,
        forall|j: int| 0 <= j < i ==> (#[trigger] s[j]).0@ != s[i].0@,
    ensures
        phase_of(s, s[i].0@) == Some(s[i].1),
        phase_of(s.update(i, x), k) == if k == s[i].0@ {
            Some(x.1)
        } else {
            phase_of(s, k)
        },
    decreases s.len(),
{
    let u = s.update(i, x);
    if i > 0 {
        assert(u[0] == s[0]);
        assert(u.drop_first() =~= s.drop_first().update(i - 1, x));
        assert forall|j: int| 0 <= j < i - 1 implies (#[trigger] s.drop_first()[j]).0@ != s.drop_first()[i - 1].0@ by {
            assert(s.drop_first()[j] == s[j + 1]);
        }
        lemma_phase_update(s.drop_first(), i - 1, x, k);
        assert(s.drop_first()[i - 1] == s[i]);
    } else {
        assert(u.drop_first() =~= s.drop_first());
    }
}

proof fn lemma_phase_push(s: Seq<(String, u64)>, x: (String, u64), k: Seq<char>)
    ensures
        phase_of(s.push(x), k) == match phase_of(s, k) {
            Some(v) => Some(v),
            None => if x.0@ == k {
                Some(x.1)
            } else {
                None
            },
        },
    decreases s.len(),
{
    if s.len() == 0 {
        assert(s.push(x)[0] == x);
        assert(s.push(x).drop_first() =~= Seq::<(String, u64)>::empty());
        assert(phase_of(s.push(x).drop_first(), k) is None);
    } else {
        assert(s.push(x)[0] == s[0]);
        assert(s.push(x).drop_first() =~= s.drop_first().push(x));
        lemma_phase_push(s.drop_first(), x, k);
    }
}

/// Adds `millis` to what is recorded under `key`, which starts at zero.
pub fn add_phase_millis(phases: &mut Vec<(String, u64)>, key: &str, millis: u64)
    requires
        phase_of(old(phases)@, key@) matches Some(v) ==> v + millis <= u64::MAX,
    ensures
        phase_of(final(phases)@, key@) == Some(
            (match phase_of(old(phases)@, key@) {
                Some(v) => v + millis,
                None => millis as int,
            }) as u64,
        ),
        forall|k: Seq<char>| k != key@ ==> phase_of(final(phases)@, k) == phase_of(old(phases)@, k),
{
    let mut i: usize = 0;
    while i < phases.len()
        invariant
            i <= phases.len(),
            phases@ == old(phases)@,
            phase_of(old(phases)@, key@) matches Some(v) ==> v + millis <= u64::MAX,
            forall|j: int| 0 <= j < i ==> (#[trigger] phases@[j]).0@ != key@,
        decreases phases.len() - i,
    {
        if crate::text::eq_str(&chars_of(phases[i].0.as_str()), key) {
            let ghost s = phases@;
            let name = String::from_str(phases[i].0.as_str());
            proof {
                assert(s[i as int].0@ == key@);
                lemma_phase_update(s, i as int, (name, 0u64), key@);
            }
            let total = phases[i].1 + millis;
            let entry = (name, total);
            phases.set(i, entry);
            proof {
                assert forall|k: Seq<char>| k != key@ implies phase_of(phases@, k) == phase_of(s, k) by {
                    lemma_phase_update(s, i as int, entry, k);
                }
                lemma_phase_update(s, i as int, entry, key@);
            }
            return;
        }
        i += 1;
    }
    let ghost s = phases@;
    proof {
        lemma_phase_absent(s, key@);
    }
    let entry = (String::from_str(key), millis);
    phases.push(entry);
    proof {
        assert forall|k: Seq<char>| k != key@ implies phase_of(phases@, k) == phase_of(s, k) by {
            lemma_phase_push(s, entry, k);
        }
        lemma_phase_push(s, entry, key@);
    }
}

/// The range `begin` announces: 80–130% of the median total of the
/// comparable builds.
#[derive(Debug, Clone, Copy, PartialEq, Eq, Structural)]
pub struct BuildEstimate {
    pub lower_millis: u64,
    pub upper_millis: u64,
    pub comparable: usize,
}

/// The progress state of one build.
#[derive(Debug, Clone)]
pub struct ProgressState {
    pub context: EstimateContext,
    /// Whether this build already said what it expects to take.
    pub estimate_announced: bool,
}

/// Everything but the mode of a first or incremental build is kept.
pub open spec fn same_context_but_mode(a: EstimateContext, b: EstimateContext) -> bool {
    &&& a.engine == b.engine
    &&& a.frozen == b.frozen
    &&& a.max_passes == b.max_passes
    &&& a.samples == b.samples
    &&& a.phase_millis == b.phase_millis
    &&& a.engine_millis == b.engine_millis
    &&& a.package_plan == b.package_plan
    &&& a.elapsed_millis == b.elapsed_millis
}

/// Everything but the phase timings is kept.
pub open spec fn same_context_but_phases(a: EstimateContext, b: EstimateContext) -> bool {
    &&& a.engine == b.engine
    &&& a.frozen == b.frozen
    &&& a.incremental == b.incremental
    &&& a.max_passes == b.max_passes
    &&& a.samples == b.samples
    &&& a.package_plan == b.package_plan
    &&& a.elapsed_millis == b.elapsed_millis
}

/// Whether a first engine pass of `millis` is worth a first estimate: the
/// first pass, with no comparable build to go by, that took ten seconds.
pub open spec fn first_pass_estimate_due(before: EstimateContext, kind: PhaseKind, millis: u64) -> bool {
    &&& (kind == PhaseKind::EngineDiscovery || kind == PhaseKind::EngineFinal)
    &&& before.engine_millis@.len() == 0
    &&& comparable_indices(before).len() == 0
    &&& millis >= 10000
}

proof fn lemma_indices_in_range(c: EstimateContext)
    ensures
        forall|i: int| 0 <= i < comparable_indices(c).len() ==> 0 <= #[trigger] comparable_indices(c)[i] < c.samples@.len(),
{
    lemma_comparable_below(c.samples@, c.engine@, c.frozen, c.incremental, c.samples@.len() as int, 5);
}

impl ProgressState {
    /// A build starts: it is a first or an incremental build, and where
    /// comparable builds exist, their median total gives the announced
    /// estimate.
    pub fn begin(&mut self, incremental: bool) -> (r: Option<BuildEstimate>)
        ensures
            final(self).context.incremental == incremental,
            same_context_but_mode(final(self).context, old(self).context),
            ({
                let idx = comparable_indices(final(self).context);
                if idx.len() == 0 {
                    r is None && final(self).estimate_announced == old(self).estimate_announced
                } else {
                    let total = median_of(totals_at(final(self).context, idx));
                    &&& final(self).estimate_announced
                    &&& r matches Some(e)
                    &&& e.comparable == idx.len()
                    &&& e.lower_millis == sat_mul(total as nat, 4) / 5
                    &&& e.upper_millis == sat_mul(total as nat, 13) / 10
                }
            }),
    {
        self.context.incremental = incremental;
        let idx = comparable_samples(&self.context);
        proof {
            lemma_indices_in_range(self.context);
            assert forall|i: int| 0 <= i < idx@.len() implies #[trigger] idx@[i] < self.context.samples@.len() by {
                assert(idx@.map_values(|i: usize| i as int)[i] == idx@[i] as int);
            }
        }
        if idx.len() == 0 {
            return None;
        }
        let totals = comparable_totals(&self.context, &idx);
        let total = median(&totals);
        self.estimate_announced = true;
        Some(
            BuildEstimate {
                lower_millis: crate::progress::saturating_mul(total, 4) / 5,
                upper_millis: crate::progress::saturating_mul(total, 13) / 10,
                comparable: idx.len(),
            },
        )
    }

    /// A rebuild is needed: whether to say that no estimate exists yet,
    /// which is said once, and only where no estimate was announced.
    pub fn announce_rebuild(&mut self) -> (r: bool)
        ensures
            r == !old(self).estimate_announced,
            final(self).estimate_announced,
            final(self).context == old(self).context,
    {
        if self.estimate_announced {
            false
        } else {
            self.estimate_announced = true;
            true
        }
    }

    /// A phase ended after `millis`: its time is added to the phase's total,
    /// an engine pass is counted, and the first long engine pass of a build
    /// without comparable history yields a first estimate of what remains.
    pub fn record_phase(&mut self, kind: PhaseKind, millis: u64) -> (r: Option<RemainingEstimate>)
        requires
            old(self).context.max_passes <= usize::MAX - 4,
            phase_of(old(self).context.phase_millis@, phase_key(kind)) matches Some(v) ==> v + millis <= u64::MAX,
        ensures
            final(self).estimate_announced == old(self).estimate_announced,
            same_context_but_phases(final(self).context, old(self).context),
            phase_of(final(self).context.phase_millis@, phase_key(kind)) == Some(
                (match phase_of(old(self).context.phase_millis@, phase_key(kind)) {
                    Some(v) => v + millis,
                    None => millis as int,
                }) as u64,
            ),
            forall|k: Seq<char>|
                k != phase_key(kind) ==> phase_of(final(self).context.phase_millis@, k) == phase_of(
                    old(self).context.phase_millis@,
                    k,
                ),
            final(self).context.engine_millis@ == if kind == PhaseKind::EngineDiscovery || kind == PhaseKind::EngineFinal {
                old(self).context.engine_millis@.push(millis)
            } else {
                old(self).context.engine_millis@
            },
            match r {
                Some(e) => first_pass_estimate_due(old(self).context, kind, millis) && remaining_estimate(
                    final(self).context,
                ) == Some((e.lower_millis as nat, e.upper_millis as nat)),
                None => !first_pass_estimate_due(old(self).context, kind, millis) || remaining_estimate(
                    final(self).context,
                ) is None,
            },
    {
        let ghost before = self.context;
        let due_before = self.context.engine_millis.len() == 0 && comparable_samples(&self.context).len() == 0;
        add_phase_millis(&mut self.context.phase_millis, kind.key(), millis);
        if kind.is_engine() {
            self.context.engine_millis.push(millis);
            if due_before && millis >= 10000 {
                proof {
                    assert(comparable_indices(self.context) == comparable_indices(before));
                }
                return estimate_remaining(&self.context);
            }
        }
        None
    }

    /// The sample this build adds to the timing history.
    pub fn sample(
        &self,
        engine_passes: usize,
        bibliography_runs: usize,
        index_runs: usize,
        convergence_rounds: usize,
        environment_fingerprint: &str,
    ) -> (r: TimingSample)
        ensures
            r.engine@ == self.context.engine@,
            r.frozen == self.context.frozen,
            r.incremental == self.context.incremental,
            r.total_millis == self.context.elapsed_millis,
            phases_view(r.phase_millis@) == phases_view(self.context.phase_millis@),
            r.engine_passes == engine_passes,
            r.bibliography_runs == bibliography_runs,
            r.index_runs == index_runs,
            r.convergence_rounds == convergence_rounds,
            r.environment_fingerprint@ == environment_fingerprint@,
            r.package_plan == self.context.package_plan,
    {
        TimingSample {
            engine: String::from_str(self.context.engine.as_str()),
            frozen: self.context.frozen,
            incremental: self.context.incremental,
            total_millis: self.context.elapsed_millis,
            phase_millis: clone_phases(&self.context.phase_millis),
            engine_passes,
            bibliography_runs,
            index_runs,
            convergence_rounds,
            environment_fingerprint: String::from_str(environment_fingerprint),
            package_plan: self.context.package_plan,
        }
    }
}

/// What a verbose build says when it starts with comparable history.
pub open spec fn begin_message_text(e: BuildEstimate) -> Seq<char> {
    let plural: Seq<char> = if e.comparable == 1 {
        ""@
    } else {
        "s"@
    };
    "texe: if a rebuild is needed, estimated build time "@ + duration_text(e.lower_millis as nat) + "–"@ + duration_text(
        e.upper_millis as nat,
    ) + " (from "@ + crate::numbers::decimal(e.comparable as nat) + " comparable local build"@ + plural + ")"@
}

pub fn begin_message(e: BuildEstimate) -> (r: String)
    ensures
        r@ == begin_message_text(e),
{
    let mut r = String::from_str("texe: if a rebuild is needed, estimated build time ");
    r.append(format_duration(e.lower_millis).as_str());
    r.append("–");
    r.append(format_duration(e.upper_millis).as_str());
    r.append(" (from ");
    crate::numbers::push_decimal(&mut r, e.comparable as u64);
    r.append(" comparable local build");
    if e.comparable != 1 {
        r.append("s");
    } else {
        proof {
            reveal_strlit("");
        }
        assert(r@ + ""@ =~= r@);
    }
    r.append(")");
    r
}

/// What a verbose build says of a phase that took two seconds or more.
pub open spec fn phase_message_text(label: Seq<char>, succeeded: bool, millis: u64) -> Option<Seq<char>> {
    if millis < 2000 {
        None
    } else {
        let outcome: Seq<char> = if succeeded {
            "completed "@
        } else {
            "failed "@
        };
        let since: Seq<char> = if succeeded {
            " in "@
        } else {
            " after "@
        };
        Some("texe: "@ + outcome + label + since + duration_text(millis as nat))
    }
}

pub fn phase_message(label: &str, succeeded: bool, millis: u64) -> (r: Option<String>)
    ensures
        crate::trace::opt_string_view(r) == phase_message_text(label@, succeeded, millis),
{
    if millis < 2000 {
        return None;
    }
    let mut r = String::from_str("texe: ");
    r.append(if succeeded { "completed " } else { "failed " });
    r.append(label);
    r.append(if succeeded { " in " } else { " after " });
    r.append(format_duration(millis).as_str());
    Some(r)
}

/// What the first long engine pass suggests, as a verbose build says it.
pub open spec fn first_pass_message_text(e: RemainingEstimate) -> Seq<char> {
    "texe: first engine pass suggests about "@ + duration_text(e.lower_millis as nat) + "–"@ + duration_text(
        e.upper_millis as nat,
    ) + " remaining (low confidence; this narrows after a comparable local build)"@
}

pub fn first_pass_message(e: RemainingEstimate) -> (r: String)
    ensures
        r@ == first_pass_message_text(e),
{
    let mut r = String::from_str("texe: first engine pass suggests about ");
    r.append(format_duration(e.lower_millis).as_str());
    r.append("–");
    r.append(format_duration(e.upper_millis).as_str());
    r.append(" remaining (low confidence; this narrows after a comparable local build)");
    r
}

/// The live bar's message once the first long engine pass gave an estimate.
pub open spec fn first_pass_status_text(e: RemainingEstimate) -> Seq<char> {
    "Building PDF · about "@ + duration_text(e.lower_millis as nat) + "–"@ + duration_text(e.upper_millis as nat)
        + " remaining"@
}

pub fn first_pass_status(e: RemainingEstimate) -> (r: String)
    ensures
        r@ == first_pass_status_text(e),
{
    let mut r = String::from_str("Building PDF · about ");
    r.append(format_duration(e.lower_millis).as_str());
    r.append("–");
    r.append(format_duration(e.upper_millis).as_str());
    r.append(" remaining");
    r
}

} // verus!
