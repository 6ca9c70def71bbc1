//! How a build proceeds: whether the last build can be reused, the package
//! discovery rounds, and the final engine passes until the auxiliary files
//! stop changing. Each is a step from a state and what the last engine run
//! showed to the next state and what to do next; the caller runs the engine,
//! pqty and the filesystem.
use vstd::prelude::*;
use crate::error::TexeError;
use crate::numbers::{decimal, push_decimal};
use crate::package::Convergence;
use crate::text::{chars_of, eq_str};

verus! {

/// The most package-convergence rounds a build makes.
pub const MAX_CONVERGENCE_ROUNDS: usize = 16;

/// What a build does first.
#[derive(Debug, Clone, Copy, PartialEq, Eq, Structural)]
pub enum BuildPlan {
    /// Report the last build again: nothing it read has changed.
    Reuse,
    /// Build, discovering packages first where `discover`.
    Build { discover: bool },
}

/// A build can be reused only where everything it ran is pinned: the
/// managed provider, no shell escape, no unmanaged command overrides.
pub open spec fn cacheable(provider: Seq<char>, shell_escape: bool, unmanaged: bool) -> bool {
    provider == "managed"@ && !shell_escape && !unmanaged
}

/// The last build is reused where the build is cacheable, not forced, and
/// the last build is current; otherwise discovery runs unless `--frozen`
/// or the package environment is the one that last built here.
pub open spec fn build_plan_of(
    provider: Seq<char>,
    shell_escape: bool,
    unmanaged: bool,
    force: bool,
    frozen: bool,
    has_current_build: bool,
    discovery_required: bool,
) -> BuildPlan {
    if cacheable(provider, shell_escape, unmanaged) && !force && has_current_build {
        BuildPlan::Reuse
    } else {
        BuildPlan::Build { discover: !frozen && discovery_required }
    }
}

/// See [`build_plan_of`]. `has_current_build` matters only where the build
/// is cacheable and not forced, the only case in which it is looked for.
pub fn build_plan(
    provider: &str,
    shell_escape: bool,
    unmanaged: bool,
    force: bool,
    frozen: bool,
    has_current_build: bool,
    discovery_required: bool,
) -> (r: BuildPlan)
    ensures
        r == build_plan_of(provider@, shell_escape, unmanaged, force, frozen, has_current_build, discovery_required),
{
    if eq_str(&chars_of(provider), "managed") && !shell_escape && !unmanaged && !force && has_current_build {
        BuildPlan::Reuse
    } else {
        BuildPlan::Build { discover: !frozen && discovery_required }
    }
}

pub const SHELL_ESCAPE_WARNING: &'static str = "texe: warning: shell escape is enabled; external commands and their inputs are not pinned by texe.lock";

pub const UNMANAGED_WARNING: &'static str = "texe: warning: unmanaged command overrides are enabled; project or host commands may execute and the no-op build cache is disabled";

/// The warnings a build starts with: shell escape, then unmanaged commands.
pub open spec fn build_warnings_of(shell_escape: bool, unmanaged: bool) -> Seq<Seq<char>> {
    (if shell_escape { seq![SHELL_ESCAPE_WARNING@] } else { Seq::empty() }) + (if unmanaged {
        seq![UNMANAGED_WARNING@]
    } else {
        Seq::empty()
    })
}

pub fn build_warnings(shell_escape: bool, unmanaged: bool) -> (r: Vec<&'static str>)
    ensures
        r@.map_values(|s: &'static str| s@) == build_warnings_of(shell_escape, unmanaged),
{
    let mut r: Vec<&'static str> = Vec::new();
    if shell_escape {
        r.push(SHELL_ESCAPE_WARNING);
    }
    if unmanaged {
        r.push(UNMANAGED_WARNING);
    }
    assert(r@.map_values(|s: &'static str| s@) =~= build_warnings_of(shell_escape, unmanaged));
    r
}

/// Which run of a discovery round comes next: the round's discovery run,
/// or a fresh fail-fast run verifying an environment that is stable but
/// whose discovery run failed.
#[derive(Debug, Clone, Copy, PartialEq, Eq, Structural)]
pub enum DiscoveryPhase {
    Discovering,
    Verifying,
}

/// Where package discovery stands: the round (from 1), its phase, and how
/// many rounds changed the package environment.
#[derive(Debug, Clone, Copy, PartialEq, Eq, Structural)]
pub struct DiscoveryState {
    pub round: usize,
    pub phase: DiscoveryPhase,
    pub changed_rounds: usize,
}

/// What one engine run showed, once its trace was reconciled with pqty:
/// whether the package environment stayed the same, whether runtime
/// providers had to be installed, and whether the engine succeeded.
#[derive(Debug, Clone, Copy, PartialEq, Eq, Structural)]
pub struct RunOutcome {
    pub convergence: Convergence,
    pub providers_required: bool,
    pub succeeded: bool,
}

/// What to do after a discovery run.
#[derive(Debug, Clone, Copy, PartialEq, Eq, Structural)]
pub enum DiscoveryAction {
    /// Run discovery for the state's round, refreshing the package
    /// environment first where `refresh`.
    Discover { refresh: bool },
    /// Run the fail-fast verification of the round.
    Verify,
    /// The environment converged and the document built.
    Converged,
    /// The environment converged and the engine failed: report its error.
    EngineFailed,
    /// No round converged: fail with [`not_converged_message`].
    NotConverged,
}

pub open spec fn discovery_wf(s: DiscoveryState) -> bool {
    1 <= s.round <= MAX_CONVERGENCE_ROUNDS && s.changed_rounds < s.round
}

/// The state discovery starts in, before its first run.
pub fn discovery_start() -> (r: DiscoveryState)
    ensures
        discovery_wf(r),
        r == (DiscoveryState { round: 1, phase: DiscoveryPhase::Discovering, changed_rounds: 0 }),
{
    DiscoveryState { round: 1, phase: DiscoveryPhase::Discovering, changed_rounds: 0 }
}

/// The next round, or the end (the state as it was) where this was the
/// last.
pub open spec fn next_round(s: DiscoveryState, changed: bool) -> (DiscoveryState, DiscoveryAction) {
    let c = if changed { (s.changed_rounds + 1) as usize } else { s.changed_rounds };
    if s.round >= MAX_CONVERGENCE_ROUNDS {
        (s, DiscoveryAction::NotConverged)
    } else {
        (
            DiscoveryState { round: (s.round + 1) as usize, phase: DiscoveryPhase::Discovering, changed_rounds: c },
            DiscoveryAction::Discover { refresh: changed },
        )
    }
}

/// A changed environment is refreshed and the next round runs; runtime
/// providers installed also start the next round; a stable, successful run
/// has converged; a stable discovery run that failed is verified by a fresh
/// fail-fast run, whose failure is the document's.
pub open spec fn discovery_transition(s: DiscoveryState, e: RunOutcome) -> (DiscoveryState, DiscoveryAction) {
    match e.convergence {
        Convergence::Changed => next_round(s, true),
        Convergence::Stable => if e.providers_required {
            next_round(s, false)
        } else if e.succeeded {
            (s, DiscoveryAction::Converged)
        } else {
            match s.phase {
                DiscoveryPhase::Discovering => (
                    DiscoveryState { phase: DiscoveryPhase::Verifying, ..s },
                    DiscoveryAction::Verify,
                ),
                DiscoveryPhase::Verifying => (s, DiscoveryAction::EngineFailed),
            }
        },
    }
}

/// See [`discovery_transition`].
pub fn discovery_step(s: DiscoveryState, e: RunOutcome) -> (r: (DiscoveryState, DiscoveryAction))
    requires
        discovery_wf(s),
    ensures
        r == discovery_transition(s, e),
        discovery_wf(r.0),
{
    let next = |changed: bool| -> (n: (DiscoveryState, DiscoveryAction))
        requires
            discovery_wf(s),
        ensures
            n == next_round(s, changed),
            discovery_wf(n.0),
    {
        let c = if changed { s.changed_rounds + 1 } else { s.changed_rounds };
        if s.round >= MAX_CONVERGENCE_ROUNDS {
            (s, DiscoveryAction::NotConverged)
        } else {
            (
                DiscoveryState { round: s.round + 1, phase: DiscoveryPhase::Discovering, changed_rounds: c },
                DiscoveryAction::Discover { refresh: changed },
            )
        }
    };
    match e.convergence {
        Convergence::Changed => next(true),
        Convergence::Stable => if e.providers_required {
            next(false)
        } else if e.succeeded {
            (s, DiscoveryAction::Converged)
        } else {
            match s.phase {
                DiscoveryPhase::Discovering => (
                    DiscoveryState { round: s.round, phase: DiscoveryPhase::Verifying, changed_rounds: s.changed_rounds },
                    DiscoveryAction::Verify,
                ),
                DiscoveryPhase::Verifying => (s, DiscoveryAction::EngineFailed),
            }
        },
    }
}

/// How many engine runs discovery may still make from a state: two per
/// remaining round at most (a discovery run and its verification).
pub open spec fn discovery_runs_left(s: DiscoveryState) -> int {
    2 * (MAX_CONVERGENCE_ROUNDS - s.round) + match s.phase {
        DiscoveryPhase::Discovering => 2int,
        DiscoveryPhase::Verifying => 1int,
    }
}

/// The progress label of a discovery round.
pub open spec fn discovery_label_of(round: nat) -> Seq<char> {
    "discovering runtime packages ("@ + decimal(round) + "/16)"@
}

pub fn discovery_label(round: usize) -> (r: String)
    requires
        round <= u64::MAX,
    ensures
        r@ == discovery_label_of(round as nat),
{
    let mut r = String::from_str("discovering runtime packages (");
    push_decimal(&mut r, round as u64);
    r.append("/16)");
    r
}

/// How a build fails when the package environment does not converge.
pub open spec fn not_converged_message() -> Seq<char> {
    "package environment did not converge after 16 rounds"@
}

pub fn not_converged() -> (r: TexeError)
    ensures
        r matches TexeError::Build(m) && m@ == not_converged_message(),
{
    TexeError::Build(String::from_str("package environment did not converge after 16 rounds"))
}

/// Where the final passes stand: the pass (from 1), the package-convergence
/// rounds of the whole build so far, and whether a snapshot of the
/// auxiliary files is held to compare the next pass against.
#[derive(Debug, Clone, Copy, PartialEq, Eq, Structural)]
pub struct PassState {
    pub pass: usize,
    pub convergence_rounds: usize,
    pub seeded: bool,
}

/// What a final pass showed, beyond [`RunOutcome`]: whether an auxiliary
/// tool (a bibliography or index processor) ran after it, and, where a
/// snapshot was held, whether the auxiliary files are the same as in it.
#[derive(Debug, Clone, Copy, PartialEq, Eq, Structural)]
pub struct PassOutcome {
    pub run: RunOutcome,
    pub tools_ran: bool,
    pub auxiliary_unchanged: bool,
}

/// What to do after a final pass.
#[derive(Debug, Clone, Copy, PartialEq, Eq, Structural)]
pub enum PassAction {
    /// Run the next pass; refresh the package environment first where
    /// `refresh`; hold a snapshot of the auxiliary files as they are now
    /// where `snapshot`, else drop any snapshot held.
    Next { refresh: bool, snapshot: bool },
    /// The auxiliary files stopped changing: publish the artifact, which
    /// the pass must have produced.
    Stable,
    /// The engine failed: report its error.
    EngineFailed,
    /// The package environment did not converge.
    NotConverged,
    /// The auxiliary files kept changing through every pass.
    Unstable,
}

pub open spec fn passes_wf(s: PassState, max_passes: usize) -> bool {
    1 <= s.pass <= max_passes && s.convergence_rounds <= MAX_CONVERGENCE_ROUNDS
}

/// The final passes start at pass 1, compared against what the last build
/// left in the output directory.
pub fn passes_start(convergence_rounds: usize) -> (r: PassState)
    requires
        convergence_rounds <= MAX_CONVERGENCE_ROUNDS,
    ensures
        r == (PassState { pass: 1, convergence_rounds, seeded: true }),
{
    PassState { pass: 1, convergence_rounds, seeded: true }
}

/// The next pass, or the end where this was the last.
pub open spec fn next_pass(s: PassState, max_passes: usize, refresh: bool, snapshot: bool, rounds: usize) -> (PassState, PassAction) {
    if s.pass >= max_passes {
        (PassState { convergence_rounds: rounds, seeded: snapshot, ..s }, PassAction::Unstable)
    } else {
        (
            PassState { pass: (s.pass + 1) as usize, convergence_rounds: rounds, seeded: snapshot },
            PassAction::Next { refresh, snapshot },
        )
    }
}

/// A changed environment counts a round (failing past the limit) and runs
/// again without a snapshot; installed providers run again without one; a
/// failed run fails the build; a run after which a processor rewrote the
/// auxiliary files runs again against them; otherwise the build is stable
/// where the auxiliary files match the snapshot, and runs again against
/// them where not.
pub open spec fn pass_transition(s: PassState, max_passes: usize, e: PassOutcome) -> (PassState, PassAction) {
    match e.run.convergence {
        Convergence::Changed => if s.convergence_rounds + 1 > MAX_CONVERGENCE_ROUNDS {
            (s, PassAction::NotConverged)
        } else {
            next_pass(s, max_passes, true, false, (s.convergence_rounds + 1) as usize)
        },
        Convergence::Stable => if e.run.providers_required {
            next_pass(s, max_passes, false, false, s.convergence_rounds)
        } else if !e.run.succeeded {
            (s, PassAction::EngineFailed)
        } else if e.tools_ran {
            next_pass(s, max_passes, false, true, s.convergence_rounds)
        } else if s.seeded && e.auxiliary_unchanged {
            (s, PassAction::Stable)
        } else {
            next_pass(s, max_passes, false, true, s.convergence_rounds)
        },
    }
}

/// See [`pass_transition`].
pub fn pass_step(s: PassState, max_passes: usize, e: PassOutcome) -> (r: (PassState, PassAction))
    requires
        passes_wf(s, max_passes),
    ensures
        r == pass_transition(s, max_passes, e),
        passes_wf(r.0, max_passes),
{
    let next = |refresh: bool, snapshot: bool, rounds: usize| -> (n: (PassState, PassAction))
        requires
            passes_wf(s, max_passes),
            rounds <= MAX_CONVERGENCE_ROUNDS,
        ensures
            n == next_pass(s, max_passes, refresh, snapshot, rounds),
            passes_wf(n.0, max_passes),
    {
        if s.pass >= max_passes {
            (PassState { pass: s.pass, convergence_rounds: rounds, seeded: snapshot }, PassAction::Unstable)
        } else {
            (PassState { pass: s.pass + 1, convergence_rounds: rounds, seeded: snapshot }, PassAction::Next { refresh, snapshot })
        }
    };
    match e.run.convergence {
        Convergence::Changed => if s.convergence_rounds + 1 > MAX_CONVERGENCE_ROUNDS {
            (s, PassAction::NotConverged)
        } else {
            next(true, false, s.convergence_rounds + 1)
        },
        Convergence::Stable => if e.run.providers_required {
            next(false, false, s.convergence_rounds)
        } else if !e.run.succeeded {
            (s, PassAction::EngineFailed)
        } else if e.tools_ran {
            next(false, true, s.convergence_rounds)
        } else if s.seeded && e.auxiliary_unchanged {
            (s, PassAction::Stable)
        } else {
            next(false, true, s.convergence_rounds)
        },
    }
}

/// How a build fails when the auxiliary files keep changing: the engine,
/// the number of passes, and the latest artifact where there is one.
pub open spec fn unstable_message_of(engine: Seq<char>, max_passes: nat, latest: Option<Seq<char>>) -> Seq<char> {
    engine + " auxiliary state did not stabilize after "@ + decimal(max_passes) + " frozen passes"@ + match latest {
        Some(p) => " (latest artifact: "@ + p + ")"@,
        None => Seq::empty(),
    }
}

pub fn unstable_failure(engine: &str, max_passes: usize, latest: Option<&str>) -> (r: TexeError)
    requires
        max_passes <= u64::MAX,
    ensures
        r matches TexeError::Build(m) && m@ == unstable_message_of(
            engine@,
            max_passes as nat,
            match latest {
                Some(p) => Some(p@),
                None => None,
            },
        ),
{
    let mut m = String::from_str(engine);
    m.append(" auxiliary state did not stabilize after ");
    push_decimal(&mut m, max_passes as u64);
    m.append(" frozen passes");
    match latest {
        Some(p) => {
            m.append(" (latest artifact: ");
            m.append(p);
            m.append(")");
        },
        None => {},
    }
    TexeError::Build(m)
}

/// How a stable build fails where it produced no artifact.
pub open spec fn no_artifact_message_of(engine: Seq<char>, output_dir: Seq<char>) -> Seq<char> {
    engine + " succeeded but produced no PDF or DVI in "@ + output_dir
}

pub fn no_artifact(engine: &str, output_dir: &str) -> (r: TexeError)
    ensures
        r matches TexeError::Build(m) && m@ == no_artifact_message_of(engine@, output_dir@),
{
    let mut m = String::from_str(engine);
    m.append(" succeeded but produced no PDF or DVI in ");
    m.append(output_dir);
    TexeError::Build(m)
}

} // verus!
