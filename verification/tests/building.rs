use texe::building::{
    build_plan, build_warnings, discovery_label, discovery_start, discovery_step, no_artifact,
    not_converged, pass_step, passes_start, unstable_failure, BuildPlan, DiscoveryAction,
    DiscoveryPhase, PassAction, PassOutcome, RunOutcome, MAX_CONVERGENCE_ROUNDS,
    SHELL_ESCAPE_WARNING, UNMANAGED_WARNING,
};
use texe::error::TexeError;
use texe::package::Convergence;

fn run(convergence: Convergence, providers_required: bool, succeeded: bool) -> RunOutcome {
    RunOutcome { convergence, providers_required, succeeded }
}

#[test]
fn only_pinned_unforced_current_builds_are_reused() {
    assert_eq!(build_plan("managed", false, false, false, false, true, true), BuildPlan::Reuse);
    assert_eq!(build_plan("managed", false, false, true, false, true, true), BuildPlan::Build { discover: true });
    assert_eq!(build_plan("system", false, false, false, false, true, true), BuildPlan::Build { discover: true });
    assert_eq!(build_plan("managed", true, false, false, false, true, false), BuildPlan::Build { discover: false });
    assert_eq!(build_plan("managed", false, true, false, false, true, true), BuildPlan::Build { discover: true });
    assert_eq!(build_plan("managed", false, false, false, true, false, true), BuildPlan::Build { discover: false });
    assert_eq!(build_warnings(true, true), [SHELL_ESCAPE_WARNING, UNMANAGED_WARNING]);
    assert!(build_warnings(false, false).is_empty());
}

#[test]
fn discovery_converges_verifies_and_fails() {
    let start = discovery_start();
    assert_eq!(discovery_label(start.round), "discovering runtime packages (1/16)");
    let (s, a) = discovery_step(start, run(Convergence::Changed, false, false));
    assert_eq!((s.round, s.changed_rounds, a), (2, 1, DiscoveryAction::Discover { refresh: true }));
    let (s, a) = discovery_step(s, run(Convergence::Stable, true, true));
    assert_eq!((s.round, s.changed_rounds, a), (3, 1, DiscoveryAction::Discover { refresh: false }));
    let (s, a) = discovery_step(s, run(Convergence::Stable, false, false));
    assert_eq!((s.phase, a), (DiscoveryPhase::Verifying, DiscoveryAction::Verify));
    let (_, a) = discovery_step(s, run(Convergence::Stable, false, false));
    assert_eq!(a, DiscoveryAction::EngineFailed);
    let (_, a) = discovery_step(s, run(Convergence::Stable, false, true));
    assert_eq!(a, DiscoveryAction::Converged);
}

#[test]
fn discovery_gives_up_after_sixteen_changing_rounds() {
    let mut s = discovery_start();
    let mut runs = 0;
    loop {
        let (next, action) = discovery_step(s, run(Convergence::Changed, false, false));
        runs += 1;
        s = next;
        if action == DiscoveryAction::NotConverged {
            break;
        }
    }
    assert_eq!(runs, MAX_CONVERGENCE_ROUNDS);
    assert!(matches!(not_converged(), TexeError::Build(m) if m == "package environment did not converge after 16 rounds"));
}

#[test]
fn final_passes_stop_once_the_auxiliary_files_settle() {
    let outcome = |tools_ran: bool, auxiliary_unchanged: bool| PassOutcome {
        run: run(Convergence::Stable, false, true),
        tools_ran,
        auxiliary_unchanged,
    };
    let s = passes_start(0);
    let (_, a) = pass_step(s, 8, outcome(false, true));
    assert_eq!(a, PassAction::Stable);
    let (s, a) = pass_step(s, 8, outcome(true, false));
    assert_eq!((s.pass, a), (2, PassAction::Next { refresh: false, snapshot: true }));
    let (s, a) = pass_step(s, 8, PassOutcome { run: run(Convergence::Changed, false, true), tools_ran: false, auxiliary_unchanged: true });
    assert_eq!((s.pass, s.convergence_rounds, s.seeded, a), (3, 1, false, PassAction::Next { refresh: true, snapshot: false }));
    let (s, a) = pass_step(s, 8, outcome(false, true));
    assert_eq!((s.seeded, a), (true, PassAction::Next { refresh: false, snapshot: true }));
    let (_, a) = pass_step(s, 8, PassOutcome { run: run(Convergence::Stable, false, false), tools_ran: false, auxiliary_unchanged: true });
    assert_eq!(a, PassAction::EngineFailed);
    let last = passes_start(0);
    let (_, a) = pass_step(last, 1, outcome(false, false));
    assert_eq!(a, PassAction::Unstable);
    let full = passes_start(MAX_CONVERGENCE_ROUNDS);
    let (_, a) = pass_step(full, 8, PassOutcome { run: run(Convergence::Changed, false, true), tools_ran: false, auxiliary_unchanged: false });
    assert_eq!(a, PassAction::NotConverged);
    assert!(matches!(
        unstable_failure("pdflatex", 8, Some("/p/.texe/build/output/main.pdf")),
        TexeError::Build(m) if m == "pdflatex auxiliary state did not stabilize after 8 frozen passes (latest artifact: /p/.texe/build/output/main.pdf)"
    ));
    assert!(matches!(
        no_artifact("pdflatex", "/p/out"),
        TexeError::Build(m) if m == "pdflatex succeeded but produced no PDF or DVI in /p/out"
    ));
}
