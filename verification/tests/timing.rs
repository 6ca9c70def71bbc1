use texe::estimate::{phase, EstimateContext, RemainingEstimate, TimingSample};
use texe::progress::PhaseKind;
use texe::timing::{
    accept_history, begin_message, first_pass_message, first_pass_status, phase_message,
    record_sample, BuildEstimate, ProgressState, TimingHistory, HISTORY_SCHEMA, MAX_SAMPLES,
};

fn sample(incremental: bool, total_millis: u64) -> TimingSample {
    TimingSample {
        engine: "pdflatex".to_string(),
        frozen: false,
        incremental,
        total_millis,
        phase_millis: Vec::new(),
        engine_passes: 2,
        bibliography_runs: 0,
        index_runs: 0,
        convergence_rounds: 0,
        environment_fingerprint: "sha256:test".to_string(),
        package_plan: None,
    }
}

fn state(samples: Vec<TimingSample>, elapsed_millis: u64) -> ProgressState {
    ProgressState {
        context: EstimateContext {
            engine: "pdflatex".to_string(),
            frozen: false,
            incremental: false,
            max_passes: 8,
            samples,
            phase_millis: Vec::new(),
            engine_millis: Vec::new(),
            package_plan: None,
            elapsed_millis,
        },
        estimate_announced: false,
    }
}

#[test]
fn timing_history_keeps_only_the_newest_samples() {
    let mut history = TimingHistory::default();
    for total in 0..25u64 {
        record_sample(&mut history, sample(false, total));
    }
    assert_eq!(history.samples.len(), MAX_SAMPLES);
    assert_eq!(history.samples.first().map(|s| s.total_millis), Some(5));
    assert_eq!(history.samples.last().map(|s| s.total_millis), Some(24));
    assert_eq!(history.schema, HISTORY_SCHEMA);
}

#[test]
fn timing_history_of_another_schema_starts_over() {
    let kept = accept_history(TimingHistory {
        schema: HISTORY_SCHEMA.to_string(),
        samples: vec![sample(false, 7)],
    });
    assert_eq!(kept.samples.len(), 1);
    let dropped = accept_history(TimingHistory {
        schema: "texe.timing-history/v0".to_string(),
        samples: vec![sample(false, 7)],
    });
    assert!(dropped.samples.is_empty());
    assert_eq!(dropped.schema, HISTORY_SCHEMA);
}

#[test]
fn comparable_builds_announce_a_range_around_their_median() {
    let mut progress = state(
        vec![sample(true, 10_000), sample(true, 20_000), sample(true, 30_000), sample(false, 90_000)],
        0,
    );
    let estimate = progress.begin(true).expect("estimate");
    assert_eq!(
        estimate,
        BuildEstimate { lower_millis: 16_000, upper_millis: 26_000, comparable: 3 }
    );
    assert!(progress.estimate_announced);
    assert!(!progress.announce_rebuild());
    assert_eq!(
        begin_message(estimate),
        "texe: if a rebuild is needed, estimated build time 16s–26s (from 3 comparable local builds)"
    );
}

#[test]
fn a_build_without_history_announces_once_that_no_estimate_exists() {
    let mut progress = state(vec![sample(false, 10_000)], 0);
    assert_eq!(progress.begin(true), None);
    assert!(progress.announce_rebuild());
    assert!(!progress.announce_rebuild());
}

#[test]
fn recorded_phases_accumulate_under_their_key() {
    let mut progress = state(Vec::new(), 1_000);
    assert_eq!(progress.record_phase(PhaseKind::Package, 400), None);
    assert_eq!(progress.record_phase(PhaseKind::Package, 600), None);
    assert_eq!(progress.record_phase(PhaseKind::EngineDiscovery, 900), None);
    assert_eq!(phase(&progress.context.phase_millis, "packages"), Some(1_000));
    assert_eq!(phase(&progress.context.phase_millis, "engine-discovery"), Some(900));
    assert_eq!(progress.context.engine_millis, vec![900]);
    let recorded = progress.sample(1, 0, 0, 1, "sha256:env");
    assert_eq!(recorded.total_millis, 1_000);
    assert_eq!(recorded.engine_passes, 1);
    assert_eq!(recorded.phase_millis.len(), 2);
}

#[test]
fn a_long_first_engine_pass_gives_a_first_estimate() {
    let mut progress = state(Vec::new(), 15_000);
    let estimate = progress
        .record_phase(PhaseKind::EngineDiscovery, 12_000)
        .expect("first estimate");
    assert_eq!(estimate, RemainingEstimate { lower_millis: 12_000, upper_millis: 132_000 });
    assert_eq!(
        first_pass_message(estimate),
        "texe: first engine pass suggests about 12s–2m 12s remaining (low confidence; this narrows after a comparable local build)"
    );
    assert_eq!(first_pass_status(estimate), "Building PDF · about 12s–2m 12s remaining");
    assert_eq!(progress.record_phase(PhaseKind::EngineFinal, 12_000), None);
}

#[test]
fn short_phases_are_not_reported() {
    assert_eq!(phase_message("Building PDF", true, 1_999), None);
    assert_eq!(
        phase_message("Building PDF", true, 2_000).as_deref(),
        Some("texe: completed Building PDF in 2s")
    );
    assert_eq!(
        phase_message("Resolving packages", false, 61_000).as_deref(),
        Some("texe: failed Resolving packages after 1m 01s")
    );
}
