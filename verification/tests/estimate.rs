use texe::estimate::{
    estimate_remaining, estimate_total, guarded_range, live_remaining_status, live_total_status,
    median, package_aware_total_range, phase, remaining_suffix, timing_summary, EstimateContext,
    RemainingEstimate, TimingSample, TotalEstimate,
};
use texe::progress::PackagePlanSample;

fn sample(engine: &str, frozen: bool, total_millis: u64) -> TimingSample {
    TimingSample {
        engine: engine.to_string(),
        frozen,
        incremental: false,
        total_millis,
        phase_millis: Vec::new(),
        engine_passes: 4,
        bibliography_runs: 0,
        index_runs: 0,
        convergence_rounds: 0,
        environment_fingerprint: "sha256:test".to_string(),
        package_plan: None,
    }
}

fn context(samples: Vec<TimingSample>, engine_millis: Vec<u64>, elapsed_millis: u64) -> EstimateContext {
    EstimateContext {
        engine: "pdflatex".to_string(),
        frozen: false,
        incremental: false,
        max_passes: 8,
        samples,
        phase_millis: Vec::new(),
        engine_millis,
        package_plan: None,
        elapsed_millis,
    }
}

#[test]
fn comparable_history_estimates_a_range_around_the_median() {
    let mut unrelated_incremental = sample("pdflatex", false, 5_000);
    unrelated_incremental.incremental = true;
    let inner = context(
        vec![
            sample("pdflatex", false, 900_000),
            sample("pdflatex", false, 1_000_000),
            sample("pdflatex", false, 1_100_000),
            sample("pdflatex", true, 5_000_000),
            unrelated_incremental,
        ],
        Vec::new(),
        120_000,
    );
    assert_eq!(
        estimate_remaining(&inner),
        Some(RemainingEstimate { lower_millis: 680_000, upper_millis: 1_180_000 })
    );
}

#[test]
fn first_builds_estimate_the_total_around_the_median() {
    let inner = context(
        vec![sample("pdflatex", false, 900_000), sample("pdflatex", false, 1_000_000), sample("pdflatex", false, 1_100_000)],
        Vec::new(),
        120_000,
    );
    assert_eq!(
        estimate_total(&inner),
        Some(TotalEstimate { lower_millis: 800_000, upper_millis: 1_300_000, rough: false })
    );
}

#[test]
fn first_long_engine_pass_produces_a_conservative_range() {
    let inner = context(Vec::new(), vec![120_000], 130_000);
    assert_eq!(
        estimate_remaining(&inner),
        Some(RemainingEstimate { lower_millis: 120_000, upper_millis: 1_320_000 })
    );
    assert_eq!(live_remaining_status(&inner), "about 2m 00s–22m 00s left");
    assert_eq!(live_total_status(&inner), "rough total 4m 10s–24m 10s");
}

#[test]
fn short_passes_and_empty_history_give_no_estimate() {
    let inner = context(Vec::new(), vec![9_000], 10_000);
    assert_eq!(estimate_total(&inner), None);
    assert_eq!(live_total_status(&inner), "total estimate after first LaTeX pass");
    assert_eq!(live_remaining_status(&inner), "estimating time left");
    assert_eq!(remaining_suffix(&inner), " · elapsed 10s");
}

#[test]
fn history_and_observation_are_combined() {
    let mut inner = context(vec![sample("pdflatex", false, 200_000)], vec![60_000], 70_000);
    inner.phase_millis = vec![("engine-final".to_string(), 1)];
    // History gives 160s–260s; the passes give 70s–730s: the overlap wins.
    assert_eq!(
        estimate_total(&inner),
        Some(TotalEstimate { lower_millis: 160_000, upper_millis: 260_000, rough: true })
    );
    assert_eq!(remaining_suffix(&inner), " · elapsed 1m 10s · estimated 1m 30s–3m 10s remaining");
}

#[test]
fn conflicting_evidence_widens_the_range() {
    let inner = context(vec![sample("pdflatex", false, 20_000)], vec![60_000], 70_000);
    // History gives 16s–26s; the passes give 130s–730s.
    assert_eq!(
        estimate_total(&inner),
        Some(TotalEstimate { lower_millis: 16_000, upper_millis: 730_000, rough: true })
    );
}

#[test]
fn package_phases_are_estimated_apart() {
    let plan = PackagePlanSample {
        items_total: 10,
        items_cached: 0,
        bytes_total: 1000,
        bytes_cached: 0,
        bytes_to_download: 1000,
    };
    let mut timed = sample("pdflatex", false, 100_000);
    timed.phase_millis = vec![("packages".to_string(), 40_000)];
    timed.package_plan = Some(plan);
    let mut inner = context(vec![timed], Vec::new(), 0);
    inner.package_plan = Some(plan);
    assert_eq!(package_aware_total_range(&inner, &vec![0], plan), Some((80_000, 130_000, false)));
    let other = PackagePlanSample { bytes_to_download: 0, ..plan };
    assert_eq!(package_aware_total_range(&inner, &vec![0], other), Some((72_000, 142_000, true)));
    assert_eq!(
        estimate_total(&inner),
        Some(TotalEstimate { lower_millis: 80_000, upper_millis: 130_000, rough: false })
    );
}

#[test]
fn medians_take_the_upper_middle() {
    assert_eq!(median(&vec![]), 0);
    assert_eq!(median(&vec![5]), 5);
    assert_eq!(median(&vec![3, 1, 2]), 2);
    assert_eq!(median(&vec![4, 1, 3, 2]), 3);
    assert_eq!(guarded_range(&vec![10, 100, 1000], 4, 5, 13, 10), Some((10, 1000)));
    assert_eq!(guarded_range(&vec![], 4, 5, 13, 10), None);
}

#[test]
fn timing_summaries_name_the_phases_that_took_time() {
    let phases = vec![
        ("engine-final".to_string(), 3_000),
        ("format".to_string(), 0),
        ("packages".to_string(), 65_000),
    ];
    assert_eq!(phase(&phases, "packages"), Some(65_000));
    assert_eq!(phase(&phases, "index"), None);
    assert_eq!(
        timing_summary(70_000, &phases),
        "build timing: total 1m 10s · packages 1m 05s · final engines 3s"
    );
}
