use texe::progress::{
    active_stage_message, download_plan_message, format_duration, historical_total_range,
    human_bytes, human_count, similar_package_work, similar_work_count, useful_estimate,
    DownloadCategory, LiveStage, PackagePlanSample, PhaseKind, PlainProgress,
};

#[test]
fn formats_customer_facing_durations() {
    assert_eq!(format_duration(400), "<1s");
    assert_eq!(format_duration(9 * 1000), "9s");
    assert_eq!(format_duration(125 * 1000), "2m 05s");
    assert_eq!(format_duration(62 * 60 * 1000), "1h 02m");
}

#[test]
fn plain_progress_collapses_internal_phases_into_customer_stages() {
    let mut progress = PlainProgress::default();
    let mut transcript = progress.update(PhaseKind::Toolchain);
    transcript.extend(progress.update(PhaseKind::Package));
    assert!(progress.update(PhaseKind::Format).is_empty());
    transcript.extend(progress.update(PhaseKind::EngineDiscovery));
    assert!(progress.update(PhaseKind::Package).is_empty());
    transcript.extend(progress.update(PhaseKind::EngineFinal));
    transcript.extend(progress.complete());
    let expected = [
        "Preparing LaTeX environment",
        "Prepared LaTeX environment",
        "Preparing required packages",
        "Prepared required packages",
        "Checking document requirements",
        "Checked document requirements",
        "Building PDF",
        "Built PDF",
    ]
    .join("\n");
    assert_eq!(transcript.join("\n"), expected);
    assert_eq!(progress.fail(), vec!["Build stopped".to_string()]);
}

#[test]
fn subsecond_timing_ranges_are_not_presented_as_estimates() {
    assert!(!useful_estimate(400, 900));
    assert!(!useful_estimate(1_500, 2_100));
    assert!(useful_estimate(2_000, 4_000));
}

#[test]
fn translated_download_plans_use_natural_count_grammar() {
    assert_eq!(
        download_plan_message(
            DownloadCategory::Registry,
            1,
            1,
            Some(3 * 1024 * 1024),
            Some(3 * 1024 * 1024),
            Some(0),
        ),
        "Registry Snapshot: all 1 item, 3 MiB, already cached"
    );
    assert_eq!(
        download_plan_message(
            DownloadCategory::Packages,
            20,
            2,
            Some(5 * 1024 * 1024),
            Some(0),
            Some(5 * 1024 * 1024),
        ),
        "packages download plan: 5 MiB across 18 items; 0 B of 5 MiB cached"
    );
    assert_eq!(
        download_plan_message(DownloadCategory::Packages, 3, 0, None, None, None),
        "packages download started; the server did not declare a size"
    );
}

#[test]
fn sizes_and_counts_read_naturally() {
    assert_eq!(human_bytes(1023), "1023 B");
    assert_eq!(human_bytes(1536), "2 KiB");
    assert_eq!(human_bytes(3 * 1024 * 1024), "3 MiB");
    assert_eq!(human_bytes(1_610_612_736), "1.5 GiB");
    assert_eq!(human_count(1, "file", "files"), "1 file");
    assert_eq!(human_count(0, "file", "files"), "0 files");
}

#[test]
fn estimate_ranges_and_comparable_work() {
    assert_eq!(historical_total_range(1_000), (800, 1_300));
    assert_eq!(historical_total_range(u64::MAX), (u64::MAX / 5, u64::MAX / 10));
    assert!(similar_work_count(0, 0));
    assert!(!similar_work_count(0, 3));
    assert!(similar_work_count(2, 8));
    assert!(!similar_work_count(2, 9));
    let plan = |items_total, bytes_to_download| PackagePlanSample {
        items_total,
        items_cached: 0,
        bytes_total: bytes_to_download,
        bytes_cached: 0,
        bytes_to_download,
    };
    assert!(similar_package_work(plan(3, 0), plan(4, 0)));
    assert!(!similar_package_work(plan(3, 0), plan(3, 10)));
    assert!(similar_package_work(plan(1, 100), plan(9, 400)));
    assert!(!similar_package_work(plan(1, 100), plan(9, 401)));
    assert_eq!(PackagePlanSample::no_download_plan(), plan(0, 0));
}

#[test]
fn stages_name_their_work() {
    assert_eq!(LiveStage::from_phase(PhaseKind::Format, Some(LiveStage::Pdf)), LiveStage::Pdf);
    assert_eq!(LiveStage::from_phase(PhaseKind::Format, None), LiveStage::Packages);
    assert_eq!(
        active_stage_message(LiveStage::Pdf, PhaseKind::EngineFinal, "frozen frozen pass 2"),
        "Building PDF · pass 2"
    );
    assert_eq!(active_stage_message(LiveStage::Pdf, PhaseKind::Index, ""), "Building index");
    assert_eq!(PhaseKind::EngineDiscovery.key(), "engine-discovery");
    assert!(PhaseKind::EngineFinal.is_engine());
    assert!(!PhaseKind::Format.is_engine());
}
