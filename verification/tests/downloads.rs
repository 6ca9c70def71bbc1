use texe::downloads::{
    first_download, first_download_details, handle_download_event, DownloadEvent, DownloadMetrics,
    DownloadPreflight, FirstDownload,
};
use texe::error::TexeError;
use texe::progress::DownloadCategory;

fn plan(schema: &str, to_download: u64) -> DownloadEvent {
    DownloadEvent::Plan {
        schema: schema.to_string(),
        category: DownloadCategory::Packages,
        items_total: 2,
        items_cached: 1,
        bytes_total: Some(9000),
        bytes_cached: Some(4000),
        bytes_to_download: Some(to_download),
    }
}

fn start(attempt: usize) -> DownloadEvent {
    DownloadEvent::Start {
        schema: "pqty.progress/v1".to_string(),
        category: DownloadCategory::Packages,
        item: "latex".to_string(),
        url: "https://example.invalid/latex.tar.xz".to_string(),
        attempt,
        bytes_total: Some(5000),
    }
}

fn complete(bytes: u64, elapsed_millis: u64) -> DownloadEvent {
    DownloadEvent::Complete {
        schema: "pqty.progress/v1".to_string(),
        category: DownloadCategory::Packages,
        item: "latex".to_string(),
        bytes_received: bytes,
        bytes_total: Some(bytes),
        elapsed_millis,
    }
}

#[test]
fn consumes_closed_pqty_progress_and_tracks_the_download_plan() {
    let mut packages = DownloadMetrics::default();
    let first = plan("pqty.progress/v1", 5000);
    assert!(first.is_supported());
    assert_eq!(first.category(), DownloadCategory::Packages);
    assert_eq!(
        handle_download_event(&mut packages, &first, false, 0).as_deref(),
        Some("packages download plan: 5 KiB across 1 item; 4 KiB of 9 KiB cached")
    );
    assert_eq!(handle_download_event(&mut packages, &start(1), false, 100), None);
    assert_eq!(
        handle_download_event(&mut packages, &complete(5000, 1000), false, 1100).as_deref(),
        Some("packages download complete: 5 KiB in 1s · 5 KiB/s")
    );
    assert_eq!(packages.planned_bytes, Some(5_000));
    assert_eq!(packages.completed_bytes, 5_000);
    assert!(!plan("pqty.progress/v2", 0).is_supported());
}

#[test]
fn a_new_plan_after_finished_downloads_starts_over() {
    let mut packages = DownloadMetrics::default();
    handle_download_event(&mut packages, &plan("pqty.progress/v1", 5000), false, 0);
    handle_download_event(&mut packages, &start(1), false, 0);
    handle_download_event(&mut packages, &complete(5000, 10), false, 10);
    handle_download_event(&mut packages, &plan("pqty.progress/v1", 700), false, 20);
    assert_eq!(packages.planned_bytes, Some(700));
    assert_eq!(packages.completed_bytes, 0);
    assert_eq!(packages.started, None);
}

#[test]
fn unplanned_downloads_and_retries_are_announced() {
    let mut registry = DownloadMetrics::default();
    assert_eq!(
        handle_download_event(&mut registry, &start(1), true, 0).as_deref(),
        Some("downloading packages latex (5 KiB)")
    );
    assert_eq!(
        handle_download_event(&mut registry, &start(3), true, 0).as_deref(),
        Some("retrying packages download for latex from https://example.invalid/latex.tar.xz (attempt 3)")
    );
    assert_eq!(
        handle_download_event(&mut registry, &complete(2048, 2500), true, 2500).as_deref(),
        Some("downloaded latex: 2 KiB in 2s")
    );
    assert_eq!(registry.active_item, None);
}

#[test]
fn progress_lines_are_throttled_and_estimate_the_time_left() {
    let mut packages = DownloadMetrics::default();
    handle_download_event(&mut packages, &plan("pqty.progress/v1", 10_000_000), true, 0);
    handle_download_event(&mut packages, &start(1), true, 0);
    let progress = |received: u64| DownloadEvent::Progress {
        schema: "pqty.progress/v1".to_string(),
        category: DownloadCategory::Packages,
        item: "latex".to_string(),
        bytes_received: received,
        bytes_total: Some(10_000_000),
        elapsed_millis: 4000,
    };
    assert_eq!(
        handle_download_event(&mut packages, &progress(2_000_000), true, 4000).as_deref(),
        Some("downloading packages: 2 MiB/10 MiB (20%) · latex 2 MiB/10 MiB · 488 KiB/s · about 16s remaining")
    );
    assert_eq!(handle_download_event(&mut packages, &progress(2_100_000), true, 5000), None);
    assert_eq!(packages.active_bytes, 2_100_000);
    assert_eq!(packages.last_rendered, Some(4000));
}

fn preflight(missing_components: usize, missing_bytes: u64) -> Option<DownloadPreflight> {
    Some(DownloadPreflight {
        engine: "lualatex".to_string(),
        missing_components,
        missing_bytes,
    })
}

#[test]
fn first_builds_ask_before_downloading() {
    assert_eq!(
        first_download(true, &preflight(3, 1_048_576), false, false, false, false, true).ok(),
        Some(FirstDownload::Confirm)
    );
    assert_eq!(
        first_download(true, &preflight(3, 1_048_576), false, false, true, false, true).ok(),
        Some(FirstDownload::Proceed)
    );
    assert_eq!(
        first_download(false, &preflight(3, 1_048_576), true, false, false, false, true).ok(),
        Some(FirstDownload::Proceed)
    );
    assert_eq!(
        first_download(true, &preflight(0, 0), false, false, false, false, true).ok(),
        Some(FirstDownload::Proceed)
    );
    assert_eq!(
        first_download(true, &None, true, false, false, false, true).ok(),
        Some(FirstDownload::Confirm)
    );
}

#[test]
fn json_and_non_interactive_first_builds_go_ahead() {
    assert_eq!(
        first_download(true, &preflight(3, 1_048_576), false, false, false, true, true).ok(),
        Some(FirstDownload::Proceed)
    );
    assert_eq!(
        first_download(true, &preflight(3, 1_048_576), false, false, false, false, false).ok(),
        Some(FirstDownload::Inform)
    );
}

#[test]
fn offline_first_builds_need_a_cached_runtime() {
    let error = first_download(true, &preflight(2, 3 * 1_048_576), false, true, false, false, true)
        .expect_err("not cached");
    assert!(matches!(error, TexeError::Toolchain(message)
        if message == "offline mode cannot prepare lualatex: 2 runtime components, 3 MiB, are not cached"));
    assert_eq!(
        first_download(true, &None, true, true, false, false, true).ok(),
        Some(FirstDownload::Proceed)
    );
}

#[test]
fn the_first_build_note_lists_runtime_packages_and_privacy() {
    assert_eq!(
        first_download_details(&preflight(1, 2048), true),
        [
            "LaTeX runtime  1 checksummed component, about 2 KiB",
            "Paper packages Only what this source requires",
            "Destination    texe’s local managed cache",
            "Privacy        No paper source or metadata is sent",
        ]
    );
    assert_eq!(
        first_download_details(&preflight(0, 0), false),
        ["LaTeX runtime  Already cached", "Privacy        No paper source or metadata is sent"]
    );
}
