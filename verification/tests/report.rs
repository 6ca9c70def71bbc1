use texe::report::{
    cached_report, completion_message, live_warning_lines, summary_lines, warning_summary,
    BuildReport, BUILD_REPORT_SCHEMA,
};
use texe::warnings::BuildWarning;

fn warning(message: &str) -> BuildWarning {
    BuildWarning { kind: "latex".to_string(), message: message.to_string() }
}

fn built(warnings: Vec<BuildWarning>) -> BuildReport {
    BuildReport {
        schema: BUILD_REPORT_SCHEMA.to_string(),
        engine: "pdflatex".to_string(),
        artifact: "main.pdf".to_string(),
        engine_passes: 1,
        bibliography_runs: 2,
        index_runs: 0,
        convergence_rounds: 1,
        environment_fingerprint: "sha256:env".to_string(),
        cached: false,
        duration_millis: 65_000,
        warning_count: warnings.len(),
        warnings,
    }
}

#[test]
fn warning_summaries_agree_with_their_count() {
    assert_eq!(warning_summary(0), "no warnings");
    assert_eq!(warning_summary(1), "1 warning");
    assert_eq!(warning_summary(4), "4 warnings");
}

#[test]
fn builds_complete_with_their_artifact_and_duration() {
    let report = built(vec![warning("a")]);
    assert_eq!(completion_message(&report), "Built main.pdf in 1m 05s · 1 warning");
    let cached = cached_report("pdflatex", "main.pdf", "sha256:env");
    assert!(cached.cached);
    assert_eq!(cached.schema, BUILD_REPORT_SCHEMA);
    assert_eq!(completion_message(&cached), "PDF is up to date · main.pdf");
}

#[test]
fn plain_summaries_show_three_warnings_and_count_the_rest() {
    let report = built(vec![warning("a"), warning("b"), warning("c"), warning("d"), warning("e")]);
    assert_eq!(
        summary_lines("main.tex", &report, false),
        [
            "built main.pdf in 1m 05s",
            "1 engine pass, 2 bibliography runs, 0 index runs, 1 package convergence round",
            "warning: a",
            "warning: b",
            "warning: c",
            "2 warnings more; run `texe build --verbose` to show all",
        ]
    );
    let verbose = summary_lines("main.tex", &report, true);
    assert_eq!(&verbose[6..], ["package environment: sha256:env", "warning: d", "warning: e"]);
    assert_eq!(
        live_warning_lines(&report),
        ["a", "b", "c", "2 warnings more; use texe build --verbose to see all"]
    );
}

#[test]
fn cached_and_clean_builds_say_so() {
    let cached = cached_report("pdflatex", "main.pdf", "sha256:env");
    assert_eq!(
        summary_lines("main.tex", &cached, true),
        ["checked main.tex", "main.pdf is up to date; no project files changed"]
    );
    let clean = built(Vec::new());
    assert_eq!(summary_lines("main.tex", &clean, false)[2], "no warnings");
    assert!(live_warning_lines(&clean).is_empty());
}
