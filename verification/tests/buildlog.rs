use texe::buildlog::{
    build_timestamp, engine_failure_detail, engine_log_excerpt, parse_source_date_epoch,
    BuildTimestamp, PublishedBuild, LOG_EXCERPT_LINES,
};

#[test]
fn an_inherited_timestamp_renders_a_build_without_repinning_the_project() {
    assert_eq!(
        build_timestamp(None, None, || 1_700_000_000),
        BuildTimestamp { effective: 1_700_000_000, locked: 1_700_000_000 }
    );
    assert_eq!(
        build_timestamp(None, Some(2_000), || 1_700_000_000),
        BuildTimestamp { effective: 2_000, locked: 2_000 }
    );
    assert_eq!(
        build_timestamp(Some(1_000), None, || 1_700_000_000),
        BuildTimestamp { effective: 1_000, locked: 1_000 }
    );
    assert_eq!(
        build_timestamp(Some(1_000), Some(2_000), || 1_700_000_000),
        BuildTimestamp { effective: 2_000, locked: 1_000 }
    );
}

#[test]
fn an_engine_failure_reports_the_diagnostic_not_the_memory_statistics() {
    let log = "\
(/texmf/tex/latex/base/article.cls)
! Undefined control sequence.
l.3 \\undefinedmacro

The control sequence at the end of the top line
was never \\def'ed.

Here is how much of TeX's memory you used:
 419 strings out of 469515
 433756 words of memory out of 5000000
 35i,0n,38p,257b,37s stack positions out of 10000i
!  ==> Fatal error occurred, no output PDF file produced!
";
    let excerpt = engine_log_excerpt(log);
    assert!(excerpt.starts_with("! Undefined control sequence."));
    assert!(excerpt.contains("l.3 \\undefinedmacro"));
    assert!(excerpt.contains("Fatal error occurred"), "the verdict survives the statistics block");
    assert!(!excerpt.contains("strings out of"));
    assert!(!excerpt.contains("stack positions"));
    assert!(!excerpt.contains("article.cls"), "noise above the error");
}

#[test]
fn an_engine_failure_keeps_pdf_driver_stderr() {
    let detail = engine_failure_detail(
        "! LaTeX Warning: rerun.\n",
        "duplicate transcript",
        "xdvipdfmx:fatal: Unrecognized paper format: a4\n",
    );
    assert!(detail.contains("LaTeX Warning"));
    assert!(detail.contains("xdvipdfmx:fatal"));
    assert!(!detail.contains("duplicate transcript"));
}

#[test]
fn a_log_without_a_diagnostic_falls_back_to_its_tail() {
    let log = (1..=60).map(|line| format!("line {line}")).collect::<Vec<_>>().join("\n");
    let excerpt = engine_log_excerpt(&log);
    assert_eq!(excerpt.lines().count(), LOG_EXCERPT_LINES);
    assert!(excerpt.ends_with("line 60"));
    assert!(!excerpt.contains("line 30\n"));
}

#[test]
fn an_empty_log_reports_the_process_output() {
    assert_eq!(engine_failure_detail("", " out \n", "\n err "), "out\nerr");
    assert_eq!(engine_failure_detail("! Bad.\n", "x", "  "), "! Bad.");
}

#[test]
fn source_date_epoch_is_a_plain_integer() {
    assert_eq!(parse_source_date_epoch(" 1700000000\n"), Some(1_700_000_000));
    assert_eq!(parse_source_date_epoch("+5"), Some(5));
    assert_eq!(parse_source_date_epoch("-5"), None);
    assert_eq!(parse_source_date_epoch(""), None);
    assert_eq!(parse_source_date_epoch("18446744073709551616"), None);
    assert_eq!(parse_source_date_epoch("18446744073709551615"), Some(u64::MAX));
}

#[test]
fn a_published_build_lists_its_files() {
    let published = PublishedBuild { artifact: "/p/main.pdf".to_string(), synctex: Some("/p/main.synctex.gz".to_string()) };
    assert_eq!(published.paths(), vec!["/p/main.pdf".to_string(), "/p/main.synctex.gz".to_string()]);
    let bare = PublishedBuild { artifact: "/p/main.pdf".to_string(), synctex: None };
    assert_eq!(bare.paths(), vec!["/p/main.pdf".to_string()]);
}
