use texe::diagnostics::{classify, confined_file, from_engine_log, locate, primary_original, Diagnostic};

fn diagnose(log: &str, source: &str) -> Diagnostic {
    let root = "/work/paper";
    let entry = "main.tex";
    let log_path = "/work/paper/.texe/build/output/main.log";
    let source_text = texe::diagnostics::source_location(root, entry, log)
        .filter(|(file, _)| file == entry)
        .map(|_| source.to_string());
    from_engine_log(root, entry, log_path, log, "", "", source_text, false)
}

#[test]
fn undefined_command_has_a_source_location_and_local_explanation() {
    let diagnostic = diagnose(
        "! Undefined control sequence.\nl.2 \\\\includegrphics{result.pdf}",
        "first\n\\includegrphics{result.pdf}\n",
    );
    assert_eq!(diagnostic.family, "undefined-command");
    let location = diagnostic.location.clone().expect("location");
    assert_eq!(location.line, 2);
    assert_eq!(location.source.as_deref(), Some("\\includegrphics{result.pdf}"));
    assert!(diagnostic.explanation.contains("\\includegrphics"));
    assert_eq!(diagnostic.log, ".texe/build/output/main.log");
    assert_eq!(diagnostic.previous_artifact.path, "main.pdf");
}

#[test]
fn a_nearby_unrelated_error_is_not_called_an_undefined_command() {
    let diagnostic = diagnose("! Missing $ inserted.\nl.4 value_1", "a\nb\nc\nvalue_1\n");
    assert_eq!(diagnostic.family, "math-or-alignment");
}

#[test]
fn file_line_errors_support_nested_sources() {
    let diagnostic = diagnose("./chapters/results.tex:42: LaTeX Error: Missing } inserted.", "");
    let location = diagnostic.location.expect("location");
    assert_eq!(location.file, "chapters/results.tex");
    assert_eq!(location.line, 42);
}

#[test]
fn unknown_errors_preserve_the_original_message() {
    let diagnostic = diagnose("! An unusual engine failure.\nl.1 text", "text\n");
    assert_eq!(diagnostic.family, "latex-error");
    assert!(diagnostic.explanation.contains("unusual engine failure"));
}

#[test]
fn every_catalog_family_has_positive_and_near_miss_coverage() {
    let cases = [
        ("undefined-command", "! Undefined control sequence.\nl.1 \\\\mispelled", "! Missing $ inserted.\nl.1 _"),
        ("braces-or-environment", "! Missing } inserted.\nl.1 {text", "! Missing $ inserted.\nl.1 _"),
        ("math-or-alignment", "! Misplaced alignment tab character &.\nl.1 A & B", "! Missing } inserted.\nl.1 {text"),
        ("missing-input", "! LaTeX Error: File `chart.pdf' not found.", "! LaTeX Error: An unusual failure."),
        ("unresolved-reference", "LaTeX Warning: There were undefined references.", "LaTeX Warning: Reference output changed."),
        ("unicode-or-character", "! LaTeX Error: Unicode character α not set up.", "! LaTeX Error: Character count failed."),
        ("package-option-conflict", "! LaTeX Error: Option clash for package geometry.", "! LaTeX Error: Package geometry failed."),
        ("shell-escape-blocked", "! Package minted Error: You must invoke LaTeX with -shell-escape.", "! Package minted Error: Python executable not found."),
        ("permission", "main.tex:1: Permission denied", "main.tex:1: File is read-only metadata"),
        ("disk-space", "write failed: No space left on device", "write failed: invalid data"),
    ];
    for (family, positive, near_miss) in cases {
        assert_eq!(diagnose(positive, "source\n").family, family, "positive case for {family}");
        assert_ne!(diagnose(near_miss, "source\n").family, family, "near miss for {family}");
    }
}

#[test]
fn the_rendered_diagnostic_points_at_the_source_line() {
    let diagnostic = diagnose(
        "! Undefined control sequence.\nl.2   \\foo bar",
        "first\n  \\foo bar\n",
    );
    let text = diagnostic.render_human(true);
    assert_eq!(
        text,
        "Build stopped in main.tex at line 2\n\nLaTeX does not recognize a command near this line.\n\
         Check the spelling of `\\foo` and the package that defines it.\n\n   2 │   \\foo bar\n     │   ^^^^^^^^\n\n\
         Build failed. No previous PDF was available.\n\
         Technical details: .texe/build/output/main.log (or run `texe build --verbose`)"
    );
    assert!(!diagnostic.render_human(false).contains("Build failed."));
}

#[test]
fn the_primary_message_prefers_tex_error_lines() {
    assert_eq!(primary_original("intro\n!! Emergency stop.\n", "", ""), "Emergency stop.");
    assert_eq!(primary_original("!  ==> trace\n", "", "  \n fatal \n"), "fatal");
    assert_eq!(primary_original("", "", ""), "The engine stopped without a detailed message.");
}

#[test]
fn locations_stay_inside_the_project() {
    assert_eq!(confined_file("/work/paper", "/work/paper/ch/a.tex"), Some("ch/a.tex".to_string()));
    assert_eq!(confined_file("/work/paper", "/etc/passwd"), None);
    assert_eq!(confined_file("/work/paper", "../a.tex"), None);
    assert_eq!(locate("x:y:3:oops\n", "main.tex"), Some(("x:y".to_string(), 3)));
    assert_eq!(locate("l.99999999999999999999999 x\nl.7 y", "main.tex"), Some(("main.tex".to_string(), 7)));
    assert_eq!(classify("nothing", "orig").family, "latex-error");
}
