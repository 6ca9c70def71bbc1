use texe::warnings::{collect_warnings, rank};

#[test]
fn warnings_are_deduplicated_and_prioritized_for_scientists() {
    let log = "\
Overfull \\hbox (2.0pt too wide)
LaTeX Warning: Label(s) may have changed.
LaTeX Warning: Citation `paper' on page 1 undefined.
LaTeX Warning: Reference `result' on page 1 undefined.
Missing character: There is no α in font cmr10!
LaTeX Warning: Citation `paper' on page 1 undefined.
";
    let warnings = collect_warnings(log);
    assert_eq!(warnings.len(), 5);
    assert_eq!(warnings[0].kind, "unresolved-citation");
    assert_eq!(warnings[1].kind, "unresolved-reference");
    assert_eq!(warnings[2].kind, "missing-character");
    assert_eq!(warnings[3].kind, "latex");
    assert_eq!(warnings[4].kind, "layout");
    assert_eq!(warnings[0].message, "LaTeX Warning: Citation `paper' on page 1 undefined.");
}

#[test]
fn warnings_of_one_kind_are_ordered_by_text_and_trimmed() {
    let log = "  Underfull \\vbox (badness 10000)  \nOverfull \\hbox (1pt too wide)\nplain text\n";
    let warnings = collect_warnings(log);
    assert_eq!(warnings.len(), 2);
    assert_eq!(warnings[0].message, "Overfull \\hbox (1pt too wide)");
    assert_eq!(warnings[1].message, "Underfull \\vbox (badness 10000)");
    assert!(collect_warnings("").is_empty());
    assert_eq!(rank("latex"), 3);
    assert_eq!(rank("layout"), 4);
}
