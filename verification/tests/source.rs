use std::collections::{BTreeMap, BTreeSet};

use texe::source::{commands, has_package, included_file_names};

#[test]
fn declarations_ignore_prose_comments_and_verbatim() {
    let found = commands(
        r"The newly minted coin. % \usepackage{minted}
\verb|\usepackage{minted}|
\begin{verbatim}\usepackage{minted}\end{verbatim}
\usepackage [option] {fontspec, unicode-math}",
    );
    assert!(!has_package(&found, "minted"));
    assert!(has_package(&found, "fontspec"));
}

#[test]
fn package_lists_are_split_and_trimmed() {
    let found = commands(r"\RequirePackage{ amsmath ,unicode-math }\input{chapter}");
    assert!(has_package(&found, "amsmath"));
    assert!(has_package(&found, "unicode-math"));
    assert!(!has_package(&found, "chapter"));
    assert!(found.contains(&("input".to_string(), "chapter".to_string())));
}

#[test]
fn escaped_percent_signs_do_not_start_comments() {
    let found = commands(r"50\% done \usepackage{xcolor}");
    assert!(has_package(&found, "xcolor"));
}

#[test]
fn included_files_take_the_extension_their_command_implies() {
    let found = commands("\\documentclass{custom}\\input{chapter}");
    assert_eq!(included_file_names(&found), ["custom.cls", "chapter.tex"]);
    let found = commands(
        "\\usepackage[opt]{a, b.sty,}\\include{ch/intro}\\input{figs/}\\input{./.hidden}\\input{..}\\section{Intro}",
    );
    assert_eq!(
        included_file_names(&found),
        ["a.sty", "b.sty", "ch/intro.tex", "figs.tex", "./.hidden.tex", ".."]
    );
}

#[test]
fn includes_and_local_classes_are_scanned_without_leaving_project() {
    let files: BTreeMap<&str, &str> = [
        ("main.tex", "\\documentclass{custom}\\input{chapter}"),
        ("custom.cls", "\\RequirePackage{fontspec}"),
        ("chapter.tex", "\\input{main}\\usepackage{minted}"),
    ]
    .into_iter()
    .collect();
    let mut pending = vec!["main.tex".to_string()];
    let mut seen = BTreeSet::new();
    let mut found = Vec::new();
    while let Some(path) = pending.pop() {
        let Some(source) = files.get(path.as_str()) else { continue };
        if !seen.insert(path) {
            continue;
        }
        let commands = commands(source);
        pending.extend(included_file_names(&commands));
        found.extend(commands);
    }
    assert!(has_package(&found, "fontspec"));
    assert!(has_package(&found, "minted"));
    assert!(found.len() < 10);
}
