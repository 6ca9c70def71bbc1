use texe::adoption::{
    adoption_step, local_class_names, AdoptionStep, EXISTING_MANIFEST_MESSAGE, adoption_preflight, adoption_provider, conflict_answer, conflict_review, preflight_headline,
    ConflictReview, CONFLICT_REVIEW_MESSAGE, ENTRY_BLOCKER, EXTERNAL_BLOCKER, FONTS_WARNING,
    SCAN_WARNING, UNICODE_BLOCKER,
};
use texe::config::ProjectManifest;
use texe::error::TexeError;
use texe::source::commands;

#[test]
fn a_plain_paper_is_ready() {
    let manifest = ProjectManifest::with_defaults("main.tex", "pdflatex");
    let found = commands("\\documentclass{article}\n\\begin{document}Hi\\end{document}\n");
    let report = adoption_preflight(&manifest, &found, true, true, true, &Vec::new(), &Vec::new());
    assert!(report.blockers.is_empty());
    assert!(report.external_tools.is_empty());
    assert_eq!(report.warnings, [SCAN_WARNING]);
    assert_eq!(preflight_headline(0, 0), "Ready for the first build");
}

#[test]
fn unicode_fonts_under_pdflatex_and_external_processing_block_adoption() {
    let manifest = ProjectManifest::with_defaults("main.tex", "pdflatex");
    let found = commands(
        "\\usepackage{fontspec}\n\\usepackage{minted}\n\\setmainfont{Libertinus Serif}\n\\addbibresource{refs.bib}\n",
    );
    let report = adoption_preflight(
        &manifest,
        &found,
        false,
        true,
        true,
        &vec!["Makefile".to_string()],
        &vec!["Makefile".to_string(), "main.tex".to_string()],
    );
    assert!(report.local_classes.is_empty());
    assert_eq!(report.blockers, [ENTRY_BLOCKER, UNICODE_BLOCKER, EXTERNAL_BLOCKER]);
    assert_eq!(report.external_tools, ["latexminted / Python", "biber"]);
    assert_eq!(
        report.warnings,
        [
            FONTS_WARNING.to_string(),
            "Makefile exists; texe does not execute it. Review its engine flags and custom build steps."
                .to_string(),
            SCAN_WARNING.to_string(),
        ]
    );
    assert_eq!(preflight_headline(3, 0), "Needs attention before adoption");
}

#[test]
fn system_toolchains_need_their_tools_on_path() {
    let mut manifest = ProjectManifest::with_defaults("main.tex", "xelatex");
    manifest.toolchain.provider = "system".to_string();
    let report = adoption_preflight(&manifest, &Vec::new(), true, false, false, &Vec::new(), &Vec::new());
    assert_eq!(
        report.blockers,
        [
            "system tool xelatex is missing from PATH; install your TeX distribution first",
            "system tool kpsewhich is missing from PATH; install your TeX distribution first",
        ]
    );
}

#[test]
fn engines_texe_installs_adopt_the_managed_toolchain() {
    assert_eq!(adoption_provider("pdflatex"), "managed");
    assert_eq!(adoption_provider("lualatex"), "managed");
    assert_eq!(adoption_provider("xelatex"), "system");
}

#[test]
fn conflicting_editor_settings_are_replaced_only_with_consent() {
    assert_eq!(conflict_review(false, false, false, false, true), ConflictReview::Proceed(false));
    assert_eq!(conflict_review(true, true, true, false, false), ConflictReview::Proceed(true));
    assert_eq!(conflict_review(true, false, false, false, true), ConflictReview::Ask);
    assert_eq!(conflict_review(true, false, true, false, true), ConflictReview::Refuse);
    assert_eq!(conflict_review(true, false, false, true, true), ConflictReview::Refuse);
    assert_eq!(conflict_answer(true).ok(), Some(true));
    assert!(matches!(conflict_answer(false), Err(TexeError::Build(message)) if message == CONFLICT_REVIEW_MESSAGE));
}

#[test]
fn local_classes_and_packages_are_listed_in_order() {
    let names = ["thesis.cls", "main.tex", "macros.sty", ".sty", "Figures", "a.b.cls", "notes.styx"]
        .map(String::from)
        .to_vec();
    assert_eq!(local_class_names(&names), ["a.b.cls", "macros.sty", "thesis.cls"]);
    let manifest = ProjectManifest::with_defaults("main.tex", "pdflatex");
    let report = adoption_preflight(&manifest, &Vec::new(), true, true, true, &Vec::new(), &names);
    assert_eq!(report.local_classes, ["a.b.cls", "macros.sty", "thesis.cls"]);
}

#[test]
fn adoption_refuses_flags_that_an_existing_manifest_settles() {
    let none: Vec<String> = Vec::new();
    assert!(matches!(
        adoption_step(true, true, false, false, &none, false, false),
        AdoptionStep::Refuse(TexeError::Manifest(m)) if m == EXISTING_MANIFEST_MESSAGE
    ));
    assert!(matches!(
        adoption_step(true, false, true, true, &none, false, false),
        AdoptionStep::Refuse(TexeError::Manifest(_))
    ));
}

#[test]
fn an_adoption_check_only_reports() {
    let blockers = vec!["first".to_string()];
    assert!(matches!(adoption_step(false, true, true, true, &blockers, false, false), AdoptionStep::Report));
    assert!(matches!(adoption_step(true, false, false, true, &Vec::new(), true, true), AdoptionStep::Report));
}

#[test]
fn blockers_refuse_the_adoption_one_per_line() {
    let blockers = vec!["first".to_string(), "second".to_string()];
    assert!(matches!(
        adoption_step(false, false, false, false, &blockers, false, false),
        AdoptionStep::Refuse(TexeError::Build(m)) if m == "first\nsecond"
    ));
}

#[test]
fn a_clear_adoption_writes_the_manifest_only_where_none_exists() {
    assert!(matches!(
        adoption_step(false, true, true, false, &Vec::new(), false, true),
        AdoptionStep::Configure { write_manifest: true, configure_editor: true, build: false }
    ));
    assert!(matches!(
        adoption_step(true, false, false, false, &Vec::new(), true, false),
        AdoptionStep::Configure { write_manifest: false, configure_editor: false, build: true }
    ));
}
