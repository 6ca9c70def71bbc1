use texe::config::{InitRequest, StarterDocument, StarterTemplate};
use texe::error::TexeError;
use texe::setup::{
    configure_init, detect_engine_hint, discover_manifest, init_outcome, init_project,
    latex_text, manifest_candidates, manifest_text, normalize_engine, preferred_entry,
    render_starter, select_entry, validate_engine, EntryChoice, InitStep,
};

fn names(list: &[&str]) -> Vec<String> {
    list.iter().map(|s| s.to_string()).collect()
}

#[test]
fn init_is_non_destructive() {
    let plan = init_project("/paper", "main.tex", "pdflatex", &StarterDocument::default(), false, false, &Vec::new())
        .expect("project initializes");
    let outcome = init_outcome(&plan, "/paper");
    assert_eq!(outcome.manifest, "/paper/texe.toml");
    assert!(outcome.created_files.iter().any(|file| file == "main.tex"));
    assert!(!plan.manifest_text.contains("provider"));
    assert!(!plan.manifest_text.contains("[packages]"));
    assert!(init_project("/paper", "main.tex", "pdflatex", &StarterDocument::default(), true, true, &Vec::new())
        .is_err());
}

#[test]
fn init_refuses_invalid_entries_and_engines() {
    let none = Vec::new();
    assert!(init_project("/paper", "../main.tex", "pdflatex", &StarterDocument::default(), false, true, &none).is_err());
    assert!(init_project("/paper", "main.tex", "  ", &StarterDocument::default(), false, true, &none).is_err());
    match init_project("/paper", "main.tex", "pdflatex", &StarterDocument::default(), true, false, &none) {
        Err(TexeError::Manifest(message)) => {
            assert_eq!(message, "/paper/texe.toml already exists; refusing to overwrite it")
        }
        other => panic!("unexpected {other:?}"),
    }
    let plan = init_project("/paper", "main.tex", "pdflatex", &StarterDocument::default(), false, true, &none)
        .expect("existing entries are kept");
    assert!(plan.starter_files.is_empty());
}

#[test]
fn starter_collision_rolls_back_the_manifest_and_created_files() {
    let starter = StarterDocument { template: StarterTemplate::Basic, ..StarterDocument::default() };
    let existing = vec!["references.bib".to_string()];
    match init_project("/paper", "main.tex", "pdflatex", &starter, false, false, &existing) {
        Err(TexeError::Manifest(message)) => {
            assert!(message.contains("refusing to overwrite"));
            assert_eq!(message, "/paper/references.bib already exists; refusing to overwrite it");
        }
        other => panic!("starter collision must fail: {other:?}"),
    }
}

#[test]
fn init_uses_system_provider_for_engines_without_a_managed_recipe() {
    assert!(manifest_text("main.tex", "xelatex").contains("provider = \"system\""));
}

#[test]
fn init_uses_managed_provider_for_lualatex() {
    let text = manifest_text("main.tex", "lualatex");
    assert!(!text.contains("provider"));
    assert!(text.contains("engine = \"lualatex\""));
    assert!(text.contains("entry = \"main.tex\""));
}

#[test]
fn basic_starter_is_structured_and_escapes_paper_metadata() {
    let starter = StarterDocument {
        title: "Energy_Use & {Results} \\ 2026".to_string(),
        author: "Ada % Researcher".to_string(),
        template: StarterTemplate::Basic,
    };
    let plan = init_project("/paper", "main.tex", "pdflatex", &starter, false, false, &Vec::new()).expect("project initializes");
    let outcome = init_outcome(&plan, "/paper");
    assert_eq!(outcome.manifest, "/paper/texe.toml");
    assert_eq!(outcome.created_files, ["main.tex", "references.bib"]);
    let source = &plan.starter_files[0].1;
    assert!(source.contains("\\title{Energy\\_Use \\& \\{Results\\} \\textbackslash{} 2026}"));
    assert!(source.contains("\\author{Ada \\% Researcher}"));
    assert!(source.contains("\\begin{abstract}"));
    assert!(source.contains("\\section{Methods}"));
    assert!(source.contains("\\bibliography{references}"));
}

#[test]
fn empty_starter_is_compilable_without_extra_files() {
    let starter = StarterDocument {
        title: "A Paper".to_string(),
        author: "A Scientist".to_string(),
        template: StarterTemplate::Empty,
    };
    let files = render_starter("main.tex", &starter);
    assert_eq!(files.len(), 1);
    assert_eq!(files[0].0, "main.tex");
    assert!(files[0].1.contains("\\title{A Paper}"));
    assert!(files[0].1.contains("\\author{A Scientist}"));
    assert!(files[0].1.contains("\\maketitle"));
}

fn settings(step: InitStep) -> (String, String) {
    match step {
        InitStep::Settings(settings) => (settings.entry, settings.engine),
        InitStep::Ask { .. } => panic!("no prompt expected"),
    }
}

#[test]
fn init_detects_editor_engine_hint_without_an_engine_prompt() {
    let request = InitRequest { interactive: true, ..InitRequest::default() };
    let candidates =
        vec![("paper.tex".to_string(), Some("% !TeX program = xelatex\n\\documentclass{article}\n".to_string()))];
    let step = configure_init(&request, &candidates, None, None).expect("settings resolve");
    assert_eq!(settings(step), ("paper.tex".to_string(), "xelatex".to_string()));
}

#[test]
fn interactive_init_defaults_to_pdflatex_without_an_engine_prompt() {
    let request = InitRequest { interactive: true, ..InitRequest::default() };
    let candidates = vec![("paper.tex".to_string(), Some("\\documentclass{article}\n".to_string()))];
    let step = configure_init(&request, &candidates, None, None).expect("settings resolve");
    assert_eq!(settings(step), ("paper.tex".to_string(), "pdflatex".to_string()));
}

#[test]
fn init_prompts_for_ambiguous_document_roots() {
    let request = InitRequest {
        interactive: true,
        engine: Some("pdflatex".to_string()),
        ..InitRequest::default()
    };
    let candidates = names(&["article.tex", "slides.tex"]);
    match select_entry(&request, &candidates, None).expect("asks") {
        EntryChoice::Ask { options, default } => {
            assert_eq!(options, ["article.tex", "slides.tex"]);
            assert_eq!(default, 0);
        }
        EntryChoice::Chosen(_) => panic!("an ambiguous entry must be asked for"),
    }
    match select_entry(&request, &candidates, Some(1)).expect("chosen") {
        EntryChoice::Chosen(entry) => assert_eq!(entry, "slides.tex"),
        EntryChoice::Ask { .. } => panic!("the answer chooses"),
    }
}

#[test]
fn non_interactive_init_requires_entry_when_ambiguous() {
    let article = Some("\\documentclass{article}\n".to_string());
    let candidates = vec![("article.tex".to_string(), article.clone()), ("slides.tex".to_string(), article)];
    match configure_init(&InitRequest::default(), &candidates, None, None) {
        Err(TexeError::Manifest(message)) => assert!(message.contains("--entry")),
        other => panic!("unexpected {other:?}"),
    }
    let defaults = InitRequest { accept_defaults: true, ..InitRequest::default() };
    let step = configure_init(&defaults, &candidates, None, None).expect("--yes accepts defaults");
    assert_eq!(settings(step), ("article.tex".to_string(), "pdflatex".to_string()));
    let names = names(&["article.tex", "slides.tex"]);
    assert!(matches!(select_entry(&defaults, &names, None), Ok(EntryChoice::Chosen(entry)) if entry == "article.tex"));
}

#[test]
fn interactive_init_asks_among_roots_and_takes_the_answer() {
    let request = InitRequest { interactive: true, ..InitRequest::default() };
    let candidates = vec![
        ("article.tex".to_string(), Some("\\documentclass{article}\n".to_string())),
        ("slides.tex".to_string(), Some("% !TeX program = lualatex\n\\documentclass{beamer}\n".to_string())),
    ];
    match configure_init(&request, &candidates, None, None).expect("asks") {
        InitStep::Ask { options, default } => {
            assert_eq!(options, ["article.tex", "slides.tex"]);
            assert_eq!(default, 0);
        }
        InitStep::Settings(_) => panic!("an ambiguous entry must be asked for"),
    }
    let step = configure_init(&request, &candidates, None, Some(1)).expect("answered");
    assert_eq!(settings(step), ("slides.tex".to_string(), "lualatex".to_string()));
    let explicit = InitRequest { entry: Some("paper/main.tex".to_string()), ..request };
    let step = configure_init(&explicit, &candidates, Some("% !TeX program = xelatex\n".to_string()), None)
        .expect("explicit entry");
    assert_eq!(settings(step), ("paper/main.tex".to_string(), "xelatex".to_string()));
}

#[test]
fn engines_are_normalized_from_editor_spellings() {
    assert_eq!(normalize_engine(" LuaTeX ").as_deref(), Some("lualatex"));
    assert_eq!(normalize_engine("xetex").as_deref(), Some("xelatex"));
    assert_eq!(normalize_engine("context"), None);
    assert_eq!(detect_engine_hint("%!TEX TS-program = pdftex\n").as_deref(), Some("pdflatex"));
    assert_eq!(detect_engine_hint("\\documentclass{article}\n"), None);
    assert_eq!(validate_engine(" xelatex ").expect("engine"), "xelatex");
    assert!(validate_engine("").is_err());
}

#[test]
fn main_is_the_preferred_entry() {
    assert_eq!(preferred_entry(&names(&["a.tex", "main.tex"])), 1);
    assert_eq!(preferred_entry(&names(&["a.tex", "b.tex"])), 0);
}

#[test]
fn latex_text_escapes_special_characters() {
    assert_eq!(latex_text("50% & $5_x"), "50\\% \\& \\$5\\_x");
    assert_eq!(latex_text("~^"), "\\textasciitilde{}\\textasciicircum{}");
}

#[test]
fn manifests_are_found_nearest_first() {
    let (dir, candidates) = manifest_candidates("/work/paper/main.tex", true);
    assert_eq!(dir, "/work/paper");
    assert_eq!(candidates, ["/work/paper/texe.toml", "/work/texe.toml", "/texe.toml"]);
    assert_eq!(
        discover_manifest("/work/paper/main.tex", true, &vec![false, true, true]).expect("found"),
        "/work/texe.toml"
    );
    match discover_manifest("/work/paper", false, &vec![false, false, false]) {
        Err(TexeError::Manifest(message)) => assert_eq!(message, "could not find texe.toml from /work/paper"),
        other => panic!("unexpected {other:?}"),
    }
}

#[test]
fn init_prefers_sources_that_declare_a_document() {
    let found = vec![
        ("chapters/intro.tex".to_string(), false),
        ("main.tex".to_string(), true),
        ("paper.tex".to_string(), true),
    ];
    assert_eq!(texe::setup::document_roots(&found), ["main.tex", "paper.tex"]);
    let plain = vec![("a.tex".to_string(), false), ("b.tex".to_string(), false)];
    assert_eq!(texe::setup::document_roots(&plain), ["a.tex", "b.tex"]);
}
