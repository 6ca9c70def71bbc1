use std::collections::BTreeMap;
use texe::auxfile::bibtex_control_file;
use texe::bibliography::{
    auxiliary_lines, bibliography_environment, managed_bibliography_path,
    persistent_cache_supported, proxy_stem, select_controls, AuxLine, BibliographyControl,
    BibliographyProcessor,
};
use texe::config::ProjectManifest;
use texe::environment::{ManagedRuntime, ResolvedToolchain};
use texe::error::TexeError;

fn system_toolchain() -> ResolvedToolchain {
    ResolvedToolchain {
        engine: "pdflatex".to_string(),
        engine_executable: "/usr/bin/pdflatex".to_string(),
        texmf_dist: "/usr/share/texmf-dist".to_string(),
        engine_roots: Vec::new(),
        managed: None,
    }
}

#[test]
fn bibliography_search_paths_are_frozen_to_project_and_package_tree() {
    let toolchain = system_toolchain();
    let manifest = ProjectManifest::with_defaults("main.tex", "pdflatex");
    let environment = bibliography_environment(
        "/tmp/project",
        &manifest,
        "/tmp/project/.texe/texmf",
        &toolchain,
        "/tmp/project/.texe/build/output",
    );
    let mut seen = 0;
    for (name, value) in environment {
        if name == "BIBINPUTS" || name == "BSTINPUTS" {
            seen += 1;
            assert!(value.contains("/tmp/project//"));
            assert!(!value.ends_with(':'));
        }
    }
    assert_eq!(seen, 2);
}

#[test]
fn bibliography_search_paths_include_declared_project_roots() {
    let toolchain = system_toolchain();
    let mut manifest = ProjectManifest::with_defaults("main.tex", "pdflatex");
    manifest.bibliography.roots = vec!["vendor/natbib".to_string()];
    let environment = bibliography_environment(
        "/tmp/project",
        &manifest,
        "/tmp/project/.texe/texmf",
        &toolchain,
        "/tmp/project/.texe/build/output",
    )
    .into_iter()
    .collect::<BTreeMap<_, _>>();

    assert!(environment
        .get("BSTINPUTS")
        .is_some_and(|value| value.contains("/tmp/project/vendor/natbib//")));
}

#[test]
fn bibliography_databases_and_styles_search_their_own_package_trees() {
    let toolchain = system_toolchain();
    let manifest = ProjectManifest::with_defaults("main.tex", "pdflatex");
    let environment = bibliography_environment("/p", &manifest, "/p/.texe/texmf", &toolchain, "/p")
        .into_iter()
        .collect::<BTreeMap<_, _>>();
    assert_eq!(
        environment.get("BIBINPUTS").map(String::as_str),
        Some("/p//:/p/.texe/texmf/bibtex/bib//:/p/.texe/texmf/biblatex/bib//")
    );
    assert_eq!(
        environment.get("BSTINPUTS").map(String::as_str),
        Some("/p//:/p/.texe/texmf/bibtex/bst//")
    );
    assert!(!environment.contains_key("PATH"));
}

#[test]
fn managed_bibliography_runs_see_only_managed_binaries() {
    let mut toolchain = system_toolchain();
    toolchain.managed = Some(ManagedRuntime {
        root: "/data/texe/runtime".to_string(),
        binary_dir: "/data/texe/runtime/bin".to_string(),
        registry_url: "https://registry.example/tlpdb".to_string(),
        registry_metadata_sha256: "0".repeat(64),
        bootstrap_providers: Vec::new(),
    });
    let manifest = ProjectManifest::with_defaults("main.tex", "pdflatex");
    let environment = bibliography_environment("/p", &manifest, "/p/t", &toolchain, "/w")
        .into_iter()
        .collect::<BTreeMap<_, _>>();
    assert_eq!(
        environment.get("PATH").map(String::as_str),
        Some("/data/texe/runtime/bin")
    );
}

#[test]
fn managed_biber_stays_discoverable_without_host_tools() {
    let value = managed_bibliography_path(
        "/data/texe/components/biber/bin/biber",
        "/data/texe/runtime/bin",
    )
    .expect("managed path");
    assert_eq!(
        value.split(':').collect::<Vec<_>>(),
        ["/data/texe/components/biber/bin", "/data/texe/runtime/bin"]
    );
}

#[test]
fn managed_biber_beside_the_runtime_adds_no_directory() {
    let value = managed_bibliography_path("/data/texe/runtime/bin/biber", "/data/texe/runtime/bin")
        .expect("managed path");
    assert_eq!(value, "/data/texe/runtime/bin");
}

#[test]
fn managed_bibliography_path_refuses_separators() {
    let error = managed_bibliography_path("/data/a:b/biber", "/data/texe/runtime/bin")
        .expect_err("separator");
    assert!(matches!(error, TexeError::Toolchain(message) if message.contains("separator `:`")));
}

fn flatten(files: &BTreeMap<&str, &[u8]>, name: &str, output: &mut Vec<u8>) {
    for line in auxiliary_lines(files[name]) {
        match line {
            AuxLine::Keep(bytes) => output.extend(bytes),
            AuxLine::Include(nested) => {
                let child = String::from_utf8(nested).expect("include name");
                if files.contains_key(child.as_str()) {
                    flatten(files, &child, output);
                }
            }
        }
    }
}

#[test]
fn bibtex_proxy_flattens_auxiliaries_and_normalizes_explicit_project_paths() {
    let mut files: BTreeMap<&str, &[u8]> = BTreeMap::new();
    files.insert(
        "main.aux",
        br"\relax
\citation{root}
\@input{chapters/one.aux}
\bibstyle{././bib/natbib-oup}
\bibdata{./bib/references, ./bib/more}
\bibcite{old}{1}
",
    );
    files.insert(
        "chapters/one.aux",
        br"\citation{chapter}
\bibcite{chapter}{2}
",
    );
    let mut contents = br"\relax
"
    .to_vec();
    flatten(&files, "main.aux", &mut contents);
    assert_eq!(
        contents,
        br"\relax
\citation{root}
\citation{chapter}
\bibstyle{bib/natbib-oup}
\bibdata{bib/references, bib/more}
"
    );
}

#[test]
fn proxy_stems_are_private_and_vary_with_the_attempt() {
    let first = proxy_stem("/tmp/out/main.aux", 42, 0);
    let second = proxy_stem("/tmp/out/main.aux", 42, 1);
    assert!(first.starts_with("texe-bibtex-"));
    assert_eq!(first.len(), "texe-bibtex-".len() + 16);
    assert!(first["texe-bibtex-".len()..].chars().all(|c| c.is_ascii_hexdigit()));
    assert_ne!(first, second);
    assert_eq!(first, proxy_stem("/tmp/out/main.aux", 42, 0));
}

#[test]
fn detects_bibtex_controls_and_prefers_biber_for_the_same_job() {
    let main_aux: &[u8] = br"\relax
\bibstyle{plain}
\bibdata{references}
";
    let chapter_aux: &[u8] = br"\relax
\bibdata{chapter-references}
\bibstyle{alpha}
";
    let output = "/tmp/project/.texe/build/output";
    let candidates = vec![
        (format!("{output}/chapter.aux"), bibtex_control_file(chapter_aux)),
        (format!("{output}/main.aux"), bibtex_control_file(main_aux)),
        (format!("{output}/main.bcf"), false),
    ];
    let controls = select_controls(&candidates);
    assert_eq!(controls.len(), 2);
    assert_eq!(controls[0].path, format!("{output}/chapter.aux"));
    assert_eq!(controls[0].processor, BibliographyProcessor::Bibtex);
    assert_eq!(controls[1].path, format!("{output}/main.bcf"));
    assert_eq!(controls[1].processor, BibliographyProcessor::Biber);
}

#[test]
fn auxiliaries_without_database_and_style_are_not_controls() {
    let candidates = vec![
        ("/o/a.aux".to_string(), bibtex_control_file(b"\\relax\n\\bibdata{x}\n")),
        ("/o/b.log".to_string(), true),
    ];
    assert!(select_controls(&candidates).is_empty());
}

#[test]
fn persistent_cache_requires_the_default_bibliography_processor() {
    let mut manifest = ProjectManifest::with_defaults("main.tex", "pdflatex");
    let bibtex = BibliographyControl {
        path: "main.aux".to_string(),
        processor: BibliographyProcessor::Bibtex,
    };
    let biber = BibliographyControl {
        path: "main.bcf".to_string(),
        processor: BibliographyProcessor::Biber,
    };

    assert!(persistent_cache_supported(&bibtex, &manifest));
    assert!(persistent_cache_supported(&biber, &manifest));

    manifest.bibliography.bibtex = "./tools/bibtex".to_string();
    manifest.bibliography.biber = "./tools/biber".to_string();
    assert!(!persistent_cache_supported(&bibtex, &manifest));
    assert!(!persistent_cache_supported(&biber, &manifest));
}
