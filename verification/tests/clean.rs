use texe::error::TexeError;
use texe::clean::{
    cache_directories, cache_directory_path, enclosing_directories, parent_directories, clean_caches, cleanable_targets, measure_caches,
    clean_refusal, measure_project, record_removed_directories, retained, storage_report, CacheEntry, CleanOptions, CleanReport, PathKind,
    LiveToolchainArtifacts,
};
use texe::config::ProjectManifest;

fn live() -> LiveToolchainArtifacts {
    LiveToolchainArtifacts {
        home: "/home/ada/.local/share/texe".to_string(),
        runtimes: vec!["texlive-2025-pdftex-x86_64-linux-0123456789abcdef".to_string()],
        fingerprints: vec!["a".repeat(64)],
        components: vec!["biber-2.21-x86_64-linux-1111".to_string()],
        downloads: vec!["texlive-2025.tar.xz".to_string()],
    }
}

fn report() -> CleanReport {
    CleanReport {
        schema: "texe.clean-report/v1".to_string(),
        project: Vec::new(),
        caches: Vec::new(),
        freed_bytes: 0,
    }
}

#[test]
fn only_orphaned_cache_entries_are_swept() {
    let live = live();
    let runtime = live.runtimes[0].clone();
    let fingerprint = live.fingerprints[0].clone();
    let component = live.components[0].clone();
    let download = live.downloads[0].clone();

    assert!(retained("toolchains", &runtime, &live));
    assert!(retained("formats", &fingerprint, &live));
    assert!(retained("downloads", &download, &live));
    assert!(retained("components", &component, &live));
    assert!(retained("pqty", "store", &live));
    assert!(retained("editor", "texe-paper-layout.vsix", &live));

    assert!(!retained("toolchains", "texlive-2026-07-26-pdftex-x86_64-linux-deadbeefdeadbeef", &live));
    assert!(!retained("formats", &"0".repeat(64), &live));
    assert!(!retained("downloads", "abc.tar.xz", &live));
    assert!(!retained("components", "biber-2.20-x86_64-linux-0000", &live));
}

#[test]
fn a_sweep_never_leaves_the_known_cache_directories() {
    let live = live();
    for (directory, _) in cache_directories() {
        assert!(cache_directory_path(&live.home, directory).starts_with(&live.home));
    }
    assert_eq!(cache_directories().len(), 7);
    // An unknown directory below TEXE_HOME is not a candidate at all.
    assert!(retained("registries", "anything", &live));
}

#[test]
fn sweeps_record_only_what_they_remove() {
    let live = live();
    let listing = vec![
        CacheEntry {
            directory: "toolchains".to_string(),
            name: live.runtimes[0].clone(),
            path: "/h/toolchains/current".to_string(),
            bytes: 10,
        },
        CacheEntry {
            directory: "toolchains".to_string(),
            name: "old".to_string(),
            path: "/h/toolchains/old".to_string(),
            bytes: 7,
        },
        CacheEntry {
            directory: "pqty".to_string(),
            name: "store".to_string(),
            path: "/h/pqty/store".to_string(),
            bytes: 5,
        },
    ];
    let mut measured = report();
    measure_caches(CleanOptions::default(), &live, &listing, &mut measured);
    assert_eq!(measured.caches, vec!["/h/toolchains/old".to_string()]);
    assert_eq!(measured.freed_bytes, 7);

    let mut swept = report();
    let removed = clean_caches(CleanOptions { caches: true, all: true }, &live, &listing, &mut swept);
    assert_eq!(removed.len(), 3);
    assert_eq!(swept.freed_bytes, 22);
}

#[test]
fn cleaning_keeps_the_lock_and_the_published_artifact() {
    let manifest = ProjectManifest::with_defaults("main.tex", "pdflatex");
    let targets = cleanable_targets(&manifest).expect("valid manifest");
    assert_eq!(targets, vec![".texe/build", ".texe/texmf", ".texe/state/pqty.lock"]);
    assert!(!targets.iter().any(|t| t == "texe.lock" || t == "main.pdf" || t == "main.tex"));
}

#[test]
fn cleaning_a_project_that_was_never_built_is_not_an_error() {
    let manifest = ProjectManifest::with_defaults("main.tex", "pdflatex");
    let mut report = report();
    measure_project("/paper", &manifest, &vec![None, None, None], &Vec::new(), &mut report).expect("measure");
    assert!(report.project.is_empty());
    assert_eq!(report.freed_bytes, 0);
    measure_project("/paper", &manifest, &vec![Some(3), None, Some(4)], &plain_parents(), &mut report).expect("measure");
    assert_eq!(report.project, vec![".texe/build".to_string(), ".texe/state/pqty.lock".to_string()]);
    assert_eq!(report.freed_bytes, 7);
}

#[test]
fn cleaning_revalidates_programmatically_constructed_manifests() {
    let mut manifest = ProjectManifest::with_defaults("main.tex", "pdflatex");
    manifest.project.build_dir = ".".to_string();
    let error = cleanable_targets(&manifest).expect_err("unsafe clean");
    assert!(error.message().contains("project.build_dir"));
}

#[test]
fn storage_reports_list_what_exists() {
    let manifest = ProjectManifest::with_defaults("main.tex", "pdflatex");
    let report = storage_report(
        Some(&manifest),
        &vec![Some(100), None, Some(1)],
        "/h",
        &vec![Some(5), None, None, None, Some(2), None, None],
    )
    .expect("report");
    assert_eq!(report.schema, "texe.storage-report/v1");
    assert_eq!(report.total_bytes, 108);
    assert_eq!(report.project.len(), 2);
    assert_eq!(report.project[1].purpose, "internal package-manager lock");
    assert_eq!(report.shared[0].path, "/h/toolchains");
    assert_eq!(report.shared[1].path, "/h/pqty");
    assert_eq!(report.shared[1].purpose, "package registry, downloads, and shared store");
}

#[test]
fn parents_are_listed_nearest_first() {
    assert_eq!(parent_directories("a/b/c"), ["a/b", "a"]);
    assert_eq!(parent_directories(".texe/state/pqty.lock"), [".texe/state", ".texe"]);
    assert!(parent_directories("main.tex").is_empty());
}

#[test]
fn emptied_state_directories_are_removed_deepest_first() {
    let targets = [".texe/build", ".texe/texmf", ".texe/state/pqty.lock"].map(String::from).to_vec();
    let existing = [".texe", ".texe/state"].map(String::from).to_vec();
    assert_eq!(enclosing_directories(&targets, &existing), [".texe/state", ".texe"]);
    let only_top = vec![".texe".to_string()];
    assert_eq!(enclosing_directories(&targets, &only_top), [".texe"]);
    assert!(enclosing_directories(&targets, &Vec::new()).is_empty());
}

fn plain_parents() -> Vec<Vec<PathKind>> {
    vec![vec![PathKind::Present], vec![PathKind::Present], vec![PathKind::Present, PathKind::Present]]
}

#[test]
fn cleaning_refuses_to_follow_a_symlinked_private_parent() {
    let manifest = ProjectManifest::with_defaults("main.tex", "pdflatex");
    let mut report = report();
    let symlinked = vec![vec![PathKind::Symlink], vec![PathKind::Symlink], vec![PathKind::Present, PathKind::Symlink]];
    match measure_project("/paper", &manifest, &vec![Some(5), None, None], &symlinked, &mut report) {
        Err(TexeError::Manifest(message)) => {
            assert!(message.contains("symlinked derived directory"));
            assert_eq!(message, "refusing to clean through symlinked derived directory /paper/.texe");
        }
        other => panic!("symlinked parent must be rejected: {other:?}"),
    }
    assert!(report.project.is_empty());
    assert_eq!(report.freed_bytes, 0);
}

#[test]
fn the_symlink_walk_starts_at_the_project_root_and_stops_at_a_missing_directory() {
    let targets = vec![".texe/state/pqty.lock".to_string()];
    let deeper = vec![vec![PathKind::Symlink, PathKind::Present]];
    assert!(matches!(
        clean_refusal("/paper", &targets, &deeper),
        Err(TexeError::Manifest(m)) if m == "refusing to clean through symlinked derived directory /paper/.texe/state"
    ));
    let missing = vec![vec![PathKind::Symlink, PathKind::Missing]];
    assert!(clean_refusal("/paper", &targets, &missing).is_ok());
    assert!(clean_refusal("/paper", &vec!["texe.build".to_string()], &Vec::new()).is_ok());
}

#[test]
fn a_clean_reports_its_measure_then_the_emptied_directories() {
    let manifest = ProjectManifest::with_defaults("main.tex", "pdflatex");
    let mut measured = report();
    measure_project("/paper", &manifest, &vec![Some(3), None, Some(4)], &plain_parents(), &mut measured).expect("measure");
    let mut cleaned = report();
    measure_project("/paper", &manifest, &vec![Some(3), None, Some(4)], &plain_parents(), &mut cleaned).expect("measure");
    record_removed_directories(
        &mut cleaned,
        &vec![".texe/packages".to_string(), ".texe".to_string()],
        &vec![false, true],
    );
    assert_eq!(cleaned.freed_bytes, measured.freed_bytes);
    assert_eq!(cleaned.project[..measured.project.len()], measured.project[..]);
    assert_eq!(cleaned.project[measured.project.len()..], [".texe".to_string()]);
}
