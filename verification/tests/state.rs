use texe::digest::digest;
use texe::state::{
    accept_state, build_fingerprint, locked_project_files, new_state, project_file,
    verify_outputs, LockedPaths, OutputDigest, STATE_SCHEMA,
};

fn fingerprint(epoch: u64, manifest: &[u8], toolchain: &[u8], suite: &str, files: &Vec<(String, Option<Vec<u8>>)>) -> String {
    build_fingerprint("0.1.0", epoch, manifest, toolchain, suite, Some(b"{\"packages\":{}}".as_slice()), files)
        .expect("locked project has a fingerprint")
}

#[test]
fn an_unlocked_project_has_no_fingerprint() {
    let none = Vec::new();
    assert_eq!(build_fingerprint("0.1.0", 0, b"{}", b"{}", "sha256:command-suite", None, &none), None);
    assert_eq!(build_fingerprint("0.1.0", 0, b"{}", b"{}", "sha256:command-suite", Some(b"not json".as_slice()), &none), None);
    let locked = build_fingerprint("0.1.0", 0, b"{}", b"{}", "sha256:command-suite", Some(b"{}".as_slice()), &none)
        .expect("a JSON lock gives a fingerprint");
    assert!(locked.starts_with("sha256:"));
    assert_eq!(locked.len(), 71);
    assert!(locked[7..].chars().all(|c| c.is_ascii_digit() || ('a'..='f').contains(&c)));
}

fn files(entry: &[u8], bibliography: Option<&[u8]>) -> Vec<(String, Option<Vec<u8>>)> {
    vec![
        ("main.tex".to_string(), Some(entry.to_vec())),
        ("references.bib".to_string(), bibliography.map(|b| b.to_vec())),
    ]
}

#[test]
fn digests_are_lowercase_sha256() {
    assert_eq!(
        digest(b""),
        "sha256:e3b0c44298fc1c149afbf4c8996fb92427ae41e4649b934ca495991b7852b855"
    );
    assert_eq!(
        digest(b"abc"),
        "sha256:ba7816bf8f01cfea414140de5dae2223b00361a396177a9cb410ff61f20015ad"
    );
}

#[test]
fn editing_any_locked_project_file_changes_the_fingerprint() {
    let initial = fingerprint(1_700_000_000, b"{}", b"{}", "sha256:suite", &files(b"article", Some(b"@book{knuth,}")));
    assert_eq!(initial, fingerprint(1_700_000_000, b"{}", b"{}", "sha256:suite", &files(b"article", Some(b"@book{knuth,}"))));
    assert_ne!(initial, fingerprint(1_700_000_000, b"{}", b"{}", "sha256:suite", &files(b"report", Some(b"@book{knuth,}"))));
    assert_ne!(initial, fingerprint(1_700_000_000, b"{}", b"{}", "sha256:suite", &files(b"article", Some(b"@book{lamport,}"))));
}

#[test]
fn a_deleted_locked_file_changes_the_fingerprint() {
    let initial = fingerprint(1_700_000_000, b"{}", b"{}", "sha256:suite", &files(b"article", Some(b"@book{knuth,}")));
    assert_ne!(initial, fingerprint(1_700_000_000, b"{}", b"{}", "sha256:suite", &files(b"article", None)));
}

#[test]
fn the_timestamp_toolchain_and_manifest_all_participate() {
    let base = files(b"article", None);
    let initial = fingerprint(1_700_000_000, b"{\"a\":1}", b"{\"f\":\"abc\"}", "sha256:suite", &base);
    assert!(initial.starts_with("sha256:"));
    assert_eq!(initial.len(), 71);
    assert_ne!(initial, fingerprint(1_700_000_001, b"{\"a\":1}", b"{\"f\":\"abc\"}", "sha256:suite", &base));
    assert_ne!(initial, fingerprint(1_700_000_000, b"{\"a\":2}", b"{\"f\":\"abc\"}", "sha256:suite", &base));
    assert_ne!(initial, fingerprint(1_700_000_000, b"{\"a\":1}", b"{\"f\":\"def\"}", "sha256:suite", &base));
    assert_ne!(initial, fingerprint(1_700_000_000, b"{\"a\":1}", b"{\"f\":\"abc\"}", "sha256:other", &base));
}

#[test]
fn locked_paths_cannot_reach_outside_the_project() {
    assert_eq!(project_file("/project", "../secret"), None);
    assert_eq!(project_file("/project", "/etc/passwd"), None);
    assert_eq!(project_file("/project", "./main.tex"), None);
    assert_eq!(project_file("/project", ""), None);
    assert_eq!(project_file("/project", "a/../b"), None);
    assert_eq!(
        project_file("/project", "sections/one.tex").as_deref(),
        Some("/project/sections/one.tex")
    );
}

#[test]
fn locked_files_are_listed_once_in_order() {
    let locked = LockedPaths {
        root: Some("main.tex".to_string()),
        sources: vec!["main.tex".to_string(), "chapters/a.tex".to_string()],
        resolved: vec!["references.bib".to_string(), "chapters/a.tex".to_string()],
    };
    assert_eq!(locked_project_files(&locked), ["chapters/a.tex", "main.tex", "references.bib"]);
}

#[test]
fn recorded_outputs_must_still_be_on_disk_unchanged() {
    let state = new_state(
        "0.1.0",
        "sha256:fingerprint",
        "sha256:environment",
        "/work/paper",
        &vec![
            ("/work/paper/main.pdf".to_string(), b"%PDF-test".to_vec()),
            ("/work/paper/main.synctex.gz".to_string(), b"sync".to_vec()),
        ],
    );
    assert_eq!(state.schema, STATE_SCHEMA);
    assert_eq!(state.generated_with, "texe/0.1.0");
    assert_eq!(state.fingerprint, "sha256:fingerprint");
    assert_eq!(state.outputs[0].path, "main.pdf");
    let state = accept_state(state).expect("current schema");

    let checks = |pdf: Option<&[u8]>| -> Vec<(OutputDigest, Option<Vec<u8>>)> {
        vec![
            (state.outputs[0].clone(), pdf.map(|b| b.to_vec())),
            (state.outputs[1].clone(), Some(b"sync".to_vec())),
        ]
    };
    assert_eq!(
        verify_outputs("/work/paper", &checks(Some(b"%PDF-test"))).as_deref(),
        Some("/work/paper/main.pdf")
    );
    assert_eq!(verify_outputs("/work/paper", &checks(Some(b"%PDF-edited"))), None);
    assert_eq!(verify_outputs("/work/paper", &checks(None)), None);
    assert_eq!(verify_outputs("/work/paper", &checks(Some(b""))), None);
    assert_eq!(verify_outputs("/work/paper", &Vec::new()), None);
}

#[test]
fn other_schemas_are_not_reused() {
    let mut state = new_state("0.1.0", "f", "e", "/p", &Vec::new());
    state.schema = "texe.build-state/v0".to_string();
    assert!(accept_state(state).is_none());
}
