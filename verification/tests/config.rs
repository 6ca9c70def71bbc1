use texe::config::{GeneratedInput, ProjectManifest};
use texe::error::TexeError;

fn manifest() -> ProjectManifest {
    ProjectManifest::with_defaults("main.tex", "pdflatex")
}

fn message(result: Result<(), TexeError>) -> String {
    match result {
        Err(TexeError::Manifest(m)) => m,
        Err(other) => panic!("unexpected error {other:?}"),
        Ok(()) => panic!("expected an error"),
    }
}

#[test]
fn defaults_form_a_valid_manifest() {
    let manifest = manifest();
    manifest.validate().expect("manifest validates");
    assert_eq!(manifest.project.build_dir, ".texe/build");
    assert!(manifest.project.generated.is_empty());
    assert!(manifest.inputs.roots.is_empty());
    assert_eq!(manifest.toolchain.provider, "managed");
    assert_eq!(manifest.toolchain.channel, "stable");
    assert_eq!(manifest.bibliography.bibtex, "bibtex");
    assert_eq!(manifest.bibliography.biber, "biber");
    assert!(manifest.bibliography.roots.is_empty());
    assert_eq!(manifest.index.makeindex, "makeindex");
    assert!(!manifest.toolchain.shell_escape);
    assert!(!manifest.toolchain.allow_unmanaged_commands);
    assert_eq!(manifest.packages.manager, "pqty");
    assert_eq!(manifest.packages.lock, ".texe/state/pqty.lock");
    assert!(manifest.packages.remote);
    assert_eq!(manifest.packages.link, "copy");
}

#[test]
fn abbreviated_link_modes_are_rejected() {
    let mut manifest = manifest();
    manifest.packages.link = "symlink".to_string();
    let error = message(manifest.validate());
    assert!(error.contains("experimental-symlink"));
    assert_eq!(
        TexeError::Manifest(error).message(),
        "invalid project manifest: packages.link must be one of copy, experimental-symlink, experimental-hardlink; got `symlink`"
    );
}

#[test]
fn paths_cannot_escape_project() {
    let mut manifest = manifest();
    manifest.packages.texmf = "../shared".to_string();
    assert!(manifest.validate().is_err());
}

#[test]
fn cleanable_paths_stay_in_non_overlapping_private_namespaces() {
    let mut manifest = manifest();
    for unsafe_path in [".", ".texe", "main.tex", "./.texe/build"] {
        manifest.project.build_dir = unsafe_path.to_string();
        assert!(manifest.validate().is_err(), "accepted unsafe build directory {unsafe_path}");
    }
    manifest.project.build_dir = ".texe/build".to_string();
    manifest.packages.lock = "main.tex".to_string();
    assert!(manifest.validate().is_err());

    manifest.packages.lock = ".texe/build/pqty.lock".to_string();
    assert_eq!(
        message(manifest.validate()),
        "project.build_dir and packages.lock cannot overlap"
    );
    manifest.packages.lock = ".texe/state/pqty.lock".to_string();
    manifest.packages.store = Some(".texe/build/store".to_string());
    assert_eq!(
        message(manifest.validate()),
        "project.build_dir and packages.store cannot overlap"
    );
}

#[test]
fn managed_command_overrides_require_an_explicit_opt_out() {
    let mut manifest = manifest();
    manifest.packages.manager = "tools/pqty".to_string();
    assert!(manifest.validate().is_err());

    manifest.toolchain.allow_unmanaged_commands = true;
    manifest.validate().expect("explicit override validates");
    assert!(manifest.uses_unmanaged_commands());

    manifest.toolchain.provider = "system".to_string();
    manifest.toolchain.allow_unmanaged_commands = false;
    manifest.validate().expect("the system provider is already an unmanaged boundary");
}

#[test]
fn generated_inputs_and_search_roots_are_portable_and_unique() {
    let mut manifest = manifest();
    manifest.project.generated.push(GeneratedInput {
        path: "build/Version.tex".to_string(),
        content: "\\newcommand{\\Version}{locked}\n".to_string(),
    });
    manifest.inputs.roots = vec!["styles".to_string()];
    manifest.bibliography.roots = vec!["vendor/natbib".to_string()];
    manifest.validate().expect("manifest validates");

    manifest.project.generated.push(GeneratedInput {
        path: "build/Version.tex".to_string(),
        content: "duplicate".to_string(),
    });
    assert_eq!(
        message(manifest.validate()),
        "project.generated contains duplicate path build/Version.tex"
    );
    manifest.project.generated.pop();

    manifest.inputs.roots = vec!["styles".to_string(), "styles".to_string()];
    assert!(manifest.validate().is_err());
    manifest.inputs.roots = vec!["../shared".to_string()];
    assert_eq!(
        message(manifest.validate()),
        "inputs.roots[0] must contain only portable project-relative path components"
    );
    manifest.inputs.roots.clear();

    manifest.bibliography.roots = vec!["../shared".to_string()];
    assert!(manifest.validate().is_err());
    manifest.bibliography.roots = vec![".texe/private".to_string()];
    assert_eq!(
        message(manifest.validate()),
        "bibliography.roots[0] cannot target texe's private .texe directory"
    );

    for unsafe_entry in [
        "../main.tex",
        "./main.tex",
        "C:/paper/main.tex",
        "bad\nname.tex",
        "paper//main.tex",
        "paper/",
    ] {
        manifest.bibliography.roots.clear();
        manifest.project.entry = unsafe_entry.to_string();
        assert!(manifest.validate().is_err(), "accepted non-portable entry {unsafe_entry:?}");
    }
}

#[test]
fn generated_inputs_are_bounded() {
    let mut manifest = manifest();
    manifest.project.generated.push(GeneratedInput {
        path: "big.tex".to_string(),
        content: "x".repeat(1024 * 1024 + 1),
    });
    assert_eq!(
        message(manifest.validate()),
        "project.generated input big.tex exceeds 1048576 bytes"
    );
    manifest.project.generated.clear();
    for index in 0..5 {
        manifest.project.generated.push(GeneratedInput {
            path: format!("part{index}.tex"),
            content: "y".repeat(1024 * 1024),
        });
    }
    assert_eq!(
        message(manifest.validate()),
        "project.generated content exceeds 4194304 bytes in total"
    );
    manifest.project.generated.clear();
    manifest.toolchain.max_passes = 1;
    assert_eq!(message(manifest.validate()), "toolchain.max_passes must be between 2 and 20");
    manifest.toolchain.max_passes = 5;
    manifest.toolchain.kpsewhich = "  ".to_string();
    assert_eq!(message(manifest.validate()), "toolchain.kpsewhich cannot be empty");
    manifest.toolchain.kpsewhich = "kpsewhich".to_string();
    manifest.schema = "texe.project/v2".to_string();
    assert_eq!(
        message(manifest.validate()),
        "unsupported manifest schema texe.project/v2; expected texe.project/v1"
    );
}
