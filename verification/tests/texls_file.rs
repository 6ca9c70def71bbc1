use texe::config::ProjectManifest;
use texe::error::TexeError;
use texe::texls_file::{plan_texls, KeyEdit, TexlsPlan};

fn build_error(result: Result<TexlsPlan, TexeError>) -> String {
    match result {
        Err(TexeError::Build(message)) => message,
        other => panic!("expected a build error, got {other:?}"),
    }
}

#[test]
fn a_missing_tex_ls_file_gets_exclusions_and_build_settings() {
    let manifest = ProjectManifest::with_defaults("main.tex", "pdflatex");
    let plan = plan_texls(None, &Vec::new(), Vec::new(), &manifest).expect("plan");
    assert!(plan.conflicts.is_empty());
    assert_eq!(plan.exclusions, ["/.texe/build/", "/.texe/texmf/"]);
    let document: toml::Table = plan.text.parse().expect("TOML");
    assert_eq!(document["extend-exclude"].as_array().map(Vec::len), Some(2));
    assert_eq!(document["build"]["root"].as_str(), Some("main.tex"));
    assert_eq!(document["build"]["aux-dir"].as_str(), Some(".texe/build/output"));
    assert_eq!(document["build"]["pdf-dir"].as_str(), Some("."));
    assert_eq!(document["build"]["job-name"].as_str(), Some("main"));
    assert_eq!(plan.edits.len(), 4);
    assert!(plan.edits.iter().all(|edit| edit.before.is_none()));
    let again = plan_texls(Some(&plan.text), &plan.exclusions, plan.edits.clone(), &manifest).expect("replan");
    assert_eq!(again.text, plan.text);
    assert!(again.conflicts.is_empty());
}

#[test]
fn user_build_settings_are_conflicts_and_comments_stay() {
    let manifest = ProjectManifest::with_defaults("main.tex", "pdflatex");
    let original = "# mine\nextend-exclude = [\"/notes/\"]\n\n[build]\nroot = \"other.tex\" # keep\n";
    let plan = plan_texls(Some(original), &Vec::new(), Vec::new(), &manifest).expect("plan");
    assert_eq!(plan.conflicts, ["tex-ls.toml / build / root"]);
    assert!(plan.text.contains("# mine"));
    assert!(plan.text.contains("root = \"main.tex\" # keep"));
    assert!(plan.text.contains("\"/notes/\""));
    let root = plan.edits.iter().find(|edit| edit.key == "root").expect("recorded");
    assert_eq!(root.before.as_deref().map(str::trim), Some("\"other.tex\" # keep"));
    let owned = vec![KeyEdit { key: "root".to_string(), before: None, after: "other.tex".to_string() }];
    let plan = plan_texls(Some(original), &Vec::new(), owned, &manifest).expect("plan");
    assert!(plan.conflicts.is_empty());
}

#[test]
fn malformed_tex_ls_files_are_refused() {
    let manifest = ProjectManifest::with_defaults("main.tex", "pdflatex");
    assert!(build_error(plan_texls(Some("[["), &Vec::new(), Vec::new(), &manifest)).starts_with("invalid tex-ls.toml: "));
    assert_eq!(
        build_error(plan_texls(Some("extend-exclude = 5\n"), &Vec::new(), Vec::new(), &manifest)),
        "tex-ls.toml extend-exclude must be an array of strings"
    );
    assert_eq!(
        build_error(plan_texls(Some("build = 3\n"), &Vec::new(), Vec::new(), &manifest)),
        "tex-ls.toml build must be a table"
    );
    assert_eq!(
        build_error(plan_texls(Some("[build.root]\na = 1\n"), &Vec::new(), Vec::new(), &manifest)),
        "tex-ls.toml build.root must be a value"
    );
}
