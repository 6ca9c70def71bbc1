use texe::config::ProjectManifest;
use texe::error::TexeError;
use texe::texls::{
    key_conflict_label, key_step, language_server_settings, update_exclusions, KeyStep, TomlSlot,
};

fn strings(values: &[&str]) -> Vec<String> {
    values.iter().map(|value| value.to_string()).collect()
}

#[test]
fn generated_trees_are_excluded_and_owned() {
    let manifest = ProjectManifest::with_defaults("main.tex", "pdflatex");
    let (array, owned) = update_exclusions(&strings(&["/notes/"]), &Vec::new(), &manifest);
    assert_eq!(array, ["/notes/", "/.texe/build/", "/.texe/texmf/"]);
    assert_eq!(owned, ["/.texe/build/", "/.texe/texmf/"]);
}

#[test]
fn stale_owned_patterns_leave_and_user_copies_stay_unowned() {
    let mut manifest = ProjectManifest::with_defaults("main.tex", "pdflatex");
    manifest.project.build_dir = "out[1]".to_string();
    let current = strings(&["/.texe/build/", "/.texe/texmf/", "/notes/"]);
    let owned = strings(&["/.texe/build/"]);
    let (array, owned) = update_exclusions(&current, &owned, &manifest);
    assert_eq!(array, ["/.texe/texmf/", "/notes/", "/out\\[1\\]/"]);
    assert_eq!(owned, ["/out\\[1\\]/"]);
}

#[test]
fn the_language_server_builds_like_texe() {
    let manifest = ProjectManifest::with_defaults("chapters/../paper.tex", "lualatex");
    assert_eq!(
        language_server_settings(&manifest),
        [
            ("root".to_string(), "chapters/../paper.tex".to_string()),
            ("aux-dir".to_string(), ".texe/build/output".to_string()),
            ("pdf-dir".to_string(), ".".to_string()),
            ("job-name".to_string(), "paper".to_string()),
        ]
    );
}

#[test]
fn build_settings_conflict_only_where_the_user_changed_them() {
    let after = "main.tex";
    assert_eq!(
        key_step("root", &TomlSlot::Text("main.tex".to_string()), &None, after).ok(),
        Some(KeyStep::Keep)
    );
    assert_eq!(
        key_step("root", &TomlSlot::Absent, &None, after).ok(),
        Some(KeyStep::Write { conflict: false })
    );
    assert_eq!(
        key_step("root", &TomlSlot::Text("old.tex".to_string()), &Some("old.tex".to_string()), after).ok(),
        Some(KeyStep::Write { conflict: false })
    );
    assert_eq!(
        key_step("root", &TomlSlot::Text("mine.tex".to_string()), &Some("old.tex".to_string()), after).ok(),
        Some(KeyStep::Write { conflict: true })
    );
    assert_eq!(
        key_step("root", &TomlSlot::OtherValue, &None, after).ok(),
        Some(KeyStep::Write { conflict: true })
    );
    assert!(matches!(
        key_step("root", &TomlSlot::NotAValue, &None, after),
        Err(TexeError::Build(message)) if message == "tex-ls.toml build.root must be a value"
    ));
    assert_eq!(key_conflict_label("job-name"), "tex-ls.toml / build / job-name");
}
