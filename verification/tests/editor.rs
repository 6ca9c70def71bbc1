use texe::editor::{desired_settings, SettingLeaf};

fn find<'a>(settings: &'a [(Vec<String>, SettingLeaf)], path: &[&str]) -> &'a SettingLeaf {
    &settings
        .iter()
        .find(|(p, _)| p.iter().map(String::as_str).eq(path.iter().copied()))
        .expect("setting")
        .1
}

fn text(leaf: &SettingLeaf) -> &str {
    match leaf {
        SettingLeaf::Text(t) => t,
        other => panic!("not text: {other:?}"),
    }
}

#[test]
fn editor_settings_build_with_texe_and_open_the_project_pdf() {
    let settings = desired_settings("paper/main.tex", "/usr/local/bin/texe");
    assert_eq!(settings.len(), 23);
    assert_eq!(text(find(&settings, &["latex-workshop.latex.jobname"])), "main");
    assert_eq!(text(find(&settings, &["texe.editor.openPaper", "pdf"])), "main.pdf");
    assert_eq!(text(find(&settings, &["texe.editor.openPaper", "source"])), "paper/main.tex");
    assert_eq!(text(find(&settings, &["texe.executablePath"])), "/usr/local/bin/texe");
    assert_eq!(text(find(&settings, &["latex-workshop.latex.autoBuild.run"])), "never");
    assert!(matches!(find(&settings, &["search.exclude", "**/.texe"]), SettingLeaf::Flag(true)));
    match find(&settings, &["latex-workshop.latex.external.build.args"]) {
        SettingLeaf::List(args) => assert_eq!(args, &["editor-build", "--project", "%WORKSPACE_FOLDER%"]),
        other => panic!("not a list: {other:?}"),
    }
    let mut keys: Vec<String> = settings.iter().map(|(p, _)| p.join("\u{0}")).collect();
    let listed = keys.clone();
    keys.sort();
    assert_eq!(keys, listed);
}
