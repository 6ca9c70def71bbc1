use texe::editor::desired_settings;
use texe::error::TexeError;
use texe::settings_file::{plan_settings, LedgerEdit};

const EXE: &str = "/opt/texe/bin/texe";

fn build_error(result: Result<texe::settings_file::SettingsPlan, TexeError>) -> String {
    match result {
        Err(TexeError::Build(message)) => message,
        other => panic!("expected a build error, got {other:?}"),
    }
}

#[test]
fn a_missing_settings_file_gets_every_setting_and_a_ledger() {
    let plan = plan_settings(None, Vec::new(), "paper/main.tex", EXE).expect("plan");
    assert!(plan.conflicts.is_empty());
    let count = desired_settings("paper/main.tex", EXE).len();
    assert_eq!(plan.edits.len(), count);
    assert!(plan.edits.iter().all(|edit| edit.before.is_none() && !edit.before_exists));
    let value: serde_json::Value = serde_json::from_str(&plan.text).expect("JSON");
    assert_eq!(value["files.associations"]["*.tikz"], "latex");
    assert_eq!(value["latex-workshop.latex.jobname"], "main");
    assert_eq!(value["texe.editor.openPaper"]["source"], "paper/main.tex");
    assert_eq!(value["texe.executablePath"], EXE);
    let again = plan_settings(Some(&plan.text), plan.edits.clone(), "paper/main.tex", EXE).expect("replan");
    assert_eq!(again.text, plan.text);
    assert!(again.conflicts.is_empty());
    assert_eq!(again.edits.len(), count);
}

#[test]
fn user_values_are_conflicts_and_comments_stay() {
    let original = "{\n  // mine\n  \"files.associations\": { \"*.tikz\": \"tex\" },\n  \"editor.fontSize\": 14,\n}\n";
    let plan = plan_settings(Some(original), Vec::new(), "main.tex", EXE).expect("plan");
    assert_eq!(plan.conflicts, ["files.associations / *.tikz"]);
    assert!(plan.text.contains("// mine"));
    assert!(plan.text.contains("\"editor.fontSize\": 14"));
    let tikz = plan.edits.iter().find(|edit| edit.path == ["files.associations", "*.tikz"]).expect("recorded");
    assert_eq!(tikz.before.as_deref(), Some("\"tex\""));
    assert!(tikz.before_exists);
    assert_eq!(tikz.after, "\"latex\"");
}

#[test]
fn values_texe_wrote_are_replaced_without_a_conflict() {
    let original = "{ \"texe.executablePath\": \"/old/texe\" }";
    let ledger = vec![LedgerEdit {
        path: vec!["texe.executablePath".to_string()],
        before: None,
        before_exists: false,
        after: "\"/old/texe\"".to_string(),
    }];
    let plan = plan_settings(Some(original), ledger, "main.tex", EXE).expect("plan");
    assert!(plan.conflicts.is_empty());
    let owned = plan.edits.iter().filter(|edit| edit.path == ["texe.executablePath"]).collect::<Vec<_>>();
    assert_eq!(owned.len(), 1);
    assert_eq!(owned[0].after, format!("\"{EXE}\""));
    assert!(owned[0].before.is_none());
}

#[test]
fn settings_that_are_not_an_object_are_refused() {
    assert_eq!(build_error(plan_settings(Some("[]"), Vec::new(), "main.tex", EXE)), "VS Code settings must be a JSON object");
    assert!(build_error(plan_settings(Some("{"), Vec::new(), "main.tex", EXE)).starts_with("invalid VS Code settings: "));
    assert_eq!(
        build_error(plan_settings(Some("{ \"files.associations\": 5 }"), Vec::new(), "main.tex", EXE)),
        "files.associations must be an object before texe can merge settings"
    );
}
