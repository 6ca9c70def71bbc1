use texe::error::TexeError;
use texe::settings_file::plan_settings;
use texe::settings_restore::restore_settings;

const EXE: &str = "/opt/texe/bin/texe";

fn json(text: &str) -> serde_json::Value {
    jsonc_parser::cst::CstRootNode::parse(text, &Default::default())
        .expect("JSON")
        .to_serde_value()
        .expect("a value")
}

#[test]
fn an_untouched_file_goes_back_to_what_it_was() {
    let original = "{ \"editor.fontSize\": 14 }\n";
    let plan = plan_settings(Some(original), Vec::new(), "main.tex", EXE).expect("plan");
    let restored = restore_settings(&plan.text, &plan.text, Some(original), &plan.edits).expect("restore");
    assert_eq!(restored.as_deref(), Some(original));
    let created = plan_settings(None, Vec::new(), "main.tex", EXE).expect("plan");
    assert_eq!(restore_settings(&created.text, &created.text, None, &created.edits).expect("restore"), None);
}

#[test]
fn taking_the_settings_out_keeps_later_user_edits() {
    let original = "{\n  // mine\n  \"files.associations\": { \"*.tikz\": \"tex\" },\n  \"editor.fontSize\": 14\n}\n";
    let plan = plan_settings(Some(original), Vec::new(), "main.tex", EXE).expect("plan");
    let edited = plan.text.replacen("\"editor.fontSize\": 14", "\"editor.fontSize\": 16", 1);
    assert_ne!(edited, plan.text);
    let restored = restore_settings(&edited, &plan.text, Some(original), &plan.edits)
        .expect("restore")
        .expect("a file");
    assert!(restored.contains("// mine"));
    let value = json(&restored);
    assert_eq!(value["files.associations"]["*.tikz"], "tex");
    assert_eq!(value["editor.fontSize"], 16);
    let mut expected = json(original);
    expected["editor.fontSize"] = serde_json::Value::from(16);
    assert_eq!(value, expected);
}

#[test]
fn a_setting_the_user_changed_since_stays() {
    let plan = plan_settings(Some("{}"), Vec::new(), "main.tex", EXE).expect("plan");
    let edited = plan.text.replacen(&format!("\"{EXE}\""), "\"/home/ada/texe\"", 1);
    assert_ne!(edited, plan.text);
    let restored = restore_settings(&edited, &plan.text, Some("{}"), &plan.edits)
        .expect("restore")
        .expect("a file");
    assert_eq!(json(&restored), json("{ \"latex-workshop.latex.external.build.command\": \"/home/ada/texe\" }"));
}

#[test]
fn an_unreadable_settings_file_is_refused() {
    match restore_settings("not json", "{}", None, &Vec::new()) {
        Err(TexeError::Build(message)) => assert!(message.starts_with("invalid VS Code settings: ")),
        other => panic!("expected a build error, got {other:?}"),
    }
    match restore_settings("[1]", "{}", None, &Vec::new()) {
        Err(TexeError::Build(message)) => assert_eq!(message, "VS Code settings must be a JSON object"),
        other => panic!("expected a build error, got {other:?}"),
    }
}
