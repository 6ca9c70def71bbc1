use texe::error::TexeError;
use texe::settings::{
    conflict_label, container_removable, leaf_step, restore_step, settings_outcome, LeafState,
    LeafStep, SettingRestore, SettingsOutcome,
};

fn path(keys: &[&str]) -> Vec<String> {
    keys.iter().map(|key| key.to_string()).collect()
}

fn state(present: bool, desired: bool, owned: Option<bool>) -> LeafState {
    LeafState { present, desired, owned, blocked_at: None }
}

#[test]
fn settings_already_set_by_texe_are_left_alone() {
    let key = path(&["latex-workshop.latex.jobname"]);
    assert_eq!(leaf_step(&key, state(true, true, None)).ok(), Some(LeafStep::Unchanged));
}

#[test]
fn user_values_are_conflicts_and_texe_values_are_updated() {
    let key = path(&["latex-workshop.latex.jobname"]);
    assert_eq!(
        leaf_step(&key, state(false, false, None)).ok(),
        Some(LeafStep::Write { conflict: false, new_edit: true })
    );
    assert_eq!(
        leaf_step(&key, state(true, false, None)).ok(),
        Some(LeafStep::Write { conflict: true, new_edit: true })
    );
    assert_eq!(
        leaf_step(&key, state(true, false, Some(true))).ok(),
        Some(LeafStep::Write { conflict: false, new_edit: false })
    );
    assert_eq!(
        leaf_step(&key, state(true, false, Some(false))).ok(),
        Some(LeafStep::Write { conflict: true, new_edit: false })
    );
}

#[test]
fn a_non_object_ancestor_stops_the_merge() {
    let key = path(&["files.associations", "*.tikz"]);
    let blocked = LeafState { blocked_at: Some(1), ..state(false, false, None) };
    assert!(matches!(
        leaf_step(&key, blocked),
        Err(TexeError::Build(message))
            if message == "files.associations must be an object before texe can merge settings"
    ));
    assert_eq!(conflict_label(&key), "files.associations / *.tikz");
}

#[test]
fn conflicts_need_the_users_consent() {
    let conflicts = vec!["a".to_string(), "b / c".to_string()];
    assert!(matches!(
        settings_outcome(&conflicts, false, &None, "{}", false),
        Err(TexeError::Build(message)) if message == "VS Code settings conflict: a, b / c; inspect with `texe editor --preview`, then use --replace-conflicts to accept"
    ));
    assert_eq!(
        settings_outcome(&conflicts, true, &None, "{}", false).ok(),
        Some(SettingsOutcome::Created)
    );
    assert_eq!(
        settings_outcome(&Vec::new(), false, &Some("{}".to_string()), "{}", true).ok(),
        Some(SettingsOutcome::Preserved)
    );
    assert_eq!(
        settings_outcome(&Vec::new(), false, &Some("{ }".to_string()), "{}", true).ok(),
        Some(SettingsOutcome::Replaced)
    );
}

#[test]
fn removal_restores_only_what_texe_still_owns() {
    assert_eq!(restore_step(1, false, true, true), SettingRestore::Keep);
    assert_eq!(restore_step(1, true, true, true), SettingRestore::Before);
    assert_eq!(restore_step(1, true, false, true), SettingRestore::Null);
    assert_eq!(restore_step(1, true, false, false), SettingRestore::Remove);
    assert_eq!(restore_step(0, true, false, false), SettingRestore::Keep);
    assert!(container_removable(false, true, "{}"));
    assert!(!container_removable(false, true, "{ // mine\n}"));
    assert!(!container_removable(true, true, "{}"));
}
