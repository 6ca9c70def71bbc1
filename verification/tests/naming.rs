use texe::naming::{project_name_problem, title_from_project_name};

#[test]
fn project_names_become_paper_titles() {
    assert_eq!(title_from_project_name("thesis-draft_v2"), "Thesis Draft V2");
    assert_eq!(title_from_project_name("--__"), "Untitled Paper");
    assert_eq!(title_from_project_name("étude"), "Étude");
    assert_eq!(title_from_project_name("a--b"), "A B");
}

#[test]
fn project_folders_are_one_new_plain_name() {
    assert_eq!(project_name_problem("paper", "/work/paper", false), None);
    assert_eq!(
        project_name_problem("  ", "/work/  ", false).as_deref(),
        Some("enter a project folder name")
    );
    for name in ["a/b", "/abs", ".", ".."] {
        assert_eq!(
            project_name_problem(name, "/work/x", false).as_deref(),
            Some("use one folder name without `/`, `\\`, `.` or `..`; texe creates it here")
        );
    }
    assert_eq!(
        project_name_problem("paper", "/work/paper", true).as_deref(),
        Some("/work/paper already exists; choose a new name, or run `texe init` inside that folder")
    );
}
