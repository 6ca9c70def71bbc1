use texe::config::ProjectManifest;
use texe::integrations::{
    extension_version_from_list, extension_version_in_text, merged_gitignore, remove_owned_block,
    slash_path,
};

#[test]
fn existing_extensions_are_detected_without_changing_their_version() {
    let output = b"publisher.other@1.2.3\njames-yu.latex-workshop@10.9.0\n";
    assert_eq!(
        extension_version_from_list(output, "James-Yu.latex-workshop").as_deref(),
        Some("10.9.0")
    );
}

#[test]
fn missing_extensions_have_no_version() {
    assert_eq!(extension_version_from_list(b"publisher.other@1.2.3\n", "james-yu.latex-workshop"), None);
    assert_eq!(
        extension_version_in_text("  james-yu.latex-workshop  \r\n", "James-Yu.latex-workshop").as_deref(),
        Some("")
    );
}

#[test]
fn owned_blocks_are_removed_with_their_line_break() {
    let contents = "user\n# >>> texe\n.texe/\n# <<< texe\nmore\n";
    assert_eq!(remove_owned_block(contents, "# >>> texe", "# <<< texe"), "user\nmore\n");
    assert_eq!(remove_owned_block("user\n", "# >>> texe", "# <<< texe"), "user\n");
}

#[test]
fn slash_paths_normalize_their_components() {
    assert_eq!(slash_path("a/./b//c"), "a/b/c");
}

#[test]
fn gitignore_keeps_user_content_and_only_names_derived_outputs() {
    let manifest = ProjectManifest::with_defaults("main.tex", "pdflatex");
    let contents = merged_gitignore("*.bak\n", &manifest);
    assert!(contents.starts_with("*.bak\n"));
    assert!(contents.contains("/.texe/build"));
    assert!(contents.contains("/.texe/state/pqty.lock"));
    assert!(contents.contains("/main.pdf"));
    assert!(!contents.contains("texe.lock"));
    assert!(!contents.contains("*.bib"));
}

#[test]
fn gitignore_blocks_are_replaced_not_repeated() {
    let manifest = ProjectManifest::with_defaults("paper/draft.tex", "pdflatex");
    let first = merged_gitignore("*.bak\n\n\n", &manifest);
    assert_eq!(
        first,
        "*.bak\n\n# >>> texe generated files\n/.texe/build\n/.texe/texmf\n/.texe/state/pqty.lock\n/draft.pdf\n/draft.synctex.gz\n# <<< texe generated files\n"
    );
    assert_eq!(merged_gitignore(&first, &manifest), first);
    assert!(merged_gitignore("", &manifest).starts_with("# >>> texe generated files\n"));
}
