use texe::recorder::{equivalent_root_alias, portable_windows_path, recorder_spelling_matches};

#[test]
fn recorder_alias_preserves_the_windows_spelling_of_a_proven_root() {
    let recorded = r"c:\Users\RUNNER~1\AppData\Local\texe\runtime\texmf-dist\web2c\texmf.cnf";
    let canonical_recorded =
        r"\\?\C:\Users\runneradmin\AppData\Local\texe\runtime\texmf-dist\web2c\texmf.cnf";
    let canonical_root = r"\\?\C:\Users\runneradmin\AppData\Local\texe\runtime";
    assert_eq!(
        equivalent_root_alias(recorded, canonical_recorded, canonical_root),
        Some(r"c:\Users\RUNNER~1\AppData\Local\texe\runtime".to_string())
    );
}

#[test]
fn recorder_working_directory_allows_only_non_ascii_substitution() {
    let expected = r"\\?\C:\Users\Ada\Research Δ Results";
    assert!(recorder_spelling_matches(r"c:\Users\Ada\Research ? Results", expected));
    assert!(!recorder_spelling_matches(r"c:\Users\Ada\Research X Results", expected));
    assert!(!recorder_spelling_matches(r"c:\Users\?da\Research Δ Results", expected));
}

#[test]
fn unrelated_roots_have_no_alias() {
    assert_eq!(
        equivalent_root_alias(r"c:\a\b.tex", r"\\?\C:\x\b.tex", r"\\?\C:\y"),
        None
    );
    assert_eq!(
        equivalent_root_alias(r"c:\A\b.tex", r"\\?\C:\a", r"\\?\C:\a"),
        Some(r"c:\A\b.tex".to_string())
    );
}

#[test]
fn portable_paths_drop_the_verbatim_prefix() {
    assert_eq!(portable_windows_path(r"\\?\C:\Users\Ada"), "C:/Users/Ada");
    assert_eq!(portable_windows_path(r"\\?\UNC\server\share\x"), "//server/share/x");
    assert_eq!(portable_windows_path(r"c:\plain"), "c:/plain");
}
