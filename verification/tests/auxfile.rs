use texe::auxfile::{
    bibtex_auxiliary_include, bibtex_control_file, brace_groups, find_bytes, glossary_fields,
    normalize_bibtex_project_relative_paths, safe_extension,
};

#[test]
fn bibtex_path_normalization_leaves_non_explicit_paths_unchanged() {
    assert_eq!(
        normalize_bibtex_project_relative_paths(br"\bibdata{references, bib/more}"),
        br"\bibdata{references, bib/more}"
    );
}

#[test]
fn rejects_unsafe_glossary_extensions() {
    assert!(glossary_fields(br"\@newglossary{main}{glg}{gls}{../glo}").is_none());
}

#[test]
fn explicit_project_paths_lose_their_dot_slash() {
    assert_eq!(
        normalize_bibtex_project_relative_paths(br"\bibdata{./references,./bib/more}"),
        br"\bibdata{references,bib/more}"
    );
    assert_eq!(
        normalize_bibtex_project_relative_paths(br"\bibstyle{./styles/plain}"),
        br"\bibstyle{styles/plain}"
    );
}

#[test]
fn declared_glossaries_name_their_three_extensions() {
    let fields = glossary_fields(br"\@newglossary{acronym}{alg}{acr}{acn}").expect("glossary");
    assert_eq!(fields.log, "alg");
    assert_eq!(fields.output, "acr");
    assert_eq!(fields.input, "acn");
    assert!(glossary_fields(br"\relax").is_none());
}

#[test]
fn extensions_are_short_and_plain() {
    assert!(safe_extension(b"gls"));
    assert!(safe_extension(b"x-1"));
    assert!(!safe_extension(b""));
    assert!(!safe_extension(b"a.b"));
    assert!(!safe_extension(b"abcdefghijklmnopq"));
}

#[test]
fn byte_search_and_groups() {
    assert_eq!(find_bytes(b"abcabc", b"ca"), Some(2));
    assert_eq!(find_bytes(b"abc", b"d"), None);
    assert_eq!(
        brace_groups(b"{a}{bc}{}"),
        vec![b"a".to_vec(), b"bc".to_vec(), Vec::new()]
    );
}

#[test]
fn bibtex_controls_and_includes_are_recognized() {
    assert!(bibtex_control_file(b"\\citation{x}\n\\bibdata{refs}\n\\bibstyle{plain}\n"));
    assert!(!bibtex_control_file(b"\\citation{x}\n\\bibdata{refs}\n"));
    assert!(!bibtex_control_file(b"\\relax\n"));
    assert_eq!(
        bibtex_auxiliary_include(br"\@input{chapter.aux}"),
        Some(b"chapter.aux".to_vec())
    );
    assert_eq!(bibtex_auxiliary_include(br"\@input{}"), None);
}
