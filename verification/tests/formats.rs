use texe::error::TexeError;
use texe::formats::{
    format_failure, language_config_copies, missing_bootstrap, pdftex_map, unique_font_map,
    LUAOTFLOAD_CONFIG,
};

#[test]
fn formats_copy_the_locked_language_configuration() {
    let copies = language_config_copies("/p/texmf", "/cache/config", true);
    assert_eq!(copies.len(), 3);
    assert_eq!(
        copies[2],
        (
            "/p/texmf/tex/generic/config/language.us.lua".to_string(),
            "/cache/config/language.dat.lua".to_string()
        )
    );
    assert_eq!(language_config_copies("/p/texmf", "/c", false).len(), 2);
    assert!(LUAOTFLOAD_CONFIG.contains("location-precedence = texmf"));
    assert!(matches!(missing_bootstrap("/p/texmf/pdftex.ini"),
        TexeError::Build(message) if message == "locked format bootstrap file is absent from pqty.lock: /p/texmf/pdftex.ini"));
}

#[test]
fn font_maps_must_be_found_exactly_once() {
    let found = vec!["/t/fonts/map/dvips/lm/lm.map".to_string()];
    assert_eq!(unique_font_map("lm.map", &found).ok().as_deref(), Some("/t/fonts/map/dvips/lm/lm.map"));
    assert!(matches!(unique_font_map("../lm.map", &found),
        Err(TexeError::Build(message)) if message == "pqty emitted an invalid font-map name: ../lm.map"));
    assert!(matches!(unique_font_map("lm.map", &Vec::new()),
        Err(TexeError::Build(message)) if message.contains("missing")));
    let twice = vec!["/a/lm.map".to_string(), "/b/lm.map".to_string()];
    assert!(matches!(unique_font_map("lm.map", &twice),
        Err(TexeError::Build(message)) if message.contains("ambiguous")));
}

#[test]
fn pdftex_maps_name_each_fragment() {
    let map = pdftex_map(&vec![
        ("pdftex35.map".to_string(), b"a b\n".to_vec()),
        ("lm.map".to_string(), b"c d".to_vec()),
    ]);
    assert_eq!(
        String::from_utf8(map).unwrap(),
        "% Generated by texe from locked TeX Live map declarations.\n\n% pdftex35.map\na b\n\n% lm.map\nc d\n"
    );
}

#[test]
fn format_failures_show_the_end_of_the_log() {
    let log = (1..=50).map(|n| format!("line {n}")).collect::<Vec<_>>().join("\n");
    let TexeError::Build(message) = format_failure("pdflatex", &log, b"", b"", "exit status: 1") else {
        panic!("build error");
    };
    assert!(message.starts_with("could not generate locked pdflatex format:\nline 11\n"));
    assert!(message.ends_with("line 50"));
    let TexeError::Build(message) = format_failure("pdflatex", "", b"  ", b"\n", "exit status: 1") else {
        panic!("build error");
    };
    assert_eq!(message, "could not generate locked pdflatex format:\nengine exited with exit status: 1");
}
