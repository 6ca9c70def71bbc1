use texe::trace::{
    babel_definition_from_descriptor, font_provider_requirements, fontspec_regular_stem,
    is_safe_registry_file_request, logical_log_lines, missing_babel_language,
    missing_file_input, missing_font_metric, missing_fontspec_file, missing_lua_module,
    missing_mktexpk_provider, missing_package_inputs, missing_pdftex_type1_provider,
    missing_tex_input,
};

fn pair(a: &str, b: &str) -> (String, String) {
    (a.to_string(), b.to_string())
}

#[test]
fn parses_only_package_shaped_missing_files() {
    let log = r#"
! LaTeX Error: File `xcolor.sty' not found.
! LaTeX Error: File `article.cls' not found.
! LaTeX Error: File `ushyphex.tex' not found.
! LaTeX Error: File `../untrusted.tex' not found.
! Package fontenc Error: Encoding file `lgrenc.def' not found.
! Package babel Error: Unknown option 'english'.
! Package tikz Error: I did not find the tikz library 'tikzmark'. I looked for
! Package biblatex Error: Style 'ieee' not found.
! I can't find file `RoyalIn.fd'.
! Font TS1/cmr/m/n/10.95=tcrm1095 at 10.95pt not loadable: Metric (TFM) file no
! Font \=txsyc at 10.95pt not loadable: metric data not found or bad.
! Font \U/MnSymbolC/m/n/10.95=MnSymbolC10 at 10.95pt not loadable: metric data n
! Font \SOUL@tt=ectt1000 not loadable: metric data not found or bad.
! Font \T1/pbk/l/n/10=nullfont not loadable: Metric (TFM) file not found.
(fontspec)                The font "texgyretermes-regular" cannot be found;
(fontspec)                The font "Inconsolatazi4" cannot be found;
!pdfTeX error: pdftex (file putb8a.pfb): cannot open Type
 1 font file for reading
[\directlua]:1: module 'luaotfload-main' not found:
No file LGRcmr.fd.
"#;
    assert_eq!(
        missing_package_inputs(log, &Vec::new()),
        vec![
            pair("Inconsolatazi4-Regular", "font-family"),
            pair("MnSymbolC10.tfm", "font-metric"),
            pair("RoyalIn.fd", "tex"),
            pair("article.cls", "tex"),
            pair("ectt1000.tfm", "font-metric"),
            pair("english.ldf", "tex"),
            pair("ieee.bbx", "bibliography"),
            pair("lgrcmr.fd", "tex"),
            pair("lgrenc.def", "tex"),
            pair("luaotfload-main.lua", "data"),
            pair("putb8a.pfb", "type1-font"),
            pair("tcrm1095.tfm", "font-metric"),
            pair("texgyretermes-regular", "font-family"),
            pair("tikzlibrarytikzmark.code.tex", "tex"),
            pair("txsyc.tfm", "font-metric"),
            pair("ushyphex.tex", "data"),
            pair("xcolor.sty", "tex"),
        ]
    );
}

#[test]
fn rejects_unsafe_babel_option_text() {
    assert_eq!(
        missing_babel_language("! Package babel Error: Unknown option '../english'."),
        None
    );
    assert_eq!(
        missing_babel_language("! Package babel Error: Unknown option 'english.ini'."),
        None
    );
    assert_eq!(
        missing_font_metric(
            "! Font T1/cmr/m/n/10=../../secret at 10pt not loadable: Metric (TFM) file"
        ),
        None
    );
    assert_eq!(
        missing_pdftex_type1_provider("ux-runtime/bin/pdftex (file tcrm1000): Font tcrm1000 at 6"),
        Some("cm-super")
    );
    assert_eq!(
        missing_pdftex_type1_provider(
            "!pdfTeX error: /runtime/pdftex (file cmr10): Font cmr10 at 600"
        ),
        None
    );
    assert_eq!(
        missing_fontspec_file("(fontspec) The font \"../../secret\" cannot be found;"),
        None
    );
}

#[test]
fn detects_babel_language_in_file_line_error_output() {
    assert_eq!(
        missing_babel_language(
            "/project/.texe/texmf/tex/generic/babel/babel.sty:4330: \
             Package babel Error: Unknown option 'english'."
        ),
        Some("english".to_string())
    );
}

#[test]
fn detects_babel_language_when_tex_wraps_the_diagnostic_marker() {
    let log = format!(
        "{}Package b\nabel Error: Unknown option 'english'.",
        "x".repeat(70)
    );
    assert_eq!(
        missing_package_inputs(&log, &Vec::new()),
        vec![("english.ldf".to_string(), "tex".to_string())]
    );
}

#[test]
fn babel_language_diagnostics_follow_the_locked_locale_mapping() {
    let definition = babel_definition_from_descriptor("\\BabelDefinitionFile{0}{russianb}{}%\n")
        .expect("locale descriptor names a definition file");
    assert_eq!(definition, "russianb.ldf");
    assert_eq!(
        missing_package_inputs(
            "! Package babel Error: Unknown option 'russian'.",
            &vec![("russian".to_string(), definition)],
        ),
        vec![("russianb.ldf".to_string(), "tex".to_string())]
    );
}

#[test]
fn detects_wrapped_pdftex_ec_font_failures() {
    assert_eq!(
        missing_pdftex_type1_provider(
            "ux-runtime/bin/pdftex (file ecrm3583): Font ecrm3583 at 600 not found"
        ),
        Some("cm-super")
    );
}

#[test]
fn detects_ec_fonts_from_missfont_artifact() {
    assert_eq!(
        font_provider_requirements(
            "ordinary TeX log\n",
            "mktexpk --mfmode / --bdpi 600 --mag 1+0/600 --dpi 600 ecrm3583\nmktextfm ecti1000\n",
        ),
        vec!["cm-super".to_string(), "ec".to_string()]
    );
    assert!(font_provider_requirements("ordinary TeX log\n", "mktextfm cmr10\n").is_empty());
}

#[test]
fn logical_lines_join_only_full_width_lines() {
    let wrapped = "y".repeat(79);
    let log = format!("{wrapped}\ntail\nshort\r\nlast");
    let lines: Vec<String> = logical_log_lines(&log)
        .into_iter()
        .map(|line| line.into_iter().collect())
        .collect();
    assert_eq!(lines, vec![format!("{wrapped}tail"), "short".to_string(), "last".to_string()]);
}

#[test]
fn registry_requests_must_be_plain_relative_paths() {
    assert!(is_safe_registry_file_request("tex/latex/xcolor.sty"));
    assert!(!is_safe_registry_file_request(""));
    assert!(!is_safe_registry_file_request("/etc/passwd"));
    assert!(!is_safe_registry_file_request("a//b.sty"));
    assert!(!is_safe_registry_file_request("a/./b.sty"));
    assert!(!is_safe_registry_file_request("../b.sty"));
    assert!(!is_safe_registry_file_request("a\\b.sty"));
    assert!(!is_safe_registry_file_request("a/"));
    assert!(is_safe_registry_file_request(".hidden/..b.sty"));
}

#[test]
fn single_parsers_name_file_and_kind() {
    assert_eq!(
        missing_file_input("! LaTeX Error: File `plain.bst' not found."),
        Some(pair("plain.bst", "bibliography"))
    );
    assert_eq!(missing_file_input("! LaTeX Error: File `notes.txt' not found."), None);
    assert_eq!(missing_tex_input("! I can't find file `x y.sty'."), None);
    assert_eq!(
        missing_tex_input("! I can't find file `amsmath.STY'."),
        Some(pair("amsmath.STY", "tex"))
    );
    assert_eq!(missing_lua_module("module 'a.b.c' not found"), Some("c.lua".to_string()));
    assert_eq!(missing_mktexpk_provider("mktextfm tcrm1000"), Some("cm-super"));
    assert_eq!(missing_mktexpk_provider("mktextfm cmr10"), None);
    assert_eq!(fontspec_regular_stem("Latin Modern BoldItalic"), "LatinModern-BoldItalic");
    assert_eq!(fontspec_regular_stem("Fira Sans"), "FiraSans-Regular");
    assert_eq!(fontspec_regular_stem("Fira-Sans"), "Fira-Sans");
    assert_eq!(
        missing_fontspec_file("The font \"Lato.ttf\" cannot be found"),
        Some(pair("Lato.ttf", "true-type-font"))
    );
}

#[test]
fn every_missing_input_is_a_plain_request_of_a_known_kind() {
    let log = "! LaTeX Error: File `/etc/passwd.sty' not found.\n\
! LaTeX Error: File `a//b.sty' not found.\n\
! LaTeX Error: File `pkg/sub.sty' not found.\n\
! I can't find file `../up.fd'.\n\
[\\directlua]:1: module 'a/b' not found:\n\
(fontspec)                The font \"Fira Sans\" cannot be found;\n\
No file T1lmr.fd.\n";
    let found = missing_package_inputs(log, &vec![pair("german", "ngermanb.ldf")]);
    assert_eq!(
        found,
        vec![
            pair("FiraSans-Regular", "font-family"),
            pair("pkg/sub.sty", "tex"),
            pair("t1lmr.fd", "tex"),
        ]
    );
    let kinds = [
        "tex",
        "data",
        "bibliography",
        "font-metric",
        "type1-font",
        "open-type-font",
        "true-type-font",
        "font-family",
    ];
    for (request, kind) in &found {
        assert!(is_safe_registry_file_request(request));
        assert!(kinds.contains(&kind.as_str()));
    }
}
