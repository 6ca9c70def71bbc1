use texe::engine::{
    engine_arguments, engine_interaction_arguments, environment_cache_key, format_arguments,
    format_environment, format_recipe, is_auxiliary, job_stem, name, system_fontconfig, xml_text,
};
use texe::environment::{ManagedRuntime, ResolvedToolchain};
use texe::error::TexeError;

fn system_toolchain() -> ResolvedToolchain {
    ResolvedToolchain {
        engine: "pdflatex".to_string(),
        engine_executable: "/usr/bin/pdflatex".to_string(),
        texmf_dist: "/usr/share/texmf-dist".to_string(),
        engine_roots: Vec::new(),
        managed: None,
    }
}

#[test]
fn discovery_collects_multiple_errors_while_final_passes_fail_fast() {
    let discovery = engine_interaction_arguments(false);
    assert!(discovery.contains(&"-interaction=nonstopmode".to_string()));
    assert!(!discovery.contains(&"-halt-on-error".to_string()));
    let final_pass = engine_interaction_arguments(true);
    assert!(final_pass.contains(&"-halt-on-error".to_string()));
}

#[test]
fn format_bootstrap_uses_the_exact_locked_ini() {
    let recipe = format_recipe("pdflatex").expect("recipe");
    let arguments = format_arguments(&system_toolchain(), &recipe, "/locked/texmf", "/staging/formats", "/project");
    assert_eq!(
        arguments.last().map(String::as_str),
        Some("/locked/texmf/tex/latex/tex-ini-files/pdflatex.ini")
    );
    assert_eq!(
        arguments,
        [
            "-ini",
            "-recorder",
            "-interaction=nonstopmode",
            "-halt-on-error",
            "-jobname=pdflatex",
            "-progname=pdflatex",
            "-etex",
            "-translate-file=/usr/share/texmf-dist/web2c/cp227.tcx",
            "-output-directory=/staging/formats",
            "/locked/texmf/tex/latex/tex-ini-files/pdflatex.ini",
        ]
    );
}

#[test]
fn formats_exist_only_for_known_engines() {
    assert_eq!(name("lualatex").expect("lualatex"), "lualatex");
    let recipe = format_recipe("lualatex").expect("recipe");
    assert!(recipe.language_lua && !recipe.extended_mode && recipe.translate_file.is_none());
    match format_recipe("context") {
        Err(TexeError::Build(message)) => assert_eq!(message, "engine `context` has no locked format recipe"),
        other => panic!("unexpected {other:?}"),
    }
}

#[test]
fn managed_formats_bootstrap_from_the_managed_runtime() {
    let mut toolchain = system_toolchain();
    toolchain.managed = Some(ManagedRuntime {
        root: "/data/runtime".to_string(),
        binary_dir: "/data/runtime/bin".to_string(),
        registry_url: "https://registry.example/tlpdb".to_string(),
        registry_metadata_sha256: "0".repeat(64),
        bootstrap_providers: Vec::new(),
    });
    let recipe = format_recipe("pdflatex").expect("recipe");
    let arguments = format_arguments(&toolchain, &recipe, "/locked/texmf", "/staging/formats", "/project");
    assert!(arguments.contains(&"-translate-file=/data/runtime/texmf-dist/web2c/cp227.tcx".to_string()));
    let environment = format_environment(&toolchain, "pdflatex", "/staging", "/staging/formats", "/locked/texmf", "/project");
    let find = |key: &str| environment.iter().find(|(k, _)| k == key).map(|(_, v)| v.clone());
    assert_eq!(find("SOURCE_DATE_EPOCH").as_deref(), Some("0"));
    assert_eq!(find("PATH").as_deref(), Some("/data/runtime/bin"));
    assert_eq!(
        find("TEXINPUTS_pdflatex").as_deref(),
        Some("/staging//:/staging/config//:/locked/texmf//:/data/runtime/texmf-dist//")
    );
    assert_eq!(
        find("TEXFONTMAPS").as_deref(),
        Some("/staging/user-config/fonts/map//:/locked/texmf/fonts/map//:/data/runtime/texmf-dist/fonts/map//")
    );
}

#[test]
fn environment_fingerprints_must_be_plain_keys() {
    assert_eq!(environment_cache_key("sha256:abc-1_2").expect("key"), "abc-1_2");
    assert_eq!(environment_cache_key("abc").expect("key"), "abc");
    assert!(environment_cache_key("sha256:").is_err());
    assert!(environment_cache_key("sha256:../x").is_err());
}

#[test]
fn document_runs_use_the_format_and_the_interaction_mode() {
    let arguments = engine_arguments("xelatex", true, true, false, "/out", "main.tex").expect("arguments");
    assert_eq!(
        arguments,
        [
            "-fmt=xelatex",
            "-progname=xelatex",
            "-interaction=nonstopmode",
            "-file-line-error",
            "-halt-on-error",
            "-recorder",
            "-synctex=1",
            "-no-shell-escape",
            "-output-directory=/out",
            "main.tex",
        ]
    );
    let plain = engine_arguments("context", false, false, true, "/out", "main.tex").expect("arguments");
    assert_eq!(plain[0], "-interaction=nonstopmode");
    assert!(plain.contains(&"-shell-escape".to_string()));
    assert!(engine_arguments("context", true, false, false, "/out", "main.tex").is_err());
}

#[test]
fn system_fontconfig_layers_locked_fonts_over_host_fonts() {
    let configuration = system_fontconfig("/work/output", "/work/tree&locked");
    assert!(configuration.contains("/etc/fonts/fonts.conf"));
    assert!(configuration.contains("<dir>/work/tree&amp;locked/fonts</dir>"));
    assert!(configuration.contains("<cachedir>/work/output/fontconfig-cache</cachedir>"));
    assert_eq!(xml_text("<a href='x'>\"&\""), "&lt;a href=&apos;x&apos;&gt;&quot;&amp;&quot;");
}

#[test]
fn auxiliary_outputs_are_recognized_by_extension() {
    assert!(is_auxiliary("main.aux"));
    assert!(is_auxiliary("chapters/one.toc"));
    assert!(is_auxiliary("main.run.xml"));
    assert!(!is_auxiliary("main.log"));
    assert!(!is_auxiliary("main.pdf"));
    assert!(!is_auxiliary(".aux"));
}

#[test]
fn jobs_are_named_by_the_entry_stem() {
    assert_eq!(job_stem("paper/main.tex").expect("stem"), "main");
    assert_eq!(job_stem("archive.tar.gz").expect("stem"), "archive.tar");
    assert_eq!(job_stem(".hidden").expect("stem"), ".hidden");
    match job_stem("..") {
        Err(TexeError::Manifest(message)) => assert_eq!(message, "project entry must have a UTF-8 file stem: .."),
        other => panic!("unexpected {other:?}"),
    }
}
