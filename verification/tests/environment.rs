use std::collections::BTreeMap;
use texe::environment::{
    engine_environment, engine_input_environment, is_engine_search_variable,
    is_standalone_perl_variable, managed_path, package_search_path_value, search_path_from,
    shell_escape_path, source_date_environment, EngineEnvironmentContext, ManagedFormat,
    ManagedRuntime, ResolvedToolchain,
};

fn system_toolchain() -> ResolvedToolchain {
    ResolvedToolchain {
        engine: "pdflatex".to_string(),
        engine_executable: "/usr/bin/pdflatex".to_string(),
        texmf_dist: "/usr/share/texmf-dist".to_string(),
        engine_roots: Vec::new(),
        managed: None,
    }
}

fn context(
    working_directory: &str,
    texmf: &str,
    build_root: &str,
    input_roots: Vec<String>,
    managed_format: Option<ManagedFormat>,
    discovery: bool,
) -> EngineEnvironmentContext {
    EngineEnvironmentContext {
        working_directory: working_directory.to_string(),
        texmf: texmf.to_string(),
        build_root: build_root.to_string(),
        input_roots,
        managed_format,
        discovery,
        source_date_epoch: 1_700_000_000,
        shell_escape: false,
        host_path: Some("/usr/bin:/bin".to_string()),
    }
}

fn as_map(environment: Vec<(String, String)>) -> BTreeMap<String, String> {
    environment.into_iter().collect()
}

#[test]
fn frozen_texinputs_has_no_system_fallback() {
    let value = package_search_path_value(
        "/tmp/project",
        "/tmp/project/.texe/build/output",
        "/tmp/texmf",
        &Vec::new(),
        false,
    );
    assert!(value.starts_with("/tmp/project/.texe/build/output/.texe-generated//"));
    assert!(value.contains("/tmp/project/.texe/build/output//"));
    assert!(value.contains("/tmp/texmf//"));
    assert!(!value.ends_with(':'));
}

#[test]
fn discovery_texinputs_has_system_fallback() {
    let value = package_search_path_value(
        "/tmp/project",
        "/tmp/project/.texe/build/discovery",
        "/tmp/texmf",
        &Vec::new(),
        true,
    );
    assert!(value.ends_with(':'));
    assert_eq!(
        value,
        "/tmp/project/.texe/build/discovery/.texe-generated//:/tmp/project/.texe/build/discovery//:.:/tmp/texmf//:"
    );
}

#[test]
fn engine_environment_pins_every_observable_clock() {
    let toolchain = system_toolchain();
    let environment = as_map(engine_environment(
        &toolchain,
        &context("/tmp/project", "/tmp/project/.texe/texmf", ".texe/build", Vec::new(), None, false),
    ));
    assert_eq!(environment.get("SOURCE_DATE_EPOCH").map(String::as_str), Some("1700000000"));
    assert_eq!(environment.get("FORCE_SOURCE_DATE").map(String::as_str), Some("1"));
}

#[test]
fn managed_lualatex_environment_confines_font_inputs_and_cache() {
    let mut toolchain = system_toolchain();
    toolchain.engine = "lualatex".to_string();
    toolchain.managed = Some(ManagedRuntime {
        root: "/data/texe/toolchains/luahbtex".to_string(),
        binary_dir: "/data/texe/toolchains/luahbtex/bin/x86_64-linux".to_string(),
        registry_url: "https://registry.example/tlpdb".to_string(),
        registry_metadata_sha256: "0".repeat(64),
        bootstrap_providers: Vec::new(),
    });
    let format = ManagedFormat {
        root: "/data/texe/formats/lualatex".to_string(),
        formats: "/data/texe/formats/lualatex/formats".to_string(),
    };
    let environment = as_map(engine_environment(
        &toolchain,
        &context(
            "/work/project",
            "/work/project/.texe/texmf",
            "/work/project/.texe/build/output",
            Vec::new(),
            Some(format),
            false,
        ),
    ));
    assert_eq!(
        environment.get("OSFONTDIR").map(String::as_str),
        Some("/work/project/.texe/texmf/fonts")
    );
    assert_eq!(
        environment.get("TEXMFCACHE").map(String::as_str),
        Some("/work/project/.texe/build/output/texmf-var")
    );
    assert!(environment
        .get("LUAINPUTS")
        .is_some_and(|value| value.contains("/data/texe/formats/lualatex/config//")));
    assert_eq!(
        environment.get("PATH").map(String::as_str),
        Some("/data/texe/toolchains/luahbtex/bin/x86_64-linux")
    );
    assert_eq!(
        environment.get("TEXMFSYSVAR").map(String::as_str),
        Some("/data/texe/toolchains/luahbtex/texmf-var")
    );
}

#[test]
fn locked_system_format_uses_generated_inputs_without_host_tex_fallback() {
    let mut toolchain = system_toolchain();
    toolchain.engine = "xelatex".to_string();
    toolchain.engine_roots = vec![
        "/usr/share/texmf-dist".to_string(),
        "/usr/share/FONTS".to_string(),
    ];
    let format = ManagedFormat {
        root: "/work/project/.texe/build/formats/xelatex".to_string(),
        formats: "/work/project/.texe/build/formats/xelatex/formats".to_string(),
    };
    let environment = as_map(engine_environment(
        &toolchain,
        &context(
            "/work/project",
            "/work/project/.texe/texmf",
            "/work/project/.texe/build/output",
            vec!["colorthemes".to_string()],
            Some(format),
            true,
        ),
    ));
    let texinputs = environment.get("TEXINPUTS").expect("TEXINPUTS");
    assert!(texinputs.starts_with("/work/project/.texe/build/output/.texe-generated//"));
    assert!(texinputs.contains("colorthemes//"));
    assert!(texinputs.contains("/work/project/.texe/texmf//"));
    assert!(!texinputs.ends_with(':'));
    assert_eq!(
        environment.get("OSFONTDIR").map(String::as_str),
        Some("/work/project/.texe/texmf/fonts//:/usr/share/FONTS//")
    );
    assert_eq!(
        environment.get("FONTCONFIG_FILE").map(String::as_str),
        Some("/work/project/.texe/build/output/fontconfig.conf")
    );
    assert!(!environment.contains_key("PATH"));
}

#[test]
fn engine_inputs_override_generic_and_program_specific_searches() {
    assert_eq!(
        engine_input_environment("pdflatex", "/locked//"),
        [
            ("TEXINPUTS", "/locked//"),
            ("TEXINPUTS_pdflatex", "/locked//"),
            ("LUAINPUTS", "/locked//"),
            ("LUAINPUTS_pdflatex", "/locked//"),
        ]
        .map(|(name, value)| (name.to_string(), value.to_string()))
    );
}

#[test]
fn managed_path_exposes_no_host_binaries() {
    let value = managed_path("/data/texe/toolchains/runtime/bin/x86_64-linux");
    assert_eq!(value, "/data/texe/toolchains/runtime/bin/x86_64-linux");
    assert!(!value.contains("/usr/bin"));
}

#[test]
fn shell_escape_path_places_the_pinned_tools_first() {
    let value = shell_escape_path("/managed/bin", &Some("/usr/bin:/bin".to_string()));
    assert_eq!(value, "/managed/bin:/usr/bin:/bin");
    assert_eq!(value.split(':').next(), Some("/managed/bin"));
    assert_eq!(shell_escape_path("/managed/bin", &None), "/managed/bin");
    assert_eq!(shell_escape_path("/odd:bin", &Some("/usr/bin".to_string())), "/odd:bin");
}

#[test]
fn managed_engine_clears_inherited_tex_lua_and_font_searches() {
    for name in [
        "TEXINPUTS",
        "TEXMFHOME",
        "LUAINPUTS",
        "LUA_PATH",
        "LUA_CPATH",
        "FONTCONFIG_FILE",
        "FONTCONFIG_PATH",
        "OSFONTDIR",
    ] {
        assert!(is_engine_search_variable(name), "{name}");
    }
    assert!(!is_engine_search_variable("PATH"));
    assert!(!is_engine_search_variable("SOURCE_DATE_EPOCH"));
}

#[test]
fn bundled_biber_clears_inherited_par_and_perl_loader_state() {
    for name in [
        "PAR_INITIALIZED",
        "PAR_TEMP",
        "PAR_GLOBAL_TMPDIR",
        "PERL5LIB",
        "PERLLIB",
        "PERL5OPT",
        "PERLIO",
    ] {
        assert!(is_standalone_perl_variable(name), "{name}");
    }
    assert!(!is_standalone_perl_variable("PATH"));
    assert!(!is_standalone_perl_variable("BIBINPUTS"));
}

#[test]
fn search_paths_keep_the_working_directory_plain() {
    let roots = vec![".".to_string(), "/a".to_string(), "b".to_string()];
    assert_eq!(search_path_from(&roots, "/work"), ".:/a//:b//");
    assert_eq!(search_path_from(&Vec::new(), "/work"), "");
    assert_eq!(
        source_date_environment("0"),
        [("SOURCE_DATE_EPOCH".to_string(), "0".to_string()), ("FORCE_SOURCE_DATE".to_string(), "1".to_string())]
    );
}
