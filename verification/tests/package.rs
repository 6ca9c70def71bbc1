use sha2::Digest;
use texe::config::ProjectManifest;
use texe::error::TexeError;
use texe::environment::{ManagedRuntime, ResolvedToolchain};
use texe::package::{
    accept_environment_schema, frozen_lock, with_context, Convergence, ConvergenceReport,
    package_input_roots, project_arguments, requires_bundled_suite,
    unresolved_runtime_input_summary, Capabilities, PqtyClient, UnresolvedInput,
    command_suite_fingerprint, resolve_suite_executable, suite_candidate, SuiteExecutable,
    CAPABILITIES_SCHEMA, CONVERGENCE_REPORT_SCHEMA, ENVIRONMENT_SCHEMA, LOCK_SCHEMA,
    PROGRESS_SCHEMA, TRACE_REPORT_SCHEMA, TRACE_SCHEMA,
};

fn compatible() -> Capabilities {
    Capabilities {
        schema: CAPABILITIES_SCHEMA.to_string(),
        version: "0.1.0".to_string(),
        lock_schema: LOCK_SCHEMA.to_string(),
        environment_schema: ENVIRONMENT_SCHEMA.to_string(),
        trace_schema: TRACE_SCHEMA.to_string(),
        trace_report_schema: TRACE_REPORT_SCHEMA.to_string(),
        convergence_report_schema: CONVERGENCE_REPORT_SCHEMA.to_string(),
        progress_schema: PROGRESS_SCHEMA.to_string(),
    }
}

#[test]
fn capabilities_require_every_consumed_schema() {
    let compatible = compatible();
    assert!(compatible.validate("/suite/pqty").is_ok());

    let incompatible = Capabilities {
        trace_schema: "pqty.trace/v2".to_string(),
        ..compatible
    };
    assert!(incompatible.validate("/suite/pqty").is_err());
}

#[test]
fn an_incompatible_protocol_names_the_manager() {
    let incompatible = Capabilities {
        version: "  ".to_string(),
        ..compatible()
    };
    match incompatible.validate("/suite/pqty") {
        Err(TexeError::Build(message)) => assert!(message.starts_with("incompatible pqty protocol from /suite/pqty")),
        other => panic!("unexpected {other:?}"),
    }
}

#[test]
fn package_input_roots_preserve_order_and_deduplicate_across_sections() {
    let mut manifest = ProjectManifest::with_defaults("main.tex", "pdflatex");
    manifest.inputs.roots = vec!["styles".to_string(), "shared".to_string()];
    manifest.bibliography.roots = vec!["shared".to_string(), "bibliography".to_string()];
    assert_eq!(package_input_roots(&manifest), ["styles", "shared", "bibliography"]);
}

#[test]
fn project_commands_are_isolated_and_project_root_relative() {
    let arguments = project_arguments(
        "scan",
        "/work/project",
        "/work/project/paper/main.tex",
        &vec!["vendor/natbib".to_string()],
    )
    .expect("project arguments");
    assert_eq!(
        arguments,
        [
            "--no-config",
            "--progress",
            "json",
            "--project-root",
            "/work/project",
            "--input-root",
            "vendor/natbib",
            "scan",
            "paper/main.tex"
        ]
        .map(String::from)
    );
}

#[test]
fn project_commands_reject_an_entry_outside_the_project() {
    assert!(project_arguments("lock", "/work/project", "/work/other/main.tex", &Vec::new()).is_err());
}

#[test]
fn unresolved_runtime_inputs_name_the_actionable_requests() {
    let unresolved = vec![
        UnresolvedInput { requested: Some("Version.tex".to_string()), reason: Some("no-provider".to_string()) },
        UnresolvedInput { requested: Some("example.sty".to_string()), reason: Some("ambiguous-provider".to_string()) },
    ];
    assert_eq!(
        unresolved_runtime_input_summary(&unresolved),
        ": Version.tex (no-provider), example.sty (ambiguous-provider)"
    );
}

#[test]
fn unresolved_inputs_without_a_name_or_reason_are_summarised() {
    let mut unresolved = vec![
        UnresolvedInput { requested: Some("foo.sty".to_string()), reason: Some("not-found".to_string()) },
        UnresolvedInput { requested: None, reason: Some("ignored".to_string()) },
        UnresolvedInput { requested: Some("bar.cls".to_string()), reason: None },
    ];
    assert_eq!(
        unresolved_runtime_input_summary(&unresolved),
        ": foo.sty (not-found), bar.cls (unknown), and 1 more"
    );
    unresolved.truncate(1);
    assert_eq!(unresolved_runtime_input_summary(&unresolved), ": foo.sty (not-found)");
    assert_eq!(unresolved_runtime_input_summary(&Vec::new()), "");
}

#[test]
fn offline_clients_pass_offline_once() {
    let manager = suite("pqty", Some("/suite/pqty"), b"manager");
    let adapter = suite("pqty-fls", Some("/suite/pqty-fls"), b"adapter");
    let client = PqtyClient::resolve(&manager, &adapter, true, &compatible(), b"{}", true, "/managed/texe".to_string())
        .expect("compatible suite");
    assert_eq!(client.manager, "/suite/pqty");
    assert_eq!(
        client.fingerprint(),
        &expected_fingerprint(b"{}", b"/suite/pqty", b"manager", b"/suite/pqty-fls", b"adapter")
    );
    let mut arguments = vec!["resolve".to_string()];
    client.append_offline(&mut arguments);
    assert_eq!(arguments, ["--offline", "resolve"]);
    client.append_offline(&mut arguments);
    assert_eq!(arguments, ["--offline", "resolve"]);
}

#[test]
fn the_managed_provider_requires_the_bundled_suite() {
    let mut manifest = ProjectManifest::with_defaults("main.tex", "pdflatex");
    assert!(requires_bundled_suite(&manifest));
    manifest.toolchain.provider = "system".to_string();
    assert!(!requires_bundled_suite(&manifest));
}

fn client(offline: bool) -> PqtyClient {
    PqtyClient {
        manager: "/suite/pqty".to_string(),
        trace_adapter: "/suite/pqty-fls".to_string(),
        fingerprint: "sha256:test".to_string(),
        offline,
        cache_home: "/managed/texe".to_string(),
    }
}

fn system_toolchain() -> ResolvedToolchain {
    ResolvedToolchain {
        engine: "pdflatex".to_string(),
        engine_executable: "/usr/bin/pdflatex".to_string(),
        texmf_dist: "/usr/share/texmf-dist".to_string(),
        engine_roots: Vec::new(),
        managed: None,
    }
}

fn managed_toolchain(registry_url: &str) -> ResolvedToolchain {
    ResolvedToolchain {
        managed: Some(ManagedRuntime {
            root: "/data/texe/runtime".to_string(),
            binary_dir: "/data/texe/runtime/bin".to_string(),
            registry_url: registry_url.to_string(),
            registry_metadata_sha256: "abc".to_string(),
            bootstrap_providers: vec!["kpathsea".to_string(), "pdftex".to_string()],
        }),
        ..system_toolchain()
    }
}

#[test]
fn pqty_processes_use_the_texe_owned_cache_home() {
    assert_eq!(
        client(false).process_environment(),
        [("XDG_CACHE_HOME".to_string(), "/managed/texe".to_string())]
    );
}

#[test]
fn locks_for_a_managed_runtime_pin_its_registry_and_bootstrap_providers() {
    let mut manifest = ProjectManifest::with_defaults("main.tex", "pdflatex");
    manifest.packages.store = Some("store".to_string());
    let arguments = client(false)
        .lock_arguments(
            "/work/paper",
            &manifest,
            &managed_toolchain("http://mirror.local/tlpdb"),
            "/work/paper/main.tex",
            "/work/paper/pqty.lock",
            &Vec::new(),
        )
        .expect("arguments");
    assert_eq!(
        arguments,
        [
            "--no-config",
            "--progress",
            "json",
            "--project-root",
            "/work/paper",
            "lock",
            "main.tex",
            "--output",
            "/work/paper/pqty.lock",
            "--tlpdb-url",
            "http://mirror.local/tlpdb",
            "--tlpdb-sha256",
            "abc",
            "--require-provider",
            "kpathsea",
            "--require-provider",
            "pdftex",
            "--allow-insecure-registry",
            "--store",
            "/work/paper/store",
        ]
    );
}

#[test]
fn remote_system_locks_require_the_format_providers() {
    let mut manifest = ProjectManifest::with_defaults("main.tex", "pdflatex");
    manifest.packages.remote = true;
    let arguments = client(true)
        .lock_arguments(
            "/work/paper",
            &manifest,
            &system_toolchain(),
            "/work/paper/main.tex",
            "/work/paper/pqty.lock",
            &vec!["latex-bin".to_string()],
        )
        .expect("arguments");
    assert_eq!(arguments[0], "--offline");
    assert_eq!(
        &arguments[arguments.len() - 4..],
        ["--remote", "latest", "--require-provider", "latex-bin"]
    );
    let outside = client(false).lock_arguments(
        "/work/paper",
        &manifest,
        &system_toolchain(),
        "/elsewhere/main.tex",
        "/work/paper/pqty.lock",
        &Vec::new(),
    );
    assert!(matches!(outside, Err(TexeError::Build(message)) if message == "project entry /elsewhere/main.tex is outside /work/paper"));
}

#[test]
fn frozen_builds_need_an_existing_lock() {
    assert!(frozen_lock("/p/pqty.lock", true).is_ok());
    assert!(matches!(
        frozen_lock("/p/pqty.lock", false),
        Err(TexeError::Build(message)) if message == "--frozen requires an existing lock: /p/pqty.lock"
    ));
}

#[test]
fn install_env_and_trace_commands_name_the_lock() {
    let manifest = ProjectManifest::with_defaults("main.tex", "pdflatex");
    let offline = client(true);
    assert_eq!(
        offline.install_arguments("/p", &manifest, &system_toolchain(), "/p/pqty.lock", "/p/.texe/texmf"),
        [
            "--offline",
            "--no-config",
            "--progress",
            "json",
            "install",
            "--lock",
            "/p/pqty.lock",
            "--out",
            "/p/.texe/texmf",
            "--link",
            manifest.packages.link.as_str(),
        ]
    );
    assert_eq!(
        client(false).environment_arguments("/p/pqty.lock"),
        ["--no-config", "env", "--lock", "/p/pqty.lock"]
    );
    assert_eq!(
        client(false).check_trace_arguments("/p/pqty.lock", "/p/trace.json"),
        ["--no-config", "check-trace", "--lock", "/p/pqty.lock", "--trace", "/p/trace.json"]
    );
    assert_eq!(
        client(false).converge_arguments("/p", &manifest, &managed_toolchain("https://r/tlpdb"), "/p/pqty.lock", "/p/trace.json"),
        ["--no-config", "--progress", "json", "converge", "--lock", "/p/pqty.lock", "--trace", "/p/trace.json"]
    );
}

#[test]
fn requiring_no_providers_runs_nothing() {
    let manifest = ProjectManifest::with_defaults("main.tex", "pdflatex");
    let pqty = client(false);
    assert_eq!(pqty.require_arguments("/p", &manifest, &system_toolchain(), "/p/pqty.lock", &Vec::new()), None);
    assert_eq!(
        pqty.require_arguments("/p", &manifest, &system_toolchain(), "/p/pqty.lock", &vec!["biber".to_string()]),
        Some(vec![
            "--no-config".to_string(),
            "--progress".to_string(),
            "json".to_string(),
            "require".to_string(),
            "--lock".to_string(),
            "/p/pqty.lock".to_string(),
            "--provider".to_string(),
            "biber".to_string(),
        ])
    );
}

fn report(schema: &str, status: &str) -> ConvergenceReport {
    ConvergenceReport { schema: schema.to_string(), status: status.to_string(), unresolved: Vec::new() }
}

#[test]
fn convergence_reports_decide_the_outcome() {
    let pqty = client(false);
    assert_eq!(
        pqty.convergence_outcome("/t", Ok(report(CONVERGENCE_REPORT_SCHEMA, "stable")), true, Some(0), b"").ok(),
        Some(Convergence::Stable)
    );
    assert_eq!(
        pqty.convergence_outcome("/t", Ok(report(CONVERGENCE_REPORT_SCHEMA, "changed")), true, Some(0), b"").ok(),
        Some(Convergence::Changed)
    );
    assert!(matches!(
        pqty.convergence_outcome("/t", Ok(report("pqty.convergence-report/v9", "stable")), true, Some(0), b""),
        Err(TexeError::Build(message)) if message == "pqty emitted convergence schema pqty.convergence-report/v9"
    ));
    let mut unresolved = report(CONVERGENCE_REPORT_SCHEMA, "unresolved");
    unresolved.unresolved = vec![UnresolvedInput {
        requested: Some("missing.sty".to_string()),
        reason: None,
    }];
    assert!(matches!(
        pqty.convergence_outcome("/t", Ok(unresolved), false, Some(3), b""),
        Err(TexeError::Build(message)) if message == "pqty could not resolve 1 runtime package input(s): missing.sty (unknown)"
    ));
    assert!(matches!(
        pqty.convergence_outcome("/t", Ok(report(CONVERGENCE_REPORT_SCHEMA, "stable")), false, Some(2), b" boom \n"),
        Err(TexeError::Process { tool, status: Some(2), stderr }) if tool == "/suite/pqty" && stderr == "unexpected convergence status stable; boom"
    ));
    assert!(matches!(
        pqty.convergence_outcome("/t", Err("expected value".to_string()), true, Some(0), b""),
        Err(TexeError::Json { path, message }) if path == "/t" && message == "expected value"
    ));
    assert!(matches!(
        pqty.convergence_outcome("/t", Err("expected value".to_string()), false, Some(1), b"  no network\n"),
        Err(TexeError::Process { stderr, .. }) if stderr == "no network"
    ));
}

#[test]
fn errors_gain_the_context_of_the_pqty_command() {
    let failed = TexeError::Process { tool: "/suite/pqty".to_string(), status: Some(1), stderr: String::new() };
    assert!(matches!(
        with_context(failed, "could not create pqty lock"),
        TexeError::Process { stderr, .. } if stderr == "could not create pqty lock"
    ));
    let failed = TexeError::Process { tool: "/suite/pqty".to_string(), status: Some(1), stderr: "offline".to_string() };
    assert!(matches!(
        with_context(failed, "could not create pqty lock"),
        TexeError::Process { stderr, .. } if stderr == "could not create pqty lock: offline"
    ));
    assert!(matches!(
        with_context(TexeError::Manifest("bad".to_string()), "could not install pqty environment"),
        TexeError::Build(message) if message.starts_with("could not install pqty environment: ")
    ));
}

#[test]
fn environments_of_another_schema_are_refused() {
    assert!(accept_environment_schema(ENVIRONMENT_SCHEMA).is_ok());
    assert!(matches!(
        accept_environment_schema("pqty.env/v2"),
        Err(TexeError::Build(message)) if message == "pqty emitted environment schema pqty.env/v2; expected pqty.env/v1"
    ));
}

fn expected_fingerprint(capabilities: &[u8], mi: &[u8], mb: &[u8], ai: &[u8], ab: &[u8]) -> String {
    let mut hasher = sha2::Sha256::new();
    hasher.update(b"texe.command-suite-fingerprint/v1");
    hasher.update(capabilities);
    for part in [mi, b"\0", mb, b"\0", ai, b"\0", ab, b"\0"] {
        hasher.update(part);
    }
    format!("sha256:{}", hex::encode(hasher.finalize()))
}

#[test]
fn the_suite_fingerprint_covers_capabilities_and_both_executables() {
    let base = command_suite_fingerprint(b"{\"version\":\"0.1.0\"}", b"/suite/pqty", b"MZ", b"/suite/pqty-fls", b"EL");
    assert_eq!(
        base,
        expected_fingerprint(b"{\"version\":\"0.1.0\"}", b"/suite/pqty", b"MZ", b"/suite/pqty-fls", b"EL")
    );
    assert!(base.starts_with("sha256:"));
    assert_eq!(base.len(), 7 + 64);
    assert_eq!(
        base,
        command_suite_fingerprint(b"{\"version\":\"0.1.0\"}", b"/suite/pqty", b"MZ", b"/suite/pqty-fls", b"EL")
    );
    assert_ne!(
        base,
        command_suite_fingerprint(b"{\"version\":\"0.1.0\"}", b"/suite/pqty", b"MZ", b"/suite/pqty-fls", b"EL2")
    );
    assert_ne!(
        base,
        command_suite_fingerprint(b"{\"version\":\"0.2.0\"}", b"/suite/pqty", b"MZ", b"/suite/pqty-fls", b"EL")
    );
}

#[test]
fn suite_commands_are_looked_for_beside_texe() {
    assert_eq!(suite_candidate("pqty", Some("/opt/texe/bin")), Some("/opt/texe/bin/pqty".to_string()));
    assert_eq!(suite_candidate("pqty", None), None);
    assert_eq!(suite_candidate("tools/pqty", Some("/opt/texe/bin")), None);
    assert_eq!(suite_candidate("/usr/bin/pqty", Some("/opt/texe/bin")), None);
    assert_eq!(suite_candidate("./pqty", Some("/opt/texe/bin")), None);
    assert_eq!(suite_candidate("pqty/", Some("/opt/texe/bin")), Some("/opt/texe/bin/pqty/".to_string()));
    assert!(matches!(
        resolve_suite_executable("pqty", Some("/opt/texe/bin/pqty".to_string()), true, true),
        Ok(Some(path)) if path == "/opt/texe/bin/pqty"
    ));
    assert!(matches!(
        resolve_suite_executable("pqty", Some("/opt/texe/bin/pqty".to_string()), false, true),
        Err(TexeError::ToolNotFound(m))
            if m == "pqty beside the texe executable; install the complete texe command suite"
    ));
    assert!(matches!(resolve_suite_executable("pqty", None, false, false), Ok(None)));
}

fn suite(command: &str, beside: Option<&str>, bytes: &[u8]) -> SuiteExecutable {
    let path = beside.unwrap_or("/usr/bin/pqty").to_string();
    SuiteExecutable {
        command: command.to_string(),
        beside: beside.map(str::to_string),
        host: format!("/usr/bin/{command}"),
        identity: path.into_bytes(),
        bytes: bytes.to_vec(),
    }
}

#[test]
fn a_managed_toolchain_without_the_bundled_suite_fails_before_anything_runs() {
    let manager = suite("pqty", None, b"manager");
    let adapter = suite("pqty-fls", Some("/suite/pqty-fls"), b"adapter");
    match PqtyClient::resolve(&manager, &adapter, true, &compatible(), b"{}", false, "/h".to_string()) {
        Err(TexeError::ToolNotFound(message)) => {
            assert!(message.contains("beside the texe executable"));
            assert_eq!(message, "pqty beside the texe executable; install the complete texe command suite");
        }
        other => panic!("unexpected {other:?}"),
    }
    let client = PqtyClient::resolve(&manager, &adapter, false, &compatible(), b"{}", false, "/h".to_string())
        .expect("the host's pqty serves a system toolchain");
    assert_eq!(client.manager, "/usr/bin/pqty");
    assert_eq!(client.trace_adapter, "/suite/pqty-fls");
}
