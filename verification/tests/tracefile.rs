use texe::environment::ResolvedToolchain;
use texe::tracefile::{
    adapter_arguments, classification_root_paths, merge_trace_inputs, TraceInput,
};

fn input(scope: &str, requested: &str, resolved: Option<&str>, kind: Option<&str>) -> TraceInput {
    TraceInput {
        requested: requested.to_string(),
        resolved: resolved.map(str::to_string),
        scope: scope.to_string(),
        kind: kind.map(str::to_string),
    }
}

fn key(t: &TraceInput) -> (String, String, Option<String>, Option<String>) {
    (t.scope.clone(), t.requested.clone(), t.resolved.clone(), t.kind.clone())
}

#[test]
fn classification_roots_include_supplied_and_canonical_aliases() {
    let arguments = adapter_arguments(
        "/o/main.fls",
        "/o/env.json",
        &vec![(
            "--engine-root".to_string(),
            "/tmp/alias".to_string(),
            "/tmp/physical".to_string(),
        )],
        "/o/trace.json",
    );
    assert_eq!(
        arguments,
        [
            "--fls",
            "/o/main.fls",
            "--environment",
            "/o/env.json",
            "--engine-root",
            "/tmp/alias",
            "--engine-root",
            "/tmp/physical",
            "--output",
            "/o/trace.json",
        ]
    );
    let project = adapter_arguments(
        "/o/main.fls",
        "/o/env.json",
        &vec![(
            "--project-root".to_string(),
            "/tmp/physical".to_string(),
            "/tmp/physical".to_string(),
        )],
        "/o/trace.json",
    );
    assert_eq!(&project[4..6], ["--project-root", "/tmp/physical"]);
    let same = adapter_arguments(
        "/f",
        "/e",
        &vec![(
            "--package-root".to_string(),
            "/t/texmf".to_string(),
            "/t/texmf".to_string(),
        )],
        "/out",
    );
    assert_eq!(same.len(), 8);
}

#[test]
fn discovery_runs_of_system_toolchains_classify_the_distribution() {
    let toolchain = ResolvedToolchain {
        engine: "pdflatex".to_string(),
        engine_executable: "/usr/bin/pdflatex".to_string(),
        texmf_dist: "/usr/share/texmf-dist".to_string(),
        engine_roots: vec!["/usr/share/texmf".to_string()],
        managed: None,
    };
    let roots = classification_root_paths("/p", "/p/out", "/p/t", &toolchain, true, &Some("/fmt".to_string()));
    assert_eq!(
        roots,
        [
            ("--project-root".to_string(), "/p".to_string()),
            ("--output-root".to_string(), "/p/out".to_string()),
            ("--package-root".to_string(), "/p/t".to_string()),
            ("--package-root".to_string(), "/usr/share/texmf-dist".to_string()),
            ("--engine-root".to_string(), "/usr/share/texmf".to_string()),
            ("--engine-root".to_string(), "/fmt".to_string()),
        ]
    );
    let final_pass = classification_root_paths("/p", "/p/out", "/p/t", &toolchain, false, &None);
    assert_eq!(final_pass.len(), 4);
}

#[test]
fn missing_inputs_join_the_trace_in_order_once() {
    let traced = vec![
        input("project", "main.tex", Some("/p/main.tex"), None),
        input("package", "article.cls", Some("/t/article.cls"), Some("tex")),
        input("package", "article.cls", Some("/t/article.cls"), Some("tex")),
    ];
    let missing = vec![
        ("tikz.sty".to_string(), "tex".to_string()),
        ("article.cls".to_string(), "tex".to_string()),
    ];
    let merged = merge_trace_inputs(&traced, &missing);
    assert_eq!(
        merged.iter().map(key).collect::<Vec<_>>(),
        vec![
            ("package".to_string(), "article.cls".to_string(), Some("/t/article.cls".to_string()), Some("tex".to_string())),
            ("package".to_string(), "tikz.sty".to_string(), None, Some("tex".to_string())),
            ("project".to_string(), "main.tex".to_string(), Some("/p/main.tex".to_string()), None),
        ]
    );
}
