use texe::auxfile::glossary_fields;
use texe::config::ProjectManifest;
use texe::environment::{ManagedRuntime, ResolvedToolchain};
use texe::error::TexeError;
use texe::index::{
    glossary_control, index_control, index_controls_of, index_environment, makeindex_command,
    makeindex_executable, makeindex_failure, IndexControl,
};

fn system_toolchain() -> ResolvedToolchain {
    ResolvedToolchain {
        engine: "pdflatex".to_string(),
        engine_executable: "/usr/bin/pdflatex".to_string(),
        texmf_dist: "/usr/share/texmf-dist".to_string(),
        engine_roots: Vec::new(),
        managed: None,
    }
}

fn managed_toolchain() -> ResolvedToolchain {
    ResolvedToolchain {
        managed: Some(ManagedRuntime {
            root: "/data/texe/runtime".to_string(),
            binary_dir: "/data/texe/runtime/bin".to_string(),
            registry_url: "https://registry.example/tlpdb".to_string(),
            registry_metadata_sha256: "0".repeat(64),
            bootstrap_providers: Vec::new(),
        }),
        ..system_toolchain()
    }
}

#[test]
fn discovers_standard_indexes_and_all_declared_glossaries() {
    let aux: &[u8] = br"\@newglossary{main}{glg}{gls}{glo}
\@newglossary[alg]{acronym}{alg}{acr}{acn}
";
    let mut glossaries = Vec::new();
    for line in aux.split(|byte| *byte == b'\n') {
        if let Some(fields) = glossary_fields(line) {
            glossaries.push(glossary_control("/o/main.aux", &fields).expect("stem"));
        }
    }
    let controls = index_controls_of(&glossaries, &vec!["/o/main.idx".to_string()]);
    assert_eq!(controls.len(), 3);
    assert!(controls
        .iter()
        .any(|control| control.input.ends_with("main.idx") && control.style.is_none()));
    assert!(controls.iter().any(|control| {
        control.input.ends_with("main.glo")
            && control.output.ends_with("main.gls")
            && control.log.ends_with("main.glg")
    }));
    assert!(controls.iter().any(|control| {
        control.input.ends_with("main.acn")
            && control.output.ends_with("main.acr")
            && control.log.ends_with("main.alg")
            && control.style.as_deref() == Some("/o/main.ist")
    }));
}

#[test]
fn an_index_that_a_glossary_reads_runs_once_as_that_glossary() {
    let fields = glossary_fields(br"\@newglossary{index}{ilg}{ind}{idx}").expect("fields");
    let glossary = glossary_control("/o/main.aux", &fields).expect("stem");
    let controls = index_controls_of(&vec![glossary.clone(), glossary], &vec!["/o/main.idx".to_string()]);
    assert_eq!(controls.len(), 1);
    assert_eq!(controls[0].style.as_deref(), Some("/o/main.ist"));
}

#[test]
fn indexes_write_ind_and_log_to_ilg() {
    assert_eq!(
        index_control("/o/chapters/part.idx"),
        IndexControl {
            input: "/o/chapters/part.idx".to_string(),
            output: "/o/chapters/part.ind".to_string(),
            log: "/o/chapters/part.ilg".to_string(),
            style: None,
        }
    );
}

#[test]
fn makeindex_runs_beside_its_input_with_local_names() {
    let fields = glossary_fields(br"\@newglossary{main}{glg}{gls}{glo}").expect("fields");
    let glossary = glossary_control("/o/main.aux", &fields).expect("stem");
    let (directory, arguments) = makeindex_command(&glossary, true).expect("command");
    assert_eq!(directory, "/o");
    assert_eq!(arguments, ["-s", "main.ist", "-t", "main.glg", "-o", "main.gls", "main.glo"]);
    let error = makeindex_command(&glossary, false).expect_err("missing style");
    assert!(matches!(error, TexeError::Build(message)
        if message == "glossary input /o/main.glo has no generated MakeIndex style /o/main.ist"));
    let (_, arguments) = makeindex_command(&index_control("/o/main.idx"), false).expect("command");
    assert_eq!(arguments, ["-t", "main.ilg", "-o", "main.ind", "main.idx"]);
}

#[test]
fn managed_runtimes_run_their_own_makeindex() {
    let manifest = ProjectManifest::with_defaults("main.tex", "pdflatex");
    assert_eq!(
        makeindex_executable(&manifest, &managed_toolchain()).as_deref(),
        Some("/data/texe/runtime/bin/makeindex")
    );
    assert_eq!(makeindex_executable(&manifest, &system_toolchain()), None);
    let mut custom = manifest;
    custom.index.makeindex = "./tools/makeindex".to_string();
    assert_eq!(makeindex_executable(&custom, &managed_toolchain()), None);
}

#[test]
fn index_styles_are_searched_in_the_project_output_and_package_tree() {
    let environment = index_environment("/p", "/p/.texe/texmf", "/p/out", &managed_toolchain(), "/p/out");
    assert_eq!(
        environment,
        [
            (
                "INDEXSTYLE".to_string(),
                "/p//:/p/out//:/p/.texe/texmf/makeindex//:/data/texe/runtime/texmf-dist/makeindex//"
                    .to_string()
            ),
            ("PATH".to_string(), "/data/texe/runtime/bin".to_string()),
        ]
    );
    let system = index_environment("/p", "/t", "/o", &system_toolchain(), "/o");
    assert_eq!(system, [("INDEXSTYLE".to_string(), "/p//:/o//:/t/makeindex//".to_string())]);
}

#[test]
fn makeindex_failures_prefer_the_log() {
    let from_log = makeindex_failure("/o/main.idx", "exit status: 1", " !! Input index error\n", b"out", b"err");
    assert!(matches!(from_log, TexeError::Build(message)
        if message == "MakeIndex failed for /o/main.idx with status exit status: 1:\n!! Input index error"));
    let from_output = makeindex_failure("/o/main.idx", "exit status: 1", "  \n", b"out", b"err\n");
    assert!(matches!(from_output, TexeError::Build(message)
        if message == "MakeIndex failed for /o/main.idx with status exit status: 1:\nout\nerr"));
}
