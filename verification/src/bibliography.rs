//! Running BibTeX and Biber: which program runs, the search paths it may
//! read, the private control file BibTeX gets, and what a failure reports.
use vstd::prelude::*;
use crate::auxfile::{aux_include, byte_from, lemma_byte_from_bounds, normalized_bibtex_line};
use crate::config::ProjectManifest;
use crate::digest::{hex_text, sha256};
use crate::environment::{search_path, search_path_from, ManagedRuntime, ResolvedToolchain};
use crate::error::TexeError;
use crate::order::pairs_view;
use crate::paths::same_path;
use crate::engine::file_stem;
use crate::setup::{file_name, join_path, join_path_of, parent, strings_view};
use crate::text::{chars_of, eq_str, extension, trim};

verus! {

/// The extension of a path's file name.
pub open spec fn path_extension(p: Seq<char>) -> Option<Seq<char>> {
    match file_name(p) {
        Some(n) => extension(n),
        None => None,
    }
}

/// Whether a Biber control file (`.bcf`) among the candidates has this stem.
pub open spec fn biber_stem(paths: Seq<Seq<char>>, stem: Seq<char>) -> bool {
    exists|i: int|
        0 <= i < paths.len() && path_extension(#[trigger] paths[i]) == Some("bcf"@) && file_stem(paths[i]) == Some(stem)
}

/// What a candidate control file is run by: Biber for a `.bcf`; BibTeX for
/// a `.aux` that declares a database and a style, unless a `.bcf` of the
/// same stem is there (Biber then owns the job).
pub open spec fn control_of(paths: Seq<Seq<char>>, path: Seq<char>, declares_bibtex: bool) -> Option<BibliographyProcessor> {
    if path_extension(path) == Some("bcf"@) {
        Some(BibliographyProcessor::Biber)
    } else if path_extension(path) == Some("aux"@) && declares_bibtex && match file_stem(path) {
        Some(stem) => !biber_stem(paths, stem),
        None => true,
    } {
        Some(BibliographyProcessor::Bibtex)
    } else {
        None
    }
}

pub open spec fn candidate_paths(c: Seq<(String, bool)>) -> Seq<Seq<char>> {
    c.map_values(|x: (String, bool)| x.0@)
}

/// The controls chosen from the first `n` candidates, in their order.
pub open spec fn controls_from(c: Seq<(String, bool)>, n: int) -> Seq<(Seq<char>, BibliographyProcessor)>
    decreases n,
{
    if n <= 0 {
        Seq::empty()
    } else {
        controls_from(c, n - 1) + match control_of(candidate_paths(c), c[n - 1].0@, c[n - 1].1) {
            Some(p) => seq![(c[n - 1].0@, p)],
            None => Seq::empty(),
        }
    }
}

/// A bibliography control file and the processor that reads it.
#[derive(Debug, Clone)]
pub struct BibliographyControl {
    pub path: String,
    pub processor: BibliographyProcessor,
}

pub open spec fn controls_view(v: Seq<BibliographyControl>) -> Seq<(Seq<char>, BibliographyProcessor)> {
    v.map_values(|c: BibliographyControl| (c.path@, c.processor))
}

pub(crate) fn path_extension_of(p: &str) -> (r: Option<Vec<char>>)
    ensures
        match r {
            Some(e) => path_extension(p@) == Some(e@),
            None => path_extension(p@) is None,
        },
{
    match crate::setup::file_name_of(p) {
        Some(n) => crate::text::extension_of(&n),
        None => None,
    }
}

pub(crate) fn file_stem_of(p: &str) -> (r: Option<Vec<char>>)
    ensures
        match r {
            Some(s) => file_stem(p@) == Some(s@),
            None => file_stem(p@) is None,
        },
{
    match crate::setup::file_name_of(p) {
        Some(n) => match crate::text::rfind_char_in(&n, '.') {
            Some(k) => {
                if k == 0 {
                    Some(n)
                } else {
                    Some(crate::text::slice_of(&n, 0, k))
                }
            },
            None => Some(n),
        },
        None => None,
    }
}

fn has_biber_stem(candidates: &Vec<(String, bool)>, stem: &Vec<char>) -> (r: bool)
    ensures
        r == biber_stem(candidate_paths(candidates@), stem@),
{
    let ghost paths = candidate_paths(candidates@);
    let mut i: usize = 0;
    while i < candidates.len()
        invariant
            i <= candidates.len(),
            paths == candidate_paths(candidates@),
            forall|j: int|
                0 <= j < i ==> !(path_extension(#[trigger] paths[j]) == Some("bcf"@) && file_stem(paths[j]) == Some(
                    stem@,
                )),
        decreases candidates.len() - i,
    {
        let matched = match path_extension_of(candidates[i].0.as_str()) {
            Some(e) => eq_str(&e, "bcf") && match file_stem_of(candidates[i].0.as_str()) {
                Some(s) => crate::text::seq_eq(&s, stem),
                None => false,
            },
            None => false,
        };
        assert(paths[i as int] == candidates@[i as int].0@);
        if matched {
            return true;
        }
        i += 1;
    }
    false
}

/// The bibliography controls among the candidate files, in their order.
/// Each candidate comes with whether its contents declare a BibTeX
/// database and style (`bibtex_control_file`), which only counts for `.aux`
/// files.
pub fn select_controls(candidates: &Vec<(String, bool)>) -> (r: Vec<BibliographyControl>)
    ensures
        controls_view(r@) == controls_from(candidates@, candidates@.len() as int),
{
    let ghost paths = candidate_paths(candidates@);
    let mut r: Vec<BibliographyControl> = Vec::new();
    let mut i: usize = 0;
    while i < candidates.len()
        invariant
            i <= candidates.len(),
            paths == candidate_paths(candidates@),
            controls_view(r@) == controls_from(candidates@, i as int),
        decreases candidates.len() - i,
    {
        let path = &candidates[i].0;
        let declares = candidates[i].1;
        assert(paths[i as int] == path@);
        let ext = path_extension_of(path.as_str());
        let chosen = match ext {
            Some(e) => if eq_str(&e, "bcf") {
                Some(BibliographyProcessor::Biber)
            } else if eq_str(&e, "aux") && declares && match file_stem_of(path.as_str()) {
                Some(stem) => !has_biber_stem(candidates, &stem),
                None => true,
            } {
                Some(BibliographyProcessor::Bibtex)
            } else {
                None
            },
            None => None,
        };
        assert(chosen == control_of(paths, path@, declares));
        let ghost before = controls_view(r@);
        match chosen {
            Some(p) => {
                r.push(BibliographyControl { path: String::from_str(path.as_str()), processor: p });
                assert(controls_view(r@) =~= before + seq![(path@, p)]);
            },
            None => {
                assert(before + Seq::<(Seq<char>, BibliographyProcessor)>::empty() =~= before);
            },
        }
        i += 1;
    }
    r
}

/// A persistent cache entry needs the default program of its processor.
pub fn persistent_cache_supported(control: &BibliographyControl, manifest: &ProjectManifest) -> (r: bool)
    ensures
        r == match control.processor {
            BibliographyProcessor::Bibtex => manifest.bibliography.bibtex@ == "bibtex"@,
            BibliographyProcessor::Biber => manifest.bibliography.biber@ == "biber"@,
        },
{
    match control.processor {
        BibliographyProcessor::Bibtex => eq_str(&chars_of(manifest.bibliography.bibtex.as_str()), "bibtex"),
        BibliographyProcessor::Biber => eq_str(&chars_of(manifest.bibliography.biber.as_str()), "biber"),
    }
}

/// The bibliography processors texe runs.
#[derive(Debug, Clone, Copy, PartialEq, Eq, Structural)]
pub enum BibliographyProcessor {
    Bibtex,
    Biber,
}

/// The roots BibTeX may read databases from, and those it may read styles
/// from: the project, its declared bibliography roots, then the locked
/// package tree.
pub open spec fn bibliography_roots(project_root: Seq<char>, roots: Seq<Seq<char>>, texmf: Seq<char>) -> (Seq<Seq<char>>, Seq<Seq<char>>) {
    let configured = roots.map_values(|r: Seq<char>| join_path(project_root, r));
    (
        seq![project_root] + configured + seq![join_path(texmf, "bibtex/bib"@), join_path(texmf, "biblatex/bib"@)],
        seq![project_root] + configured + seq![join_path(texmf, "bibtex/bst"@)],
    )
}

/// The environment of a bibliography run: its confined search paths, and
/// for a managed toolchain only the managed binaries.
pub open spec fn bibliography_environment_of(
    project_root: Seq<char>,
    m: ProjectManifest,
    texmf: Seq<char>,
    t: ResolvedToolchain,
) -> Seq<(Seq<char>, Seq<char>)> {
    let (databases, styles) = bibliography_roots(project_root, strings_view(m.bibliography.roots@), texmf);
    seq![("BIBINPUTS"@, search_path(databases)), ("BSTINPUTS"@, search_path(styles))] + match t.managed {
        Some(r) => seq![("PATH"@, r.binary_dir@)],
        None => Seq::empty(),
    }
}

fn joined_roots(project_root: &str, roots: &Vec<String>) -> (r: Vec<String>)
    ensures
        strings_view(r@) == seq![project_root@] + strings_view(roots@).map_values(|x: Seq<char>| join_path(project_root@, x)),
{
    let mut r: Vec<String> = Vec::new();
    r.push(String::from_str(project_root));
    let ghost rv = strings_view(roots@);
    let mut i: usize = 0;
    while i < roots.len()
        invariant
            i <= roots.len(),
            rv == strings_view(roots@),
            strings_view(r@) == seq![project_root@] + rv.subrange(0, i as int).map_values(|x: Seq<char>| join_path(project_root@, x)),
        decreases roots.len() - i,
    {
        let ghost before = strings_view(r@);
        r.push(join_path_of(project_root, roots[i].as_str()));
        proof {
            let g = |x: Seq<char>| join_path(project_root@, x);
            assert(rv.subrange(0, i + 1) == rv.subrange(0, i as int).push(rv[i as int]));
            assert(rv.subrange(0, i + 1).map_values(g) =~= rv.subrange(0, i as int).map_values(g).push(g(rv[i as int])));
            assert(rv[i as int] == roots@[i as int]@);
            assert(strings_view(r@) =~= before.push(join_path(project_root@, roots@[i as int]@)));
        }
        i += 1;
    }
    assert(rv.subrange(0, rv.len() as int) == rv);
    r
}

pub fn bibliography_environment(
    project_root: &str,
    manifest: &ProjectManifest,
    texmf: &str,
    toolchain: &ResolvedToolchain,
    working_directory: &str,
) -> (r: Vec<(String, String)>)
    ensures
        pairs_view(r@) == bibliography_environment_of(project_root@, *manifest, texmf@, *toolchain),
{
    let mut databases = joined_roots(project_root, &manifest.bibliography.roots);
    let mut styles = joined_roots(project_root, &manifest.bibliography.roots);
    let ghost base = strings_view(databases@);
    databases.push(join_path_of(texmf, "bibtex/bib"));
    databases.push(join_path_of(texmf, "biblatex/bib"));
    styles.push(join_path_of(texmf, "bibtex/bst"));
    assert(strings_view(databases@) =~= base + seq![join_path(texmf@, "bibtex/bib"@), join_path(texmf@, "biblatex/bib"@)]);
    assert(strings_view(styles@) =~= base + seq![join_path(texmf@, "bibtex/bst"@)]);
    let mut env: Vec<(String, String)> = Vec::new();
    crate::environment::push_pair(&mut env, "BIBINPUTS", search_path_from(&databases, working_directory));
    crate::environment::push_pair(&mut env, "BSTINPUTS", search_path_from(&styles, working_directory));
    let ghost head = pairs_view(env@);
    match &toolchain.managed {
        Some(m) => {
            crate::environment::push_pair(&mut env, "PATH", String::from_str(m.binary_dir.as_str()));
        },
        None => {
            assert(head + Seq::<(Seq<char>, Seq<char>)>::empty() == head);
        },
    }
    env
}

/// The `PATH` of a managed bibliography run: the processor's own directory
/// first where it is not the runtime's, as `std::env::join_paths` writes it
/// (which refuses a directory holding `:`).
pub open spec fn managed_bibliography_path_of(executable: Seq<char>, runtime_binary_dir: Seq<char>) -> Result<Seq<char>, Seq<char>> {
    match parent(executable) {
        None => Err("managed bibliography executable has no parent directory: "@ + executable),
        Some(dir) => if same_path(dir, runtime_binary_dir) {
            Ok(runtime_binary_dir)
        } else if dir.contains(':') || runtime_binary_dir.contains(':') {
            Err("managed bibliography path cannot be represented in PATH: path segment contains separator `:`"@)
        } else {
            Ok(dir + ":"@ + runtime_binary_dir)
        },
    }
}

pub fn managed_bibliography_path(executable: &str, runtime_binary_dir: &str) -> (r: Result<String, TexeError>)
    ensures
        match managed_bibliography_path_of(executable@, runtime_binary_dir@) {
            Ok(p) => r matches Ok(x) && x@ == p,
            Err(m) => r matches Err(TexeError::Toolchain(e)) && e@ == m,
        },
{
    let dir = match crate::setup::parent_of(executable) {
        Some(d) => d,
        None => {
            let mut m = String::from_str("managed bibliography executable has no parent directory: ");
            m.append(executable);
            return Err(TexeError::Toolchain(m));
        },
    };
    if crate::paths::paths_equal(dir.as_str(), runtime_binary_dir) {
        return Ok(String::from_str(runtime_binary_dir));
    }
    if crate::text::has_char(&chars_of(dir.as_str()), ':') || crate::text::has_char(&chars_of(runtime_binary_dir), ':') {
        return Err(
            TexeError::Toolchain(
                String::from_str("managed bibliography path cannot be represented in PATH: path segment contains separator `:`"),
            ),
        );
    }
    let mut p = dir;
    p.append(":");
    p.append(runtime_binary_dir);
    Ok(p)
}

/// The program a bibliography run uses, and what it needs beside it.
#[derive(Debug, Clone)]
pub struct BibliographyExecutable {
    pub path: String,
    /// The bundled Biber's libraries.
    pub library_dir: Option<String>,
    /// Where the bundled Biber unpacks itself.
    pub par_cache: Option<String>,
}

/// Which program runs a bibliography processor.
#[derive(Debug, Clone)]
pub enum ExecutableChoice {
    /// The Biber texe manages (the managed runtime's, or the bundled one).
    ManagedBiber,
    /// The managed runtime's BibTeX.
    Managed(String),
    /// The command the manifest names, found as the project resolves
    /// commands.
    Configured(String),
}

/// The default commands run texe's own programs; a command the manifest
/// overrides runs as configured.
pub open spec fn executable_choice(processor: BibliographyProcessor, configured: Seq<char>, managed: Option<ManagedRuntime>) -> (Option<Seq<char>>, Seq<char>) {
    if processor == BibliographyProcessor::Biber && configured == "biber"@ {
        (None, Seq::empty())
    } else if managed is Some && processor == BibliographyProcessor::Bibtex && configured == "bibtex"@ {
        (Some(join_path(managed->0.binary_dir@, "bibtex"@)), Seq::empty())
    } else {
        (None, configured)
    }
}

pub fn bibliography_executable_choice(processor: BibliographyProcessor, configured: &str, toolchain: &ResolvedToolchain) -> (r: ExecutableChoice)
    ensures
        processor == BibliographyProcessor::Biber && configured@ == "biber"@ ==> r is ManagedBiber,
        !(processor == BibliographyProcessor::Biber && configured@ == "biber"@) && toolchain.managed is Some
            && processor == BibliographyProcessor::Bibtex && configured@ == "bibtex"@ ==> (r matches ExecutableChoice::Managed(p)
            && p@ == join_path(toolchain.managed->0.binary_dir@, "bibtex"@)),
        !(processor == BibliographyProcessor::Biber && configured@ == "biber"@) && !(toolchain.managed is Some
            && processor == BibliographyProcessor::Bibtex && configured@ == "bibtex"@) ==> (r matches ExecutableChoice::Configured(
            c,
        ) && c@ == configured@),
{
    let c = chars_of(configured);
    if processor == BibliographyProcessor::Biber && eq_str(&c, "biber") {
        return ExecutableChoice::ManagedBiber;
    }
    match &toolchain.managed {
        Some(m) => {
            if processor == BibliographyProcessor::Bibtex && eq_str(&c, "bibtex") {
                return ExecutableChoice::Managed(join_path_of(m.binary_dir.as_str(), "bibtex"));
            }
        },
        None => {},
    }
    ExecutableChoice::Configured(String::from_str(configured))
}

/// The name of a processor in messages, and the command the manifest
/// configures for it.
pub fn processor_command(processor: BibliographyProcessor, manifest: &ProjectManifest) -> (r: (&'static str, String))
    ensures
        processor == BibliographyProcessor::Bibtex ==> r.0@ == "BibTeX"@ && r.1@ == manifest.bibliography.bibtex@,
        processor == BibliographyProcessor::Biber ==> r.0@ == "Biber"@ && r.1@ == manifest.bibliography.biber@,
{
    match processor {
        BibliographyProcessor::Bibtex => ("BibTeX", manifest.bibliography.bibtex.clone()),
        BibliographyProcessor::Biber => ("Biber", manifest.bibliography.biber.clone()),
    }
}

/// The environment of a processor run: the bibliography environment, with
/// a managed run's `PATH` opened to the processor's own directory, the
/// bundled Biber's libraries (where that directory exists) and its unpack
/// directory.
pub open spec fn processor_environment_of(
    project_root: Seq<char>,
    m: ProjectManifest,
    texmf: Seq<char>,
    t: ResolvedToolchain,
    exe: BibliographyExecutable,
    library_dir_exists: bool,
) -> Result<Seq<(Seq<char>, Seq<char>)>, Seq<char>> {
    let base = bibliography_environment_of(project_root, m, texmf, t);
    let with_path = match t.managed {
        Some(r) => match managed_bibliography_path_of(exe.path@, r.binary_dir@) {
            Ok(p) => Ok(base.update(2, ("PATH"@, p))),
            Err(e) => Err(e),
        },
        None => Ok(base),
    };
    match with_path {
        Ok(env) => Ok(env + library_part(exe, library_dir_exists) + cache_part(exe)),
        Err(e) => Err(e),
    }
}

pub open spec fn library_part(exe: BibliographyExecutable, library_dir_exists: bool) -> Seq<(Seq<char>, Seq<char>)> {
    match exe.library_dir {
        Some(d) => if library_dir_exists {
            seq![("LD_LIBRARY_PATH"@, d@)]
        } else {
            Seq::empty()
        },
        None => Seq::empty(),
    }
}

pub open spec fn cache_part(exe: BibliographyExecutable) -> Seq<(Seq<char>, Seq<char>)> {
    match exe.par_cache {
        Some(c) => seq![("PAR_GLOBAL_TEMP"@, c@)],
        None => Seq::empty(),
    }
}

pub fn processor_environment(
    project_root: &str,
    manifest: &ProjectManifest,
    texmf: &str,
    toolchain: &ResolvedToolchain,
    working_directory: &str,
    executable: &BibliographyExecutable,
    library_dir_exists: bool,
) -> (r: Result<Vec<(String, String)>, TexeError>)
    ensures
        match processor_environment_of(project_root@, *manifest, texmf@, *toolchain, *executable, library_dir_exists) {
            Ok(e) => r matches Ok(v) && pairs_view(v@) == e,
            Err(m) => r matches Err(TexeError::Toolchain(x)) && x@ == m,
        },
{
    let mut env = bibliography_environment(project_root, manifest, texmf, toolchain, working_directory);
    match &toolchain.managed {
        Some(m) => {
            let path = managed_bibliography_path(executable.path.as_str(), m.binary_dir.as_str())?;
            let ghost before = pairs_view(env@);
            let ghost pv = path@;
            env.set(2, (String::from_str("PATH"), path));
            assert(pairs_view(env@) =~= before.update(2, ("PATH"@, pv)));
        },
        None => {},
    }
    let ghost mid = pairs_view(env@);
    match &executable.library_dir {
        Some(d) => {
            if library_dir_exists {
                crate::environment::push_pair(&mut env, "LD_LIBRARY_PATH", d.clone());
            }
        },
        None => {},
    }
    match &executable.par_cache {
        Some(c) => {
            crate::environment::push_pair(&mut env, "PAR_GLOBAL_TEMP", c.clone());
        },
        None => {},
    }
    assert(pairs_view(env@) =~= mid + library_part(*executable, library_dir_exists) + cache_part(*executable));
    Ok(env)
}

/// What a failed processor run reports: its log, or where the log is
/// blank, what it printed.
pub open spec fn failure_text(
    name: Seq<char>,
    control: Seq<char>,
    status: Seq<char>,
    log: Seq<char>,
    stdout: Seq<char>,
    stderr: Seq<char>,
) -> Seq<char> {
    let detail = if trim(log).len() == 0 {
        stdout + "\n"@ + stderr
    } else {
        log
    };
    name + " failed for "@ + control + " with status "@ + status + ":\n"@ + trim(detail)
}

pub fn processor_failure_text(name: &str, control: &str, status: &str, log: &str, stdout: &str, stderr: &str) -> (r: TexeError)
    ensures
        r matches TexeError::Build(m) && m@ == failure_text(name@, control@, status@, log@, stdout@, stderr@),
{
    let l = chars_of(log);
    let (a, b) = crate::text::trim_bounds(&l, 0, l.len());
    assert(l@.subrange(0, l@.len() as int) == l@);
    let mut detail = if a == b {
        let mut d = String::from_str(stdout);
        d.append("\n");
        d.append(stderr);
        d
    } else {
        String::from_str(log)
    };
    let dv = chars_of(detail.as_str());
    let (c, e) = crate::text::trim_bounds(&dv, 0, dv.len());
    assert(dv@.subrange(0, dv@.len() as int) == dv@);
    let mut m = String::from_str(name);
    m.append(" failed for ");
    m.append(control);
    m.append(" with status ");
    m.append(status);
    m.append(":\n");
    crate::text::push_all(&mut m, &crate::text::slice_of(&dv, c, e));
    TexeError::Build(m)
}

/// See [`processor_failure_text`]: the printed output is read as UTF-8,
/// ill-formed bytes replaced.
pub fn processor_failure(name: &str, control: &str, status: &str, log: &str, stdout: &[u8], stderr: &[u8]) -> (r: TexeError)
    ensures
        r matches TexeError::Build(m) && m@ == failure_text(
            name@,
            control@,
            status@,
            log@,
            crate::integrations::utf8_lossy(stdout@),
            crate::integrations::utf8_lossy(stderr@),
        ),
{
    let out = crate::integrations::lossy_text(stdout);
    let err = crate::integrations::lossy_text(stderr);
    processor_failure_text(name, control, status, log, out.as_str(), err.as_str())
}

/// The lines of some bytes, split at every line feed (as `split` gives
/// them: a final line feed leaves an empty last line).
pub open spec fn byte_lines_from(s: Seq<u8>, i: int) -> Seq<Seq<u8>>
    decreases s.len() - i,
{
    if i < 0 || i > s.len() {
        Seq::empty()
    } else {
        let j = byte_from(s, 10u8, i);
        proof {
            lemma_byte_from_bounds(s, 10u8, i);
        }
        if j >= s.len() {
            seq![s.subrange(i, s.len() as int)]
        } else {
            seq![s.subrange(i, j)] + byte_lines_from(s, j + 1)
        }
    }
}

pub open spec fn citation_marker() -> Seq<u8> {
    seq![92u8, 99u8, 105u8, 116u8, 97u8, 116u8, 105u8, 111u8, 110u8, 123u8]
}

pub open spec fn bibdata_marker() -> Seq<u8> {
    seq![92u8, 98u8, 105u8, 98u8, 100u8, 97u8, 116u8, 97u8, 123u8]
}

pub open spec fn bibstyle_marker() -> Seq<u8> {
    seq![92u8, 98u8, 105u8, 98u8, 115u8, 116u8, 121u8, 108u8, 101u8, 123u8]
}

/// What a line of an auxiliary file gives BibTeX's private control file.
#[derive(Debug, Clone)]
pub enum AuxLine {
    /// Bytes to copy, line feed included.
    Keep(Vec<u8>),
    /// An auxiliary file to flatten in here.
    Include(Vec<u8>),
}

pub enum AuxLineView {
    Keep(Seq<u8>),
    Include(Seq<u8>),
}

pub open spec fn aux_line_view(l: AuxLine) -> AuxLineView {
    match l {
        AuxLine::Keep(b) => AuxLineView::Keep(b@),
        AuxLine::Include(b) => AuxLineView::Include(b@),
    }
}

/// Citations are kept, database and style lines lose their explicit `./`
/// prefixes, and `\@input` lines name the files to flatten in; other
/// lines are left out.
pub open spec fn aux_line(line: Seq<u8>) -> Option<AuxLineView> {
    if crate::auxfile::bytes_at(line, citation_marker(), 0) {
        Some(AuxLineView::Keep(line.push(10u8)))
    } else if crate::auxfile::bytes_at(line, bibdata_marker(), 0) || crate::auxfile::bytes_at(line, bibstyle_marker(), 0) {
        Some(AuxLineView::Keep(normalized_bibtex_line(line).push(10u8)))
    } else {
        match aux_include(line) {
            Some(v) => Some(AuxLineView::Include(v)),
            None => None,
        }
    }
}

pub open spec fn aux_lines_of(lines: Seq<Seq<u8>>) -> Seq<AuxLineView>
    decreases lines.len(),
{
    if lines.len() == 0 {
        Seq::empty()
    } else {
        aux_lines_of(lines.drop_last()) + match aux_line(lines.last()) {
            Some(l) => seq![l],
            None => Seq::empty(),
        }
    }
}

proof fn lemma_aux_lines_single(line: Seq<u8>)
    ensures
        aux_lines_of(seq![line]) == match aux_line(line) {
            Some(l) => seq![l],
            None => Seq::<AuxLineView>::empty(),
        },
{
    let s = seq![line];
    assert(s.drop_last() =~= Seq::<Seq<u8>>::empty());
    assert(s.last() == line);
    assert(aux_lines_of(s.drop_last()) =~= Seq::<AuxLineView>::empty());
    match aux_line(line) {
        Some(l) => {
            assert(Seq::<AuxLineView>::empty() + seq![l] =~= seq![l]);
        },
        None => {
            assert(Seq::<AuxLineView>::empty() + Seq::<AuxLineView>::empty() =~= Seq::<AuxLineView>::empty());
        },
    }
}

pub proof fn lemma_aux_lines_append(a: Seq<Seq<u8>>, b: Seq<Seq<u8>>)
    ensures
        aux_lines_of(a + b) == aux_lines_of(a) + aux_lines_of(b),
    decreases b.len(),
{
    if b.len() == 0 {
        assert(a + b =~= a);
        assert(aux_lines_of(b) =~= Seq::<AuxLineView>::empty());
        assert(aux_lines_of(a) + Seq::<AuxLineView>::empty() =~= aux_lines_of(a));
    } else {
        lemma_aux_lines_append(a, b.drop_last());
        assert((a + b).drop_last() =~= a + b.drop_last());
        assert((a + b).last() == b.last());
    }
}

fn aux_line_of(line: &[u8]) -> (r: Option<AuxLine>)
    ensures
        match r {
            Some(l) => aux_line(line@) == Some(aux_line_view(l)),
            None => aux_line(line@) is None,
        },
{
    let citation: Vec<u8> = vec![92u8, 99u8, 105u8, 116u8, 97u8, 116u8, 105u8, 111u8, 110u8, 123u8];
    let data: Vec<u8> = vec![92u8, 98u8, 105u8, 98u8, 100u8, 97u8, 116u8, 97u8, 123u8];
    let style: Vec<u8> = vec![92u8, 98u8, 105u8, 98u8, 115u8, 116u8, 121u8, 108u8, 101u8, 123u8];
    assert(citation@ == citation_marker());
    assert(data@ == bibdata_marker());
    assert(style@ == bibstyle_marker());
    if crate::auxfile::bytes_match(line, citation.as_slice(), 0) {
        let mut kept = crate::auxfile::bytes_slice(line, 0, line.len());
        assert(line@.subrange(0, line@.len() as int) == line@);
        kept.push(10u8);
        return Some(AuxLine::Keep(kept));
    }
    if crate::auxfile::bytes_match(line, data.as_slice(), 0) || crate::auxfile::bytes_match(line, style.as_slice(), 0) {
        let mut kept = crate::auxfile::normalize_bibtex_project_relative_paths(line);
        kept.push(10u8);
        return Some(AuxLine::Keep(kept));
    }
    match crate::auxfile::bibtex_auxiliary_include(line) {
        Some(v) => Some(AuxLine::Include(v)),
        None => None,
    }
}

/// What each line of an auxiliary file gives BibTeX's private control file,
/// in order.
pub fn auxiliary_lines(bytes: &[u8]) -> (r: Vec<AuxLine>)
    ensures
        r@.map_values(|l: AuxLine| aux_line_view(l)) == aux_lines_of(byte_lines_from(bytes@, 0)),
{
    let mut r: Vec<AuxLine> = Vec::new();
    let mut i: usize = 0;
    loop
        invariant
            i <= bytes.len(),
            aux_lines_of(byte_lines_from(bytes@, 0)) == r@.map_values(|l: AuxLine| aux_line_view(l)) + aux_lines_of(
                byte_lines_from(bytes@, i as int),
            ),
        decreases bytes.len() - i,
    {
        let mut j = i;
        while j < bytes.len() && bytes[j] != 10u8
            invariant
                i <= j <= bytes.len(),
                byte_from(bytes@, 10u8, i as int) == byte_from(bytes@, 10u8, j as int),
            decreases bytes.len() - j,
        {
            j += 1;
        }
        let line = crate::auxfile::bytes_slice(bytes, i, j);
        let ghost rest = byte_lines_from(bytes@, i as int);
        let ghost before = r@.map_values(|l: AuxLine| aux_line_view(l));
        let ghost added = match aux_line(line@) {
            Some(l) => seq![l],
            None => Seq::<AuxLineView>::empty(),
        };
        match aux_line_of(line.as_slice()) {
            Some(l) => {
                r.push(l);
            },
            None => {},
        }
        assert(r@.map_values(|l: AuxLine| aux_line_view(l)) =~= before + added);
        if j >= bytes.len() {
            proof {
                assert(rest == seq![line@]);
                lemma_aux_lines_single(line@);
                assert(aux_lines_of(byte_lines_from(bytes@, 0)) =~= before + added);
            }
            return r;
        }
        proof {
            let tail = byte_lines_from(bytes@, j + 1);
            assert(rest == seq![line@] + tail);
            lemma_aux_lines_append(seq![line@], tail);
            lemma_aux_lines_single(line@);
        }
        i = j + 1;
    }
}

pub proof fn lemma_hex_len(b: Seq<u8>)
    ensures
        hex_text(b).len() == 2 * b.len(),
    decreases b.len(),
{
    if b.len() > 0 {
        lemma_hex_len(b.drop_last());
    }
}

/// The stem of BibTeX's private control file: `texe-bibtex-` and sixteen
/// hexadecimal digits of the hash of the control file's path, the process
/// and an attempt number, so that runs never share one.
pub open spec fn proxy_stem_of(control: Seq<char>, process: u32, attempt: u32) -> Seq<char> {
    "texe-bibtex-"@ + hex_text(
        sha256(vstd::utf8::encode_utf8(control) + crate::state::le_bytes(process as nat, 4) + crate::state::le_bytes(attempt as nat, 4)),
    ).subrange(0, 16)
}

pub fn proxy_stem(control: &str, process: u32, attempt: u32) -> (r: String)
    ensures
        r@ == proxy_stem_of(control@, process, attempt),
{
    let mut input: Vec<u8> = Vec::new();
    crate::state::append_bytes(&mut input, control.as_bytes());
    crate::state::append_le_bytes(&mut input, process as u64, 4);
    crate::state::append_le_bytes(&mut input, attempt as u64, 4);
    let hash = crate::digest::sha256_of(input.as_slice());
    let hex = chars_of(crate::digest::hex_encode(hash.as_slice()).as_str());
    proof {
        lemma_hex_len(hash@);
    }
    let mut r = String::from_str("texe-bibtex-");
    crate::text::push_all(&mut r, &crate::text::slice_of(&hex, 0, 16));
    r
}

} // verus!
