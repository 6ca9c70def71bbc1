//! The project manifest, `texe.toml`, and the invariants it must keep.
//!
//! Paths in the manifest are project-relative and written with `/`.
use vstd::prelude::*;
use crate::error::TexeError;
use crate::numbers::{decimal, push_decimal};
use crate::paths::{
    components, empty_or_absolute, has_portable_components, is_empty_or_absolute, overlap,
    path_components, paths_equal, paths_overlap, portable_components, same_path, texts_view,
};
use crate::text::{chars_of, eq_str, trim, trim_bounds};
use crate::trace::{is_wrapped_line, utf8_len};

verus! {

/// Schema identifier required by every texe project manifest.
pub const PROJECT_SCHEMA: &'static str = "texe.project/v1";

/// File name used for a texe project manifest.
pub const MANIFEST_NAME: &'static str = "texe.toml";

pub const DEFAULT_ENTRY: &'static str = "main.tex";

pub const DEFAULT_ENGINE: &'static str = "pdflatex";

pub const MAX_GENERATED_INPUTS: usize = 128;

pub const MAX_GENERATED_INPUT_BYTES: usize = 1048576;

pub const MAX_GENERATED_INPUT_TOTAL_BYTES: usize = 4194304;

/// User-supplied choices used to initialize an existing project.
#[derive(Debug, Clone)]
pub struct InitRequest {
    /// Optional main TeX source path.
    pub entry: Option<String>,
    /// Optional TeX engine name.
    pub engine: Option<String>,
    /// Whether texe may prompt for missing choices.
    pub interactive: bool,
    /// Whether texe should accept defaults without prompting.
    pub accept_defaults: bool,
}

/// Fully resolved settings for project initialization.
#[derive(Debug, Clone)]
pub struct InitSettings {
    /// Main TeX source path.
    pub entry: String,
    /// TeX engine selected for the project.
    pub engine: String,
}

/// Initial content to put in a newly created TeX document.
#[derive(Debug, Clone, Copy, PartialEq, Eq, Structural)]
pub enum StarterTemplate {
    /// A minimal compilable article.
    Basic,
    /// An empty document for callers that provide their own content.
    Empty,
}

/// Metadata and template choices for a new starter document.
#[derive(Debug, Clone)]
pub struct StarterDocument {
    /// Document title.
    pub title: String,
    /// Document author.
    pub author: String,
    /// Starter content template.
    pub template: StarterTemplate,
}

/// Files produced when a project is initialized.
#[derive(Debug, Clone)]
pub struct InitOutcome {
    /// Path to the newly written project manifest.
    pub manifest: String,
    /// Every file created during initialization.
    pub created_files: Vec<String>,
}

/// Complete, versioned representation of `texe.toml`.
#[derive(Debug, Clone)]
pub struct ProjectManifest {
    /// Manifest schema identifier. This must equal [`PROJECT_SCHEMA`].
    pub schema: String,
    /// Project paths and generated inputs.
    pub project: ProjectConfig,
    /// Managed TeX runtime configuration.
    pub toolchain: ToolchainConfig,
    /// Extra project-owned input roots.
    pub inputs: InputConfig,
    /// Bibliography tool configuration.
    pub bibliography: BibliographyConfig,
    /// Index tool configuration.
    pub index: IndexConfig,
    /// Package-resolution and materialization configuration.
    pub packages: PackagesConfig,
}

/// Project-owned paths and generated inputs.
#[derive(Debug, Clone)]
pub struct ProjectConfig {
    /// Main TeX source path, relative to the project manifest.
    pub entry: String,
    /// Private build directory, relative to the project manifest.
    pub build_dir: String,
    /// Small, declarative inputs that upstream build scripts would otherwise
    /// generate. They are materialized only inside texe's private build roots.
    pub generated: Vec<GeneratedInput>,
}

/// A small declarative file materialized in texe's private build root.
#[derive(Debug, Clone)]
pub struct GeneratedInput {
    /// Destination path relative to the private generated-input root.
    pub path: String,
    /// UTF-8 file contents.
    pub content: String,
}

/// Additional project-owned TeX input roots.
#[derive(Debug, Clone)]
pub struct InputConfig {
    /// Additional project-owned roots searched recursively for TeX inputs.
    pub roots: Vec<String>,
}

/// Managed TeX runtime and execution policy.
#[derive(Debug, Clone)]
pub struct ToolchainConfig {
    /// Toolchain provider; the initial schema supports `managed`.
    pub provider: String,
    /// TeX engine, such as `pdflatex` or `lualatex`.
    pub engine: String,
    /// Managed runtime channel.
    pub channel: String,
    /// Recorder adapter used to trace package inputs.
    pub adapter: String,
    /// `kpsewhich` executable or override.
    pub kpsewhich: String,
    /// Maximum TeX convergence passes.
    pub max_passes: usize,
    /// Permit the TeX engine to execute arbitrary project-selected commands.
    pub shell_escape: bool,
    /// Permit project or host overrides for pqty, recorder, bibliography,
    /// and index commands while using the managed provider.
    pub allow_unmanaged_commands: bool,
}

/// Package resolution, lockfile, store, and materialization settings.
#[derive(Debug, Clone)]
pub struct PackagesConfig {
    /// Package manager executable or override.
    pub manager: String,
    /// Recorder trace adapter executable or override.
    pub trace_adapter: String,
    /// Project package lockfile path.
    pub lock: String,
    /// Materialized project TEXMF root.
    pub texmf: String,
    /// Optional shared package-store path.
    pub store: Option<String>,
    /// Whether the package manager may use network registries.
    pub remote: bool,
    /// How the materialized TEXMF tree references pqty's store.
    pub link: String,
}

/// Bibliography tools and project-owned bibliography roots.
#[derive(Debug, Clone)]
pub struct BibliographyConfig {
    /// BibTeX executable or override.
    pub bibtex: String,
    /// Biber executable or override.
    pub biber: String,
    /// Additional project-owned roots searched for `.bib` and `.bst` files.
    pub roots: Vec<String>,
}

/// Index-generation tool settings.
#[derive(Debug, Clone)]
pub struct IndexConfig {
    /// `MakeIndex` executable or override.
    pub makeindex: String,
}

pub fn default_build_dir() -> (r: String)
    ensures
        r@ == ".texe/build"@,
{
    String::from_str(".texe/build")
}

pub fn default_provider() -> (r: String)
    ensures
        r@ == "managed"@,
{
    String::from_str("managed")
}

pub fn default_channel() -> (r: String)
    ensures
        r@ == "stable"@,
{
    String::from_str("stable")
}

pub fn default_adapter() -> (r: String)
    ensures
        r@ == "kpathsea"@,
{
    String::from_str("kpathsea")
}

pub fn default_kpsewhich() -> (r: String)
    ensures
        r@ == "kpsewhich"@,
{
    String::from_str("kpsewhich")
}

pub fn default_max_passes() -> (r: usize)
    ensures
        r == 5,
{
    5
}

pub fn default_manager() -> (r: String)
    ensures
        r@ == "pqty"@,
{
    String::from_str("pqty")
}

pub fn default_trace_adapter() -> (r: String)
    ensures
        r@ == "pqty-fls"@,
{
    String::from_str("pqty-fls")
}

pub fn default_bibtex() -> (r: String)
    ensures
        r@ == "bibtex"@,
{
    String::from_str("bibtex")
}

pub fn default_biber() -> (r: String)
    ensures
        r@ == "biber"@,
{
    String::from_str("biber")
}

pub fn default_makeindex() -> (r: String)
    ensures
        r@ == "makeindex"@,
{
    String::from_str("makeindex")
}

pub fn default_lock() -> (r: String)
    ensures
        r@ == ".texe/state/pqty.lock"@,
{
    String::from_str(".texe/state/pqty.lock")
}

pub fn default_texmf() -> (r: String)
    ensures
        r@ == ".texe/texmf"@,
{
    String::from_str(".texe/texmf")
}

pub fn default_remote() -> (r: bool)
    ensures
        r,
{
    true
}

/// Copy mode is pqty's supported installation contract.
pub fn default_link() -> (r: String)
    ensures
        r@ == "copy"@,
{
    String::from_str("copy")
}

impl Default for InitRequest {
    fn default() -> (r: Self)
        ensures
            r.entry is None,
            r.engine is None,
            !r.interactive,
            !r.accept_defaults,
    {
        InitRequest { entry: None, engine: None, interactive: false, accept_defaults: false }
    }
}

impl Default for StarterTemplate {
    fn default() -> (r: Self)
        ensures
            r == StarterTemplate::Empty,
    {
        StarterTemplate::Empty
    }
}

impl Default for StarterDocument {
    fn default() -> (r: Self)
        ensures
            r.title@.len() == 0,
            r.author@.len() == 0,
            r.template == StarterTemplate::Empty,
    {
        StarterDocument { title: String::new(), author: String::new(), template: StarterTemplate::Empty }
    }
}

impl Default for IndexConfig {
    fn default() -> (r: Self)
        ensures
            r.makeindex@ == "makeindex"@,
    {
        IndexConfig { makeindex: default_makeindex() }
    }
}

impl Default for BibliographyConfig {
    fn default() -> (r: Self)
        ensures
            r.bibtex@ == "bibtex"@,
            r.biber@ == "biber"@,
            r.roots@.len() == 0,
    {
        BibliographyConfig { bibtex: default_bibtex(), biber: default_biber(), roots: Vec::new() }
    }
}

impl Default for PackagesConfig {
    fn default() -> (r: Self)
        ensures
            r.manager@ == "pqty"@,
            r.trace_adapter@ == "pqty-fls"@,
            r.lock@ == ".texe/state/pqty.lock"@,
            r.texmf@ == ".texe/texmf"@,
            r.store is None,
            r.remote,
            r.link@ == "copy"@,
    {
        PackagesConfig {
            manager: default_manager(),
            trace_adapter: default_trace_adapter(),
            lock: default_lock(),
            texmf: default_texmf(),
            store: None,
            remote: default_remote(),
            link: default_link(),
        }
    }
}

impl Default for InputConfig {
    fn default() -> (r: Self)
        ensures
            r.roots@.len() == 0,
    {
        InputConfig { roots: Vec::new() }
    }
}

impl ProjectManifest {
    /// The manifest that `texe.toml` with only the required keys describes:
    /// every other setting takes its default.
    pub fn with_defaults(entry: &str, engine: &str) -> (r: Self)
        ensures
            r.schema@ == PROJECT_SCHEMA@,
            r.project.entry@ == entry@,
            r.project.build_dir@ == ".texe/build"@,
            r.project.generated@.len() == 0,
            r.toolchain.provider@ == "managed"@,
            r.toolchain.engine@ == engine@,
            r.toolchain.channel@ == "stable"@,
            r.toolchain.adapter@ == "kpathsea"@,
            r.toolchain.kpsewhich@ == "kpsewhich"@,
            r.toolchain.max_passes == 5,
            !r.toolchain.shell_escape,
            !r.toolchain.allow_unmanaged_commands,
            r.inputs.roots@.len() == 0,
            r.bibliography.bibtex@ == "bibtex"@,
            r.bibliography.biber@ == "biber"@,
            r.bibliography.roots@.len() == 0,
            r.index.makeindex@ == "makeindex"@,
            r.packages.manager@ == "pqty"@,
            r.packages.trace_adapter@ == "pqty-fls"@,
            r.packages.lock@ == ".texe/state/pqty.lock"@,
            r.packages.texmf@ == ".texe/texmf"@,
            r.packages.store is None,
            r.packages.remote,
            r.packages.link@ == "copy"@,
    {
        ProjectManifest {
            schema: String::from_str(PROJECT_SCHEMA),
            project: ProjectConfig {
                entry: String::from_str(entry),
                build_dir: default_build_dir(),
                generated: Vec::new(),
            },
            toolchain: ToolchainConfig {
                provider: default_provider(),
                engine: String::from_str(engine),
                channel: default_channel(),
                adapter: default_adapter(),
                kpsewhich: default_kpsewhich(),
                max_passes: default_max_passes(),
                shell_escape: false,
                allow_unmanaged_commands: false,
            },
            inputs: InputConfig::default(),
            bibliography: BibliographyConfig::default(),
            index: IndexConfig::default(),
            packages: PackagesConfig::default(),
        }
    }
}

/// A command differs from the one the managed provider ships.
pub open spec fn unmanaged(m: ProjectManifest) -> bool {
    ||| m.packages.manager@ != "pqty"@
    ||| m.packages.trace_adapter@ != "pqty-fls"@
    ||| m.bibliography.bibtex@ != "bibtex"@
    ||| m.bibliography.biber@ != "biber"@
    ||| m.index.makeindex@ != "makeindex"@
}

impl ProjectManifest {
    pub fn uses_unmanaged_commands(&self) -> (r: bool)
        ensures
            r == unmanaged(*self),
    {
        !eq_str(&chars_of(self.packages.manager.as_str()), "pqty") || !eq_str(
            &chars_of(self.packages.trace_adapter.as_str()),
            "pqty-fls",
        ) || !eq_str(&chars_of(self.bibliography.bibtex.as_str()), "bibtex") || !eq_str(
            &chars_of(self.bibliography.biber.as_str()),
            "biber",
        ) || !eq_str(&chars_of(self.index.makeindex.as_str()), "makeindex")
    }
}

/// What is wrong with a path that must be project-relative.
pub open spec fn relative_path_problem(name: Seq<char>, p: Seq<char>) -> Option<Seq<char>> {
    if empty_or_absolute(p) {
        Some(name + " must be a non-empty project-relative path"@)
    } else if !portable_components(p) {
        Some(name + " must contain only portable project-relative path components"@)
    } else {
        None
    }
}

/// What is wrong with a path that must stay out of `.texe`.
pub open spec fn portable_path_problem(name: Seq<char>, p: Seq<char>) -> Option<Seq<char>> {
    match relative_path_problem(name, p) {
        Some(m) => Some(m),
        None => if components(p).len() > 0 && components(p)[0] == ".texe"@ {
            Some(name + " cannot target texe's private .texe directory"@)
        } else {
            None
        },
    }
}

/// What is wrong with a path that must lie below `.texe`.
pub open spec fn derived_path_problem(name: Seq<char>, p: Seq<char>) -> Option<Seq<char>> {
    match relative_path_problem(name, p) {
        Some(m) => Some(m),
        None => if components(p).len() >= 2 && components(p)[0] == ".texe"@ {
            None
        } else {
            Some(name + " must be below texe's private .texe directory"@)
        },
    }
}

pub fn validate_relative_path(name: &str, path: &str) -> (r: Result<(), TexeError>)
    ensures
        match relative_path_problem(name@, path@) {
            None => r is Ok,
            Some(m) => r matches Err(TexeError::Manifest(e)) && e@ == m,
        },
{
    let p = chars_of(path);
    if is_empty_or_absolute(&p) {
        let mut m = String::from_str(name);
        m.append(" must be a non-empty project-relative path");
        return Err(TexeError::Manifest(m));
    }
    if !has_portable_components(&p) {
        let mut m = String::from_str(name);
        m.append(" must contain only portable project-relative path components");
        return Err(TexeError::Manifest(m));
    }
    Ok(())
}

fn first_component_is_private(path: &str) -> (r: (bool, usize))
    ensures
        r.0 == (components(path@).len() > 0 && components(path@)[0] == ".texe"@),
        r.1 == components(path@).len(),
{
    let c = path_components(&chars_of(path));
    assert(texts_view(c@).len() == c@.len());
    if c.len() > 0 {
        assert(texts_view(c@)[0] == c@[0]@);
        (eq_str(&c[0], ".texe"), c.len())
    } else {
        (false, 0)
    }
}

pub fn validate_portable_project_path(name: &str, path: &str) -> (r: Result<(), TexeError>)
    ensures
        match portable_path_problem(name@, path@) {
            None => r is Ok,
            Some(m) => r matches Err(TexeError::Manifest(e)) && e@ == m,
        },
{
    validate_relative_path(name, path)?;
    let (private, _) = first_component_is_private(path);
    if private {
        let mut m = String::from_str(name);
        m.append(" cannot target texe's private .texe directory");
        return Err(TexeError::Manifest(m));
    }
    Ok(())
}

pub fn validate_derived_path(name: &str, path: &str) -> (r: Result<(), TexeError>)
    ensures
        match derived_path_problem(name@, path@) {
            None => r is Ok,
            Some(m) => r matches Err(TexeError::Manifest(e)) && e@ == m,
        },
{
    validate_relative_path(name, path)?;
    let (private, count) = first_component_is_private(path);
    if !private || count < 2 {
        let mut m = String::from_str(name);
        m.append(" must be below texe's private .texe directory");
        return Err(TexeError::Manifest(m));
    }
    Ok(())
}

/// The first pair of derived paths that overlap, in declaration order.
pub open spec fn overlap_problem(m: ProjectManifest) -> Option<Seq<char>> {
    let b = m.project.build_dir@;
    let l = m.packages.lock@;
    let t = m.packages.texmf@;
    let store_overlaps = |x: Seq<char>| match m.packages.store {
        Some(s) => overlap(x, s@),
        None => false,
    };
    if overlap(b, l) {
        Some("project.build_dir and packages.lock cannot overlap"@)
    } else if overlap(b, t) {
        Some("project.build_dir and packages.texmf cannot overlap"@)
    } else if store_overlaps(b) {
        Some("project.build_dir and packages.store cannot overlap"@)
    } else if overlap(l, t) {
        Some("packages.lock and packages.texmf cannot overlap"@)
    } else if store_overlaps(l) {
        Some("packages.lock and packages.store cannot overlap"@)
    } else if store_overlaps(t) {
        Some("packages.texmf and packages.store cannot overlap"@)
    } else {
        None
    }
}

fn overlaps_store(path: &String, store: &Option<String>) -> (r: bool)
    ensures
        r == match store {
            Some(s) => overlap(path@, s@),
            None => false,
        },
{
    match store {
        Some(s) => paths_overlap(path.as_str(), s.as_str()),
        None => false,
    }
}

pub fn validate_derived_paths_do_not_overlap(manifest: &ProjectManifest) -> (r: Result<(), TexeError>)
    ensures
        match overlap_problem(*manifest) {
            None => r is Ok,
            Some(m) => r matches Err(TexeError::Manifest(e)) && e@ == m,
        },
{
    let b = &manifest.project.build_dir;
    let l = &manifest.packages.lock;
    let t = &manifest.packages.texmf;
    let s = &manifest.packages.store;
    let message = if paths_overlap(b.as_str(), l.as_str()) {
        "project.build_dir and packages.lock cannot overlap"
    } else if paths_overlap(b.as_str(), t.as_str()) {
        "project.build_dir and packages.texmf cannot overlap"
    } else if overlaps_store(b, s) {
        "project.build_dir and packages.store cannot overlap"
    } else if paths_overlap(l.as_str(), t.as_str()) {
        "packages.lock and packages.texmf cannot overlap"
    } else if overlaps_store(l, s) {
        "packages.lock and packages.store cannot overlap"
    } else if overlaps_store(t, s) {
        "packages.texmf and packages.store cannot overlap"
    } else {
        return Ok(());
    };
    Err(TexeError::Manifest(String::from_str(message)))
}

/// `name[index]`.
pub open spec fn indexed(name: Seq<char>, index: nat) -> Seq<char> {
    name + "["@ + decimal(index) + "]"@
}

fn indexed_name(name: &str, index: usize) -> (r: String)
    ensures
        r@ == indexed(name@, index as nat),
{
    let mut r = String::from_str(name);
    r.append("[");
    push_decimal(&mut r, index as u64);
    r.append("]");
    r
}

/// A path appears earlier in the list.
pub open spec fn repeated_before(paths: Seq<Seq<char>>, i: int) -> bool {
    exists|j: int| 0 <= j < i && same_path(#[trigger] paths[j], paths[i])
}

pub open spec fn roots_view(v: Seq<String>) -> Seq<Seq<char>> {
    v.map_values(|s: String| s@)
}

/// The first problem among the roots from index `i` on.
pub open spec fn roots_problem_from(name: Seq<char>, roots: Seq<Seq<char>>, i: int) -> Option<Seq<char>>
    decreases roots.len() - i,
{
    if i < 0 || i >= roots.len() {
        None
    } else {
        match portable_path_problem(indexed(name, i as nat), roots[i]) {
            Some(m) => Some(m),
            None => if repeated_before(roots, i) {
                Some(name + " contains duplicate path "@ + roots[i])
            } else {
                roots_problem_from(name, roots, i + 1)
            },
        }
    }
}

fn repeated_before_of(paths: &Vec<String>, i: usize) -> (r: bool)
    requires
        i < paths.len(),
    ensures
        r == repeated_before(roots_view(paths@), i as int),
{
    let mut j: usize = 0;
    while j < i
        invariant
            j <= i < paths.len(),
            forall|k: int| 0 <= k < j ==> !same_path(#[trigger] roots_view(paths@)[k], roots_view(paths@)[i as int]),
        decreases i - j,
    {
        if paths_equal(paths[j].as_str(), paths[i].as_str()) {
            assert(same_path(roots_view(paths@)[j as int], roots_view(paths@)[i as int]));
            return true;
        }
        j += 1;
    }
    false
}

pub fn validate_input_roots(name: &str, roots: &Vec<String>) -> (r: Result<(), TexeError>)
    ensures
        match roots_problem_from(name@, roots_view(roots@), 0) {
            None => r is Ok,
            Some(m) => r matches Err(TexeError::Manifest(e)) && e@ == m,
        },
{
    let mut i: usize = 0;
    while i < roots.len()
        invariant
            i <= roots.len(),
            roots_problem_from(name@, roots_view(roots@), 0) == roots_problem_from(
                name@,
                roots_view(roots@),
                i as int,
            ),
        decreases roots.len() - i,
    {
        let n = indexed_name(name, i);
        assert(roots_view(roots@)[i as int] == roots@[i as int]@);
        validate_portable_project_path(n.as_str(), roots[i].as_str())?;
        if repeated_before_of(roots, i) {
            let mut m = String::from_str(name);
            m.append(" contains duplicate path ");
            m.append(roots[i].as_str());
            return Err(TexeError::Manifest(m));
        }
        i += 1;
    }
    Ok(())
}

pub fn validate_bibliography_roots(roots: &Vec<String>) -> (r: Result<(), TexeError>)
    ensures
        match roots_problem_from("bibliography.roots"@, roots_view(roots@), 0) {
            None => r is Ok,
            Some(m) => r matches Err(TexeError::Manifest(e)) && e@ == m,
        },
{
    validate_input_roots("bibliography.roots", roots)
}

pub open spec fn generated_paths(g: Seq<GeneratedInput>) -> Seq<Seq<char>> {
    g.map_values(|x: GeneratedInput| x.path@)
}

/// The bytes of generated content in the first `n` inputs.
pub open spec fn generated_bytes(g: Seq<GeneratedInput>, n: int) -> nat
    decreases n,
{
    if n <= 0 || n > g.len() {
        0
    } else {
        generated_bytes(g, n - 1) + utf8_len(g[n - 1].content@)
    }
}

/// The first problem among the generated inputs from index `i` on.
pub open spec fn generated_problem_from(g: Seq<GeneratedInput>, i: int) -> Option<Seq<char>>
    decreases g.len() - i,
{
    if i < 0 || i >= g.len() {
        None
    } else {
        match portable_path_problem(indexed("project.generated"@, i as nat) + ".path"@, g[i].path@) {
            Some(m) => Some(m),
            None => if repeated_before(generated_paths(g), i) {
                Some("project.generated contains duplicate path "@ + g[i].path@)
            } else if utf8_len(g[i].content@) > MAX_GENERATED_INPUT_BYTES {
                Some("project.generated input "@ + g[i].path@ + " exceeds 1048576 bytes"@)
            } else {
                generated_problem_from(g, i + 1)
            },
        }
    }
}

/// What is wrong with the generated inputs: too many, a bad or repeated
/// path, a file over 1 MiB, or more than 4 MiB in all.
pub open spec fn generated_problem(g: Seq<GeneratedInput>) -> Option<Seq<char>> {
    if g.len() > MAX_GENERATED_INPUTS {
        Some("project.generated cannot contain more than 128 files"@)
    } else {
        match generated_problem_from(g, 0) {
            Some(m) => Some(m),
            None => if generated_bytes(g, g.len() as int) > MAX_GENERATED_INPUT_TOTAL_BYTES {
                Some("project.generated content exceeds 4194304 bytes in total"@)
            } else {
                None
            },
        }
    }
}

/// The UTF-8 length of `s`, where it is at most `cap`.
fn utf8_len_within(s: &String, cap: usize) -> (r: Option<usize>)
    ensures
        r matches Some(n) ==> n == utf8_len(s@) && n <= cap,
        r is None ==> utf8_len(s@) > cap,
{
    let v = chars_of(s.as_str());
    let mut sum: usize = 0;
    let mut i: usize = 0;
    while i < v.len()
        invariant
            i <= v.len(),
            sum == utf8_len(v@.subrange(0, i as int)),
            sum <= cap,
            v@ == s@,
        decreases v.len() - i,
    {
        let c = v[i];
        let w: usize = if (c as u32) < 0x80 {
            1
        } else if (c as u32) < 0x800 {
            2
        } else if (c as u32) < 0x10000 {
            3
        } else {
            4
        };
        assert(v@.subrange(0, i + 1).drop_last() == v@.subrange(0, i as int));
        assert(v@.subrange(0, i + 1).last() == c);
        assert(utf8_len(v@.subrange(0, i + 1)) == sum + w);
        if w > cap - sum {
            proof {
                crate::trace::lemma_utf8_len_prefix(v@, i + 1, v@.len() as int);
                assert(v@.subrange(0, v@.len() as int) == v@);
                assert(utf8_len(v@) >= sum + w);
                assert(v@ == s@);
            }
            return None;
        }
        sum = sum + w;
        i += 1;
    }
    assert(v@.subrange(0, v@.len() as int) == v@);
    Some(sum)
}

fn generated_paths_of(inputs: &Vec<GeneratedInput>) -> (r: Vec<String>)
    ensures
        roots_view(r@) == generated_paths(inputs@),
        r@.len() == inputs@.len(),
{
    let mut r: Vec<String> = Vec::new();
    let mut i: usize = 0;
    while i < inputs.len()
        invariant
            i <= inputs.len(),
            roots_view(r@) == generated_paths(inputs@).subrange(0, i as int),
            r@.len() == i,
        decreases inputs.len() - i,
    {
        let ghost before = roots_view(r@);
        r.push(inputs[i].path.clone());
        assert(roots_view(r@) == before.push(inputs@[i as int].path@));
        assert(generated_paths(inputs@).subrange(0, i + 1) == generated_paths(inputs@).subrange(0, i as int).push(inputs@[i as int].path@));
        i += 1;
    }
    r
}

pub fn validate_generated_inputs(inputs: &Vec<GeneratedInput>) -> (r: Result<(), TexeError>)
    ensures
        match generated_problem(inputs@) {
            None => r is Ok,
            Some(m) => r matches Err(TexeError::Manifest(e)) && e@ == m,
        },
{
    if inputs.len() > MAX_GENERATED_INPUTS {
        return Err(TexeError::Manifest(String::from_str("project.generated cannot contain more than 128 files")));
    }
    let paths = generated_paths_of(inputs);
    let mut total: usize = 0;
    let mut i: usize = 0;
    while i < inputs.len()
        invariant
            i <= inputs.len() <= MAX_GENERATED_INPUTS,
            roots_view(paths@) == generated_paths(inputs@),
            paths.len() == inputs.len(),
            generated_problem_from(inputs@, 0) == generated_problem_from(inputs@, i as int),
            total == generated_bytes(inputs@, i as int),
            total <= i * MAX_GENERATED_INPUT_BYTES,
        decreases inputs.len() - i,
    {
        let n = indexed_name("project.generated", i);
        let mut name = n;
        name.append(".path");
        validate_portable_project_path(name.as_str(), inputs[i].path.as_str())?;
        if repeated_before_of(&paths, i) {
            let mut m = String::from_str("project.generated contains duplicate path ");
            m.append(inputs[i].path.as_str());
            return Err(TexeError::Manifest(m));
        }
        let len = match utf8_len_within(&inputs[i].content, MAX_GENERATED_INPUT_BYTES) {
            Some(n) => n,
            None => {
                let mut m = String::from_str("project.generated input ");
                m.append(inputs[i].path.as_str());
                m.append(" exceeds 1048576 bytes");
                return Err(TexeError::Manifest(m));
            },
        };
        assert(total + len <= (i + 1) * MAX_GENERATED_INPUT_BYTES) by (nonlinear_arith)
            requires
                total <= i * MAX_GENERATED_INPUT_BYTES,
                len <= MAX_GENERATED_INPUT_BYTES,
        ;
        total = total + len;
        i += 1;
    }
    if total > MAX_GENERATED_INPUT_TOTAL_BYTES {
        return Err(TexeError::Manifest(String::from_str("project.generated content exceeds 4194304 bytes in total")));
    }
    Ok(())
}

/// One of the ways pqty can install packages into the project tree.
pub open spec fn link_mode(s: Seq<char>) -> bool {
    s == "copy"@ || s == "experimental-symlink"@ || s == "experimental-hardlink"@
}

pub fn is_link_mode(s: &str) -> (r: bool)
    ensures
        r == link_mode(s@),
{
    let v = chars_of(s);
    eq_str(&v, "copy") || eq_str(&v, "experimental-symlink") || eq_str(&v, "experimental-hardlink")
}

/// The first command setting, in manifest order, that is blank.
pub open spec fn empty_command_problem(m: ProjectManifest) -> Option<Seq<char>> {
    if trim(m.toolchain.provider@).len() == 0 {
        Some("toolchain.provider cannot be empty"@)
    } else if trim(m.toolchain.engine@).len() == 0 {
        Some("toolchain.engine cannot be empty"@)
    } else if trim(m.toolchain.channel@).len() == 0 {
        Some("toolchain.channel cannot be empty"@)
    } else if trim(m.toolchain.adapter@).len() == 0 {
        Some("toolchain.adapter cannot be empty"@)
    } else if trim(m.toolchain.kpsewhich@).len() == 0 {
        Some("toolchain.kpsewhich cannot be empty"@)
    } else if trim(m.packages.manager@).len() == 0 {
        Some("packages.manager cannot be empty"@)
    } else if trim(m.packages.trace_adapter@).len() == 0 {
        Some("packages.trace_adapter cannot be empty"@)
    } else if trim(m.bibliography.bibtex@).len() == 0 {
        Some("bibliography.bibtex cannot be empty"@)
    } else if trim(m.bibliography.biber@).len() == 0 {
        Some("bibliography.biber cannot be empty"@)
    } else if trim(m.index.makeindex@).len() == 0 {
        Some("index.makeindex cannot be empty"@)
    } else {
        None
    }
}

pub fn is_blank(s: &String) -> (r: bool)
    ensures
        r == (trim(s@).len() == 0),
{
    let v = chars_of(s.as_str());
    let (a, b) = trim_bounds(&v, 0, v.len());
    assert(v@.subrange(0, v@.len() as int) == v@);
    a == b
}

/// Everything that makes a manifest invalid, the first problem first.
#[verifier::opaque]
pub open spec fn manifest_problem(m: ProjectManifest) -> Option<Seq<char>> {
    if m.schema@ != PROJECT_SCHEMA@ {
        Some("unsupported manifest schema "@ + m.schema@ + "; expected texe.project/v1"@)
    } else if portable_path_problem("project.entry"@, m.project.entry@) is Some {
        portable_path_problem("project.entry"@, m.project.entry@)
    } else if derived_path_problem("project.build_dir"@, m.project.build_dir@) is Some {
        derived_path_problem("project.build_dir"@, m.project.build_dir@)
    } else if derived_path_problem("packages.lock"@, m.packages.lock@) is Some {
        derived_path_problem("packages.lock"@, m.packages.lock@)
    } else if derived_path_problem("packages.texmf"@, m.packages.texmf@) is Some {
        derived_path_problem("packages.texmf"@, m.packages.texmf@)
    } else if m.packages.store is Some && relative_path_problem(
        "packages.store"@,
        m.packages.store->0@,
    ) is Some {
        relative_path_problem("packages.store"@, m.packages.store->0@)
    } else if overlap_problem(m) is Some {
        overlap_problem(m)
    } else if generated_problem(m.project.generated@) is Some {
        generated_problem(m.project.generated@)
    } else if roots_problem_from("inputs.roots"@, roots_view(m.inputs.roots@), 0) is Some {
        roots_problem_from("inputs.roots"@, roots_view(m.inputs.roots@), 0)
    } else if roots_problem_from("bibliography.roots"@, roots_view(m.bibliography.roots@), 0) is Some {
        roots_problem_from("bibliography.roots"@, roots_view(m.bibliography.roots@), 0)
    } else if empty_command_problem(m) is Some {
        empty_command_problem(m)
    } else if !(2 <= m.toolchain.max_passes <= 20) {
        Some("toolchain.max_passes must be between 2 and 20"@)
    } else if !link_mode(m.packages.link@) {
        Some(
            "packages.link must be one of copy, experimental-symlink, experimental-hardlink; got `"@
                + m.packages.link@ + "`"@,
        )
    } else if m.toolchain.provider@ == "managed"@ && unmanaged(m)
        && !m.toolchain.allow_unmanaged_commands {
        Some(
            "managed command overrides require `toolchain.allow_unmanaged_commands = true`; they can execute host or project software and disable the no-op build cache"@,
        )
    } else {
        None
    }
}

impl ProjectManifest {
    /// Validate schema, command, path, and pass-count invariants.
    pub fn validate(&self) -> (r: Result<(), TexeError>)
        ensures
            match manifest_problem(*self) {
                None => r is Ok,
                Some(m) => r matches Err(TexeError::Manifest(e)) && e@ == m,
            },
    {
        proof {
            reveal(manifest_problem);
        }
        if !eq_str(&chars_of(self.schema.as_str()), PROJECT_SCHEMA) {
            let mut m = String::from_str("unsupported manifest schema ");
            m.append(self.schema.as_str());
            m.append("; expected texe.project/v1");
            return Err(TexeError::Manifest(m));
        }
        validate_portable_project_path("project.entry", self.project.entry.as_str())?;
        validate_derived_path("project.build_dir", self.project.build_dir.as_str())?;
        validate_derived_path("packages.lock", self.packages.lock.as_str())?;
        validate_derived_path("packages.texmf", self.packages.texmf.as_str())?;
        if let Some(store) = &self.packages.store {
            validate_relative_path("packages.store", store.as_str())?;
        }
        validate_derived_paths_do_not_overlap(self)?;
        validate_generated_inputs(&self.project.generated)?;
        validate_input_roots("inputs.roots", &self.inputs.roots)?;
        validate_bibliography_roots(&self.bibliography.roots)?;
        let blank = if is_blank(&self.toolchain.provider) {
            Some("toolchain.provider cannot be empty")
        } else if is_blank(&self.toolchain.engine) {
            Some("toolchain.engine cannot be empty")
        } else if is_blank(&self.toolchain.channel) {
            Some("toolchain.channel cannot be empty")
        } else if is_blank(&self.toolchain.adapter) {
            Some("toolchain.adapter cannot be empty")
        } else if is_blank(&self.toolchain.kpsewhich) {
            Some("toolchain.kpsewhich cannot be empty")
        } else if is_blank(&self.packages.manager) {
            Some("packages.manager cannot be empty")
        } else if is_blank(&self.packages.trace_adapter) {
            Some("packages.trace_adapter cannot be empty")
        } else if is_blank(&self.bibliography.bibtex) {
            Some("bibliography.bibtex cannot be empty")
        } else if is_blank(&self.bibliography.biber) {
            Some("bibliography.biber cannot be empty")
        } else if is_blank(&self.index.makeindex) {
            Some("index.makeindex cannot be empty")
        } else {
            None
        };
        if let Some(message) = blank {
            return Err(TexeError::Manifest(String::from_str(message)));
        }
        if !(2 <= self.toolchain.max_passes && self.toolchain.max_passes <= 20) {
            return Err(TexeError::Manifest(String::from_str("toolchain.max_passes must be between 2 and 20")));
        }
        if !is_link_mode(self.packages.link.as_str()) {
            let mut m = String::from_str(
                "packages.link must be one of copy, experimental-symlink, experimental-hardlink; got `",
            );
            m.append(self.packages.link.as_str());
            m.append("`");
            return Err(TexeError::Manifest(m));
        }
        if eq_str(&chars_of(self.toolchain.provider.as_str()), "managed") && self.uses_unmanaged_commands()
            && !self.toolchain.allow_unmanaged_commands {
            return Err(
                TexeError::Manifest(
                    String::from_str(
                        "managed command overrides require `toolchain.allow_unmanaged_commands = true`; they can execute host or project software and disable the no-op build cache",
                    ),
                ),
            );
        }
        Ok(())
    }
}

} // verus!
