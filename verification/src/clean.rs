//! Removing what a build leaves behind.
//!
//! Everything texe writes outside the project root is derived: runtimes,
//! package stores, formats and materialized trees are all reproducible from
//! pinned inputs. These functions decide what a sweep removes and account for
//! it; the caller lists, measures and removes the files.
use vstd::prelude::*;
use crate::config::{manifest_problem, ProjectManifest};
use crate::error::TexeError;
use crate::setup::{join_path, join_path_of, strings_view};
use crate::text::{chars_of, eq_str};
use crate::order::insert_text;

verus! {

/// Options of `texe clean`.
#[derive(Debug, Clone, Copy)]
pub struct CleanOptions {
    /// Also sweep shared caches below `TEXE_HOME` that no current recipe needs.
    pub caches: bool,
    /// Sweep every managed runtime, format, component, and download,
    /// including the ones current recipes still use.
    pub all: bool,
}

impl Default for CleanOptions {
    fn default() -> (r: Self)
        ensures
            !r.caches,
            !r.all,
    {
        CleanOptions { caches: false, all: false }
    }
}

/// What a clean removed (or, measured, would remove).
#[derive(Debug, Clone)]
pub struct CleanReport {
    pub schema: String,
    /// Project paths removed, relative to the project root.
    pub project: Vec<String>,
    /// Shared cache paths removed, absolute.
    pub caches: Vec<String>,
    pub freed_bytes: u64,
}

/// What the project and the shared caches occupy.
#[derive(Debug, Clone)]
pub struct StorageReport {
    pub schema: String,
    pub project: Vec<StorageEntry>,
    pub shared: Vec<StorageEntry>,
    pub total_bytes: u64,
}

#[derive(Debug, Clone)]
pub struct StorageEntry {
    pub path: String,
    pub bytes: u64,
    pub purpose: String,
}

/// The cache entries that current recipes still use, by cache directory.
#[derive(Debug, Clone)]
pub struct LiveToolchainArtifacts {
    pub home: String,
    pub runtimes: Vec<String>,
    pub fingerprints: Vec<String>,
    pub components: Vec<String>,
    pub downloads: Vec<String>,
}

/// One entry found directly below a cache directory, with its size.
#[derive(Debug, Clone)]
pub struct CacheEntry {
    pub directory: String,
    pub name: String,
    pub path: String,
    pub bytes: u64,
}

/// The `TEXE_HOME` subdirectories a sweep may touch, with what each holds.
pub open spec fn cache_directory_table() -> Seq<(Seq<char>, Seq<char>)> {
    seq![
        ("toolchains"@, "checksummed LaTeX runtimes"@),
        ("formats"@, "generated LaTeX formats"@),
        ("components"@, "checksummed bibliography tools"@),
        ("downloads"@, "verified reusable downloads"@),
        ("pqty"@, "package registry, downloads, and shared store"@),
        ("editor"@, "bundled VS Code integration"@),
        ("timings"@, "local per-project build timing history"@),
    ]
}

/// The cache directories, with their purposes.
pub fn cache_directories() -> (r: Vec<(&'static str, &'static str)>)
    ensures
        r@.len() == 7,
        forall|i: int| 0 <= i < 7 ==> (#[trigger] r@[i].0@, r@[i].1@) == cache_directory_table()[i],
{
    let v = vec![
        ("toolchains", "checksummed LaTeX runtimes"),
        ("formats", "generated LaTeX formats"),
        ("components", "checksummed bibliography tools"),
        ("downloads", "verified reusable downloads"),
        ("pqty", "package registry, downloads, and shared store"),
        ("editor", "bundled VS Code integration"),
        ("timings", "local per-project build timing history"),
    ];
    v
}

/// Whether a cache entry belongs to a recipe this binary can still resolve;
/// entries of other directories are always kept by an orphan sweep.
pub open spec fn is_retained(directory: Seq<char>, name: Seq<char>, live: LiveToolchainArtifacts) -> bool {
    if directory == "toolchains"@ {
        strings_view(live.runtimes@).contains(name)
    } else if directory == "formats"@ {
        strings_view(live.fingerprints@).contains(name)
    } else if directory == "components"@ {
        strings_view(live.components@).contains(name)
    } else if directory == "downloads"@ {
        strings_view(live.downloads@).contains(name)
    } else {
        true
    }
}

pub(crate) fn listed(v: &Vec<String>, name: &str) -> (r: bool)
    ensures
        r == strings_view(v@).contains(name@),
{
    let n = chars_of(name);
    let mut i: usize = 0;
    while i < v.len()
        invariant
            i <= v.len(),
            n@ == name@,
            forall|j: int| 0 <= j < i ==> strings_view(v@)[j] != name@,
        decreases v.len() - i,
    {
        assert(strings_view(v@)[i as int] == v@[i as int]@);
        if eq_str(&n, v[i].as_str()) {
            assert(strings_view(v@)[i as int] == name@);
            return true;
        }
        i += 1;
    }
    false
}

pub fn retained(directory: &str, name: &str, live: &LiveToolchainArtifacts) -> (r: bool)
    ensures
        r == is_retained(directory@, name@, *live),
{
    let d = chars_of(directory);
    if eq_str(&d, "toolchains") {
        listed(&live.runtimes, name)
    } else if eq_str(&d, "formats") {
        listed(&live.fingerprints, name)
    } else if eq_str(&d, "components") {
        listed(&live.components, name)
    } else if eq_str(&d, "downloads") {
        listed(&live.downloads, name)
    } else {
        true
    }
}

/// The path of a cache directory below the storage home.
pub fn cache_directory_path(home: &str, directory: &str) -> (r: String)
    ensures
        r@ == join_path(home@, directory@),
{
    join_path_of(home, directory)
}

/// An entry that a sweep with these options removes.
pub open spec fn swept(options: CleanOptions, live: LiveToolchainArtifacts, e: CacheEntry) -> bool {
    options.all || !is_retained(e.directory@, e.name@, live)
}

/// The bytes of the first `n` listed entries that a sweep removes.
pub open spec fn swept_bytes(options: CleanOptions, live: LiveToolchainArtifacts, listing: Seq<CacheEntry>, n: int) -> nat
    decreases n,
{
    if n <= 0 || n > listing.len() {
        0
    } else {
        swept_bytes(options, live, listing, n - 1) + if swept(options, live, listing[n - 1]) {
            listing[n - 1].bytes as nat
        } else {
            0
        }
    }
}

/// The paths of the first `n` listed entries that a sweep removes.
pub open spec fn swept_paths(options: CleanOptions, live: LiveToolchainArtifacts, listing: Seq<CacheEntry>, n: int) -> Seq<Seq<char>>
    decreases n,
{
    if n <= 0 || n > listing.len() {
        Seq::empty()
    } else if swept(options, live, listing[n - 1]) {
        swept_paths(options, live, listing, n - 1).push(listing[n - 1].path@)
    } else {
        swept_paths(options, live, listing, n - 1)
    }
}

fn sweep(options: CleanOptions, live: &LiveToolchainArtifacts, listing: &Vec<CacheEntry>, report: &mut CleanReport) -> (r: Vec<String>)
    requires
        old(report).freed_bytes + swept_bytes(options, *live, listing@, listing@.len() as int) <= u64::MAX,
    ensures
        final(report).freed_bytes == old(report).freed_bytes + swept_bytes(options, *live, listing@, listing@.len() as int),
        strings_view(final(report).caches@) == strings_view(old(report).caches@) + swept_paths(options, *live, listing@, listing@.len() as int),
        strings_view(r@) == swept_paths(options, *live, listing@, listing@.len() as int),
        final(report).project@ == old(report).project@,
        final(report).schema@ == old(report).schema@,
{
    let mut selected: Vec<String> = Vec::new();
    let mut i: usize = 0;
    proof {
        assert(strings_view(report.caches@) =~= strings_view(old(report).caches@) + swept_paths(options, *live, listing@, 0));
    }
    while i < listing.len()
        invariant
            i <= listing.len(),
            old(report).freed_bytes + swept_bytes(options, *live, listing@, listing@.len() as int) <= u64::MAX,
            report.freed_bytes == old(report).freed_bytes + swept_bytes(options, *live, listing@, i as int),
            strings_view(report.caches@) == strings_view(old(report).caches@) + swept_paths(options, *live, listing@, i as int),
            strings_view(selected@) == swept_paths(options, *live, listing@, i as int),
            report.project@ == old(report).project@,
            report.schema@ == old(report).schema@,
        decreases listing.len() - i,
    {
        let entry = &listing[i];
        if options.all || !retained(entry.directory.as_str(), entry.name.as_str(), live) {
            proof {
                lemma_swept_bytes_grow(options, *live, listing@, i + 1, listing@.len() as int);
            }
            report.freed_bytes = report.freed_bytes + entry.bytes;
            let ghost before = strings_view(report.caches@);
            let ghost chosen = strings_view(selected@);
            report.caches.push(entry.path.clone());
            selected.push(entry.path.clone());
            assert(strings_view(report.caches@) == before.push(entry.path@));
            assert(strings_view(selected@) == chosen.push(entry.path@));
        }
        i += 1;
    }
    selected
}

pub proof fn lemma_swept_bytes_grow(options: CleanOptions, live: LiveToolchainArtifacts, listing: Seq<CacheEntry>, m: int, n: int)
    requires
        0 <= m <= n <= listing.len(),
    ensures
        swept_bytes(options, live, listing, m) <= swept_bytes(options, live, listing, n),
    decreases n - m,
{
    if m < n {
        lemma_swept_bytes_grow(options, live, listing, m, n - 1);
    }
}

/// Sweeps shared caches: records in `report` every listed entry that no
/// current recipe needs (every entry, with `all`), and returns their paths
/// for removal.
pub fn clean_caches(options: CleanOptions, live: &LiveToolchainArtifacts, listing: &Vec<CacheEntry>, report: &mut CleanReport) -> (r: Vec<String>)
    requires
        old(report).freed_bytes + swept_bytes(options, *live, listing@, listing@.len() as int) <= u64::MAX,
    ensures
        final(report).freed_bytes == old(report).freed_bytes + swept_bytes(options, *live, listing@, listing@.len() as int),
        strings_view(final(report).caches@) == strings_view(old(report).caches@) + swept_paths(options, *live, listing@, listing@.len() as int),
        strings_view(r@) == swept_paths(options, *live, listing@, listing@.len() as int),
        final(report).project@ == old(report).project@,
{
    sweep(options, live, listing, report)
}

/// Describes the shared paths [`clean_caches`] would remove, without
/// removing anything.
pub fn measure_caches(options: CleanOptions, live: &LiveToolchainArtifacts, listing: &Vec<CacheEntry>, report: &mut CleanReport)
    requires
        old(report).freed_bytes + swept_bytes(options, *live, listing@, listing@.len() as int) <= u64::MAX,
    ensures
        final(report).freed_bytes == old(report).freed_bytes + swept_bytes(options, *live, listing@, listing@.len() as int),
        strings_view(final(report).caches@) == strings_view(old(report).caches@) + swept_paths(options, *live, listing@, listing@.len() as int),
        final(report).project@ == old(report).project@,
{
    let _ = sweep(options, live, listing, report);
}

/// The derived paths of a project, in the order a clean visits them.
pub open spec fn project_targets(m: ProjectManifest) -> Seq<Seq<char>> {
    seq![m.project.build_dir@, m.packages.texmf@, m.packages.lock@]
}

/// The derived project paths that a clean removes: the manifest's build
/// directory, TEXMF tree and package lock, never `texe.lock` or the PDF.
pub fn cleanable_targets(manifest: &ProjectManifest) -> (r: Result<Vec<String>, TexeError>)
    ensures
        match manifest_problem(*manifest) {
            Some(m) => r matches Err(TexeError::Manifest(e)) && e@ == m,
            None => r matches Ok(t) && strings_view(t@) == project_targets(*manifest),
        },
{
    manifest.validate()?;
    let v = vec![
        manifest.project.build_dir.clone(),
        manifest.packages.texmf.clone(),
        manifest.packages.lock.clone(),
    ];
    assert(strings_view(v@) =~= project_targets(*manifest));
    Ok(v)
}

/// The total of the sizes that are present.
pub open spec fn present_total(sizes: Seq<Option<u64>>, n: int) -> nat
    decreases n,
{
    if n <= 0 || n > sizes.len() {
        0
    } else {
        present_total(sizes, n - 1) + match sizes[n - 1] {
            Some(b) => b as nat,
            None => 0,
        }
    }
}

pub proof fn lemma_present_total_grow(sizes: Seq<Option<u64>>, m: int, n: int)
    requires
        0 <= m <= n <= sizes.len(),
    ensures
        present_total(sizes, m) <= present_total(sizes, n),
    decreases n - m,
{
    if m < n {
        lemma_present_total_grow(sizes, m, n - 1);
    }
}

/// The targets from the first `n` whose size is present, each counted once.
pub open spec fn present_targets(targets: Seq<Seq<char>>, sizes: Seq<Option<u64>>, n: int) -> Seq<Seq<char>>
    decreases n,
{
    if n <= 0 || n > sizes.len() || n > targets.len() {
        Seq::empty()
    } else if sizes[n - 1] is Some && !present_targets(targets, sizes, n - 1).contains(targets[n - 1]) {
        present_targets(targets, sizes, n - 1).push(targets[n - 1])
    } else {
        present_targets(targets, sizes, n - 1)
    }
}

/// The bytes of the targets that [`present_targets`] keeps.
pub open spec fn present_bytes(targets: Seq<Seq<char>>, sizes: Seq<Option<u64>>, n: int) -> nat
    decreases n,
{
    if n <= 0 || n > sizes.len() || n > targets.len() {
        0
    } else if sizes[n - 1] is Some && !present_targets(targets, sizes, n - 1).contains(targets[n - 1]) {
        present_bytes(targets, sizes, n - 1) + sizes[n - 1]->0 as nat
    } else {
        present_bytes(targets, sizes, n - 1)
    }
}

pub proof fn lemma_present_bytes_bound(targets: Seq<Seq<char>>, sizes: Seq<Option<u64>>, n: int)
    requires
        0 <= n <= sizes.len(),
        n <= targets.len(),
    ensures
        present_bytes(targets, sizes, n) <= present_total(sizes, n),
    decreases n,
{
    if n > 0 {
        lemma_present_bytes_bound(targets, sizes, n - 1);
    }
}

fn contains_string(v: &Vec<String>, s: &String) -> (r: bool)
    ensures
        r == strings_view(v@).contains(s@),
{
    listed(v, s.as_str())
}

/// Describes the project paths a clean removes, without changing them:
/// `sizes[i]` is the measured size of target `i` of [`cleanable_targets`],
/// or `None` where it does not exist, and `parent_kinds[i]` what is at each
/// of its [`parent_directories`] below `project_root`. A target reached
/// through a symlinked directory is refused: removing through it could
/// reach outside the project.
pub fn measure_project(
    project_root: &str,
    manifest: &ProjectManifest,
    sizes: &Vec<Option<u64>>,
    parent_kinds: &Vec<Vec<PathKind>>,
    report: &mut CleanReport,
) -> (r: Result<(), TexeError>)
    requires
        sizes@.len() == 3,
        old(report).freed_bytes + present_total(sizes@, 3) <= u64::MAX,
    ensures
        match manifest_problem(*manifest) {
            Some(m) => r matches Err(TexeError::Manifest(e)) && e@ == m && *final(report) == *old(report),
            None => match symlink_refusal_of(project_root@, project_targets(*manifest), kinds_view(parent_kinds@), 0) {
                Some(m) => r matches Err(TexeError::Manifest(e)) && e@ == m && *final(report) == *old(report),
                None => r is Ok && final(report).freed_bytes == old(report).freed_bytes + present_bytes(
                    project_targets(*manifest),
                    sizes@,
                    3,
                ) && strings_view(final(report).project@) == strings_view(old(report).project@)
                    + present_targets(project_targets(*manifest), sizes@, 3) && final(report).caches@
                    == old(report).caches@,
            },
        },
{
    let checked = cleanable_targets(manifest)?;
    clean_refusal(project_root, &checked, parent_kinds)?;
    let targets = cleanable_targets(manifest)?;
    let ghost t = project_targets(*manifest);
    let mut seen: Vec<String> = Vec::new();
    let mut i: usize = 0;
    proof {
        assert(strings_view(report.project@) =~= strings_view(old(report).project@) + present_targets(t, sizes@, 0));
        lemma_present_bytes_bound(t, sizes@, 3);
    }
    while i < 3
        invariant
            i <= 3,
            sizes@.len() == 3,
            strings_view(targets@) == t,
            t == project_targets(*manifest),
            old(report).freed_bytes + present_total(sizes@, 3) <= u64::MAX,
            report.freed_bytes == old(report).freed_bytes + present_bytes(t, sizes@, i as int),
            strings_view(seen@) == present_targets(t, sizes@, i as int),
            strings_view(report.project@) == strings_view(old(report).project@) + present_targets(t, sizes@, i as int),
            report.caches@ == old(report).caches@,
        decreases 3 - i,
    {
        assert(t[i as int] == targets@[i as int]@);
        match sizes[i] {
            Some(bytes) => {
                if !contains_string(&seen, &targets[i]) {
                    proof {
                        lemma_present_bytes_bound(t, sizes@, i + 1);
                        lemma_present_total_grow(sizes@, i + 1, 3);
                    }
                    report.freed_bytes = report.freed_bytes + bytes;
                    let ghost before = strings_view(report.project@);
                    let ghost s0 = strings_view(seen@);
                    report.project.push(targets[i].clone());
                    seen.push(targets[i].clone());
                    assert(strings_view(report.project@) == before.push(targets@[i as int]@));
                    assert(strings_view(seen@) == s0.push(targets@[i as int]@));
                }
            },
            None => {},
        }
        i += 1;
    }
    Ok(())
}

/// The directories of `directories` that were removed (`removed[i]`), in order.
pub open spec fn removed_directories(directories: Seq<Seq<char>>, removed: Seq<bool>, n: int) -> Seq<Seq<char>>
    decreases n,
{
    if n <= 0 || n > directories.len() || n > removed.len() {
        Seq::empty()
    } else if removed[n - 1] {
        removed_directories(directories, removed, n - 1).push(directories[n - 1])
    } else {
        removed_directories(directories, removed, n - 1)
    }
}

/// Completes a clean's report after the measured targets were removed: of
/// the [`enclosing_directories`] left empty, those that were then removed
/// (`removed[i]`) join the project paths, in order; they free no bytes
/// that the measure did not count.
pub fn record_removed_directories(report: &mut CleanReport, directories: &Vec<String>, removed: &Vec<bool>)
    requires
        directories@.len() == removed@.len(),
    ensures
        strings_view(final(report).project@) == strings_view(old(report).project@) + removed_directories(
            strings_view(directories@),
            removed@,
            directories@.len() as int,
        ),
        final(report).freed_bytes == old(report).freed_bytes,
        final(report).caches@ == old(report).caches@,
        final(report).schema@ == old(report).schema@,
{
    let ghost ds = strings_view(directories@);
    let mut i: usize = 0;
    proof {
        assert(strings_view(report.project@) =~= strings_view(old(report).project@) + removed_directories(ds, removed@, 0));
    }
    while i < directories.len()
        invariant
            i <= directories.len(),
            directories@.len() == removed@.len(),
            ds == strings_view(directories@),
            strings_view(report.project@) == strings_view(old(report).project@) + removed_directories(ds, removed@, i as int),
            report.freed_bytes == old(report).freed_bytes,
            report.caches@ == old(report).caches@,
            report.schema@ == old(report).schema@,
        decreases directories.len() - i,
    {
        if removed[i] {
            let ghost before = strings_view(report.project@);
            report.project.push(directories[i].clone());
            assert(strings_view(report.project@) == before.push(directories@[i as int]@));
            assert(ds[i as int] == directories@[i as int]@);
        }
        i += 1;
    }
}

/// The project part of a storage report: what each existing derived path
/// occupies.
pub open spec fn project_purposes() -> Seq<Seq<char>> {
    seq!["build intermediates"@, "materialized project package tree"@, "internal package-manager lock"@]
}

pub open spec fn entries_view(v: Seq<StorageEntry>) -> Seq<(Seq<char>, u64, Seq<char>)> {
    v.map_values(|e: StorageEntry| (e.path@, e.bytes, e.purpose@))
}

/// The entries, among the first `n` paths, whose size is present.
pub open spec fn storage_entries(paths: Seq<Seq<char>>, purposes: Seq<Seq<char>>, sizes: Seq<Option<u64>>, n: int) -> Seq<(Seq<char>, u64, Seq<char>)>
    decreases n,
{
    if n <= 0 || n > sizes.len() || n > paths.len() || n > purposes.len() {
        Seq::empty()
    } else {
        match sizes[n - 1] {
            Some(b) => storage_entries(paths, purposes, sizes, n - 1).push((paths[n - 1], b, purposes[n - 1])),
            None => storage_entries(paths, purposes, sizes, n - 1),
        }
    }
}

fn push_entries(
    out: &mut Vec<StorageEntry>,
    total: &mut u64,
    paths: &Vec<String>,
    purposes: &Vec<&'static str>,
    sizes: &Vec<Option<u64>>,
)
    requires
        paths@.len() == sizes@.len(),
        purposes@.len() == sizes@.len(),
        old(out)@.len() == 0,
        *old(total) + present_total(sizes@, sizes@.len() as int) <= u64::MAX,
    ensures
        entries_view(final(out)@) == storage_entries(
            strings_view(paths@),
            purposes@.map_values(|p: &'static str| p@),
            sizes@,
            sizes@.len() as int,
        ),
        *final(total) == *old(total) + present_total(sizes@, sizes@.len() as int),
{
    let ghost pv = strings_view(paths@);
    let ghost qv = purposes@.map_values(|p: &'static str| p@);
    let mut i: usize = 0;
    while i < sizes.len()
        invariant
            i <= sizes.len(),
            paths@.len() == sizes@.len(),
            purposes@.len() == sizes@.len(),
            pv == strings_view(paths@),
            qv == purposes@.map_values(|p: &'static str| p@),
            *old(total) + present_total(sizes@, sizes@.len() as int) <= u64::MAX,
            entries_view(out@) == storage_entries(pv, qv, sizes@, i as int),
            *total == *old(total) + present_total(sizes@, i as int),
        decreases sizes.len() - i,
    {
        match sizes[i] {
            Some(bytes) => {
                proof {
                    lemma_present_total_grow(sizes@, i + 1, sizes@.len() as int);
                }
                *total = *total + bytes;
                let ghost before = entries_view(out@);
                out.push(StorageEntry { path: paths[i].clone(), bytes, purpose: String::from_str(purposes[i]) });
                assert(entries_view(out@) == before.push((pv[i as int], bytes, qv[i as int])));
            },
            None => {},
        }
        i += 1;
    }
}

/// Measures removable project state and managed caches: `project_sizes[i]`
/// is the size of target `i` of [`cleanable_targets`] and `shared_sizes[i]`
/// the size of cache directory `i` of [`cache_directories`] below `home`, or
/// `None` where the path does not exist.
pub fn storage_report(
    project: Option<&ProjectManifest>,
    project_sizes: &Vec<Option<u64>>,
    home: &str,
    shared_sizes: &Vec<Option<u64>>,
) -> (r: Result<StorageReport, TexeError>)
    requires
        project_sizes@.len() == 3,
        shared_sizes@.len() == 7,
        present_total(project_sizes@, 3) + present_total(shared_sizes@, 7) <= u64::MAX,
    ensures
        match project {
            Some(m) => manifest_problem(*m) is Some ==> (r matches Err(TexeError::Manifest(e)) && e@
                == manifest_problem(*m)->0),
            None => true,
        },
        (project matches Some(m) ==> manifest_problem(*m) is None) || project is None ==> (r matches Ok(
            report,
        ) && report.schema@ == "texe.storage-report/v1"@ && entries_view(report.project@) == match project {
            Some(m) => storage_entries(project_targets(*m), project_purposes(), project_sizes@, 3),
            None => Seq::empty(),
        } && entries_view(report.shared@) == storage_entries(
            cache_directory_table().map_values(|d: (Seq<char>, Seq<char>)| join_path(home@, d.0)),
            cache_directory_table().map_values(|d: (Seq<char>, Seq<char>)| d.1),
            shared_sizes@,
            7,
        ) && report.total_bytes == (match project {
            Some(_) => present_total(project_sizes@, 3),
            None => 0,
        }) + present_total(shared_sizes@, 7)),
{
    let mut total: u64 = 0;
    let mut project_entries: Vec<StorageEntry> = Vec::new();
    if let Some(manifest) = project {
        let targets = cleanable_targets(manifest)?;
        let purposes = vec!["build intermediates", "materialized project package tree", "internal package-manager lock"];
        assert(purposes@.map_values(|p: &'static str| p@) =~= project_purposes());
        assert(strings_view(targets@).len() == targets@.len());
        assert(manifest_problem(*manifest) is None);
        assert(targets@.len() == 3);
        push_entries(&mut project_entries, &mut total, &targets, &purposes, project_sizes);
    } else {
        assert(entries_view(project_entries@) =~= Seq::<(Seq<char>, u64, Seq<char>)>::empty());
    }
    let table = cache_directories();
    let mut paths: Vec<String> = Vec::new();
    let mut purposes: Vec<&'static str> = Vec::new();
    let mut i: usize = 0;
    while i < 7
        invariant
            i <= 7,
            table@.len() == 7,
            forall|k: int| 0 <= k < 7 ==> (#[trigger] table@[k].0@, table@[k].1@) == cache_directory_table()[k],
            strings_view(paths@) == cache_directory_table().subrange(0, i as int).map_values(|d: (Seq<char>, Seq<char>)| join_path(home@, d.0)),
            purposes@.map_values(|p: &'static str| p@) == cache_directory_table().subrange(0, i as int).map_values(|d: (Seq<char>, Seq<char>)| d.1),
        decreases 7 - i,
    {
        let ghost p0 = strings_view(paths@);
        let ghost q0 = purposes@.map_values(|p: &'static str| p@);
        paths.push(cache_directory_path(home, table[i].0));
        purposes.push(table[i].1);
        proof {
            let t = cache_directory_table();
            assert(t.subrange(0, i + 1) == t.subrange(0, i as int).push(t[i as int]));
            assert((table@[i as int].0@, table@[i as int].1@) == t[i as int]);
            assert(strings_view(paths@) =~= p0.push(join_path(home@, t[i as int].0)));
            assert(purposes@.map_values(|p: &'static str| p@) =~= q0.push(t[i as int].1));
            assert(t.subrange(0, i + 1).map_values(|d: (Seq<char>, Seq<char>)| join_path(home@, d.0)) =~= t.subrange(0, i as int).map_values(|d: (Seq<char>, Seq<char>)| join_path(home@, d.0)).push(join_path(home@, t[i as int].0)));
            assert(t.subrange(0, i + 1).map_values(|d: (Seq<char>, Seq<char>)| d.1) =~= t.subrange(0, i as int).map_values(|d: (Seq<char>, Seq<char>)| d.1).push(t[i as int].1));
        }
        i += 1;
    }
    assert(cache_directory_table().subrange(0, 7) == cache_directory_table());
    let mut shared: Vec<StorageEntry> = Vec::new();
    push_entries(&mut shared, &mut total, &paths, &purposes, shared_sizes);
    Ok(StorageReport {
        schema: String::from_str("texe.storage-report/v1"),
        project: project_entries,
        shared,
        total_bytes: total,
    })
}

/// The index of the last `/` of a path, or -1.
pub open spec fn last_slash(p: Seq<char>) -> int
    decreases p.len(),
{
    if p.len() == 0 {
        -1
    } else if p.last() == '/' {
        p.len() - 1
    } else {
        last_slash(p.drop_last())
    }
}

pub proof fn lemma_last_slash_bounds(p: Seq<char>)
    ensures
        -1 <= last_slash(p) < p.len(),
    decreases p.len(),
{
    if p.len() > 0 && p.last() != '/' {
        lemma_last_slash_bounds(p.drop_last());
    }
}

/// The parents of a project-relative path, nearest first, as
/// `Path::parent` gives them until the empty path: `a/b/c` has `a/b`, `a`.
pub open spec fn parent_dirs(p: Seq<char>) -> Seq<Seq<char>>
    decreases p.len(),
{
    let k = last_slash(p);
    proof {
        lemma_last_slash_bounds(p);
    }
    if k <= 0 {
        Seq::empty()
    } else {
        seq![p.subrange(0, k)] + parent_dirs(p.subrange(0, k))
    }
}

/// The parents of a project-relative path, nearest first.
pub fn parent_directories(path: &str) -> (r: Vec<String>)
    ensures
        strings_view(r@) == parent_dirs(path@),
{
    let c = chars_of(path);
    let mut r: Vec<String> = Vec::new();
    let mut end: usize = c.len();
    assert(c@.subrange(0, c.len() as int) =~= c@);
    assert(strings_view(r@) + parent_dirs(c@) =~= parent_dirs(c@));
    loop
        invariant
            end <= c.len(),
            c@ == path@,
            strings_view(r@) + parent_dirs(c@.subrange(0, end as int)) == parent_dirs(c@),
        decreases end,
    {
        let ghost p = c@.subrange(0, end as int);
        let mut j: usize = end;
        while j > 0 && c[j - 1] != '/'
            invariant
                j <= end <= c.len(),
                p == c@.subrange(0, end as int),
                last_slash(p) == last_slash(c@.subrange(0, j as int)),
            decreases j,
        {
            assert(c@.subrange(0, j as int).drop_last() =~= c@.subrange(0, j - 1));
            j -= 1;
        }
        proof {
            if j > 0 {
                assert(c@.subrange(0, j as int).last() == '/');
            }
            lemma_last_slash_bounds(p);
        }
        if j <= 1 {
            assert(parent_dirs(p) =~= Seq::<Seq<char>>::empty());
            assert(strings_view(r@) + Seq::<Seq<char>>::empty() =~= strings_view(r@));
            return r;
        }
        let k = j - 1;
        let q = crate::text::string_of(&c, 0, k);
        let ghost before = strings_view(r@);
        r.push(q);
        proof {
            assert(p.subrange(0, k as int) =~= c@.subrange(0, k as int));
            assert(strings_view(r@) =~= before.push(c@.subrange(0, k as int)));
            assert(parent_dirs(p) == seq![c@.subrange(0, k as int)] + parent_dirs(c@.subrange(0, k as int)));
            assert(strings_view(r@) + parent_dirs(c@.subrange(0, k as int)) =~= before + parent_dirs(p));
        }
        end = k;
    }
}

/// The index of the first entry of `chain` from `k` on that is not among
/// `dirs`, or the length of `chain`.
pub open spec fn leading_from(chain: Seq<Seq<char>>, dirs: Set<Seq<char>>, k: int) -> int
    decreases chain.len() - k,
{
    if k < 0 || k >= chain.len() || !dirs.contains(chain[k]) {
        k
    } else {
        leading_from(chain, dirs, k + 1)
    }
}

/// The parents of a target that hold it as existing directories: nearest
/// first, up to the first parent that is not among `dirs`.
pub open spec fn existing_parents(target: Seq<char>, dirs: Set<Seq<char>>) -> Seq<Seq<char>> {
    parent_dirs(target).subrange(0, leading_from(parent_dirs(target), dirs, 0))
}

/// The existing parents of each of `targets`, target after target.
pub open spec fn enclosing_seq(targets: Seq<Seq<char>>, dirs: Set<Seq<char>>) -> Seq<Seq<char>>
    decreases targets.len(),
{
    if targets.len() == 0 {
        Seq::empty()
    } else {
        enclosing_seq(targets.drop_last(), dirs) + existing_parents(targets.last(), dirs)
    }
}

/// In strictly decreasing code point order.
pub open spec fn texts_decreasing(s: Seq<Seq<char>>) -> bool {
    forall|i: int, j: int| 0 <= i < j < s.len() ==> crate::order::seq_lt(#[trigger] s[j], #[trigger] s[i])
}

/// The directories that hold the clean's targets, for removing those a
/// clean leaves empty: for each target its parents that are among
/// `directories` (the existing directories), nearest first up to the first
/// that is not, each once, deepest first (a directory before its parents).
pub fn enclosing_directories(targets: &Vec<String>, directories: &Vec<String>) -> (r: Vec<String>)
    ensures
        texts_decreasing(strings_view(r@)),
        strings_view(r@).to_set() == enclosing_seq(strings_view(targets@), strings_view(directories@).to_set()).to_set(),
{
    let ghost tv = strings_view(targets@);
    let ghost dirs = strings_view(directories@).to_set();
    let mut acc: Vec<String> = Vec::new();
    let mut i: usize = 0;
    while i < targets.len()
        invariant
            i <= targets.len(),
            tv == strings_view(targets@),
            dirs == strings_view(directories@).to_set(),
            crate::order::texts_sorted(crate::order::texts_of(acc@)),
            crate::order::texts_of(acc@).to_set() == enclosing_seq(tv.subrange(0, i as int), dirs).to_set(),
        decreases targets.len() - i,
    {
        let chain = parent_directories(targets[i].as_str());
        let ghost cv = strings_view(chain@);
        let ghost base = crate::order::texts_of(acc@).to_set();
        let mut k: usize = 0;
        while k < chain.len()
            invariant
                k <= chain.len(),
                cv == strings_view(chain@),
                i < tv.len(),
                cv == parent_dirs(tv[i as int]),
                dirs == strings_view(directories@).to_set(),
                leading_from(cv, dirs, 0) == leading_from(cv, dirs, k as int),
                forall|m: int| 0 <= m < k ==> dirs.contains(#[trigger] cv[m]),
                crate::order::texts_sorted(crate::order::texts_of(acc@)),
                crate::order::texts_of(acc@).to_set() == base + cv.subrange(0, k as int).to_set(),
            ensures
                k <= chain.len(),
                leading_from(cv, dirs, 0) == k,
                crate::order::texts_sorted(crate::order::texts_of(acc@)),
                crate::order::texts_of(acc@).to_set() == base + cv.subrange(0, k as int).to_set(),
            decreases chain.len() - k,
        {
            assert(cv[k as int] == chain@[k as int]@);
            if !contains_string(directories, &chain[k]) {
                assert(!dirs.contains(cv[k as int]));
                break;
            }
            insert_text(&mut acc, chain[k].clone());
            proof {
                assert(cv.subrange(0, k + 1) =~= cv.subrange(0, k as int).push(cv[k as int]));
                cv.subrange(0, k as int).lemma_push_to_set_commute(cv[k as int]);
                assert(crate::order::texts_of(acc@).to_set() =~= base + cv.subrange(0, k + 1).to_set());
            }
            k += 1;
        }
        proof {
            let t = tv.subrange(0, i + 1);
            assert(t.drop_last() =~= tv.subrange(0, i as int));
            assert(t.last() == tv[i as int]);
            assert(existing_parents(tv[i as int], dirs) == cv.subrange(0, k as int));
            vstd::seq_lib::seq_to_set_distributes_over_add(
                enclosing_seq(tv.subrange(0, i as int), dirs),
                cv.subrange(0, k as int),
            );
        }
        i += 1;
    }
    assert(tv.subrange(0, tv.len() as int) =~= tv);
    let mut r: Vec<String> = Vec::new();
    let mut j: usize = acc.len();
    while j > 0
        invariant
            j <= acc.len(),
            crate::order::texts_sorted(crate::order::texts_of(acc@)),
            strings_view(r@).len() == acc.len() - j,
            forall|m: int| 0 <= m < r@.len() ==> #[trigger] strings_view(r@)[m] == crate::order::texts_of(acc@)[acc.len() - 1 - m],
        decreases j,
    {
        let ghost before = strings_view(r@);
        r.push(acc[j - 1].clone());
        proof {
            assert(strings_view(r@) =~= before.push(acc@[j - 1]@));
            assert(crate::order::texts_of(acc@)[j - 1] == acc@[j - 1]@);
        }
        j -= 1;
    }
    proof {
        let a = crate::order::texts_of(acc@);
        let rv = strings_view(r@);
        assert forall|x: int, y: int| 0 <= x < y < rv.len() implies crate::order::seq_lt(#[trigger] rv[y], #[trigger] rv[x]) by {
            assert(rv[y] == a[acc.len() - 1 - y]);
            assert(rv[x] == a[acc.len() - 1 - x]);
        }
        assert forall|v: Seq<char>| rv.to_set().contains(v) <==> a.to_set().contains(v) by {
            if rv.to_set().contains(v) {
                let m = choose|m: int| 0 <= m < rv.len() && rv[m] == v;
                assert(a[acc.len() - 1 - m] == v);
            }
            if a.to_set().contains(v) {
                let m = choose|m: int| 0 <= m < a.len() && a[m] == v;
                assert(rv[acc.len() - 1 - m] == v);
            }
        }
        assert(rv.to_set() =~= a.to_set());
    }
    r
}

/// What is at a path, as `symlink_metadata` finds it.
#[derive(Debug, Clone, Copy, PartialEq, Eq, Structural)]
pub enum PathKind {
    Missing,
    Symlink,
    Present,
}

pub open spec fn kinds_view(k: Seq<Vec<PathKind>>) -> Seq<Seq<PathKind>> {
    k.map_values(|v: Vec<PathKind>| v@)
}

/// The first symlinked directory met walking down from the project root
/// through the last `n` of `dirs` (nearest first, so the walk starts at
/// index `n - 1`), stopping at the first that does not exist; `kinds[i]`
/// is what is at `dirs[i]`.
pub open spec fn symlinked_parent(dirs: Seq<Seq<char>>, kinds: Seq<PathKind>, n: int) -> Option<Seq<char>>
    decreases n,
{
    if n <= 0 || n > dirs.len() || n > kinds.len() {
        None
    } else {
        match kinds[n - 1] {
            PathKind::Symlink => Some(dirs[n - 1]),
            PathKind::Missing => None,
            PathKind::Present => symlinked_parent(dirs, kinds, n - 1),
        }
    }
}

/// The refusal of a clean whose target `i` or a later one lies below a
/// symlinked directory: the first such directory, below the project root.
pub open spec fn symlink_refusal_of(
    project_root: Seq<char>,
    targets: Seq<Seq<char>>,
    kinds: Seq<Seq<PathKind>>,
    i: int,
) -> Option<Seq<char>>
    decreases targets.len() - i,
{
    if i < 0 || i >= targets.len() {
        None
    } else {
        let k = if i < kinds.len() {
            kinds[i]
        } else {
            Seq::empty()
        };
        match symlinked_parent(parent_dirs(targets[i]), k, parent_dirs(targets[i]).len() as int) {
            Some(d) => Some("refusing to clean through symlinked derived directory "@ + join_path(project_root, d)),
            None => symlink_refusal_of(project_root, targets, kinds, i + 1),
        }
    }
}

/// Refuses to clean through a symlinked directory: `kinds[i]` is what is at
/// each of the [`parent_directories`] of `targets[i]` below `project_root`.
pub fn clean_refusal(project_root: &str, targets: &Vec<String>, kinds: &Vec<Vec<PathKind>>) -> (r: Result<(), TexeError>)
    ensures
        match symlink_refusal_of(project_root@, strings_view(targets@), kinds_view(kinds@), 0) {
            Some(m) => r matches Err(TexeError::Manifest(e)) && e@ == m,
            None => r is Ok,
        },
{
    let ghost tv = strings_view(targets@);
    let ghost kv = kinds_view(kinds@);
    let mut i: usize = 0;
    while i < targets.len()
        invariant
            i <= targets.len(),
            tv == strings_view(targets@),
            kv == kinds_view(kinds@),
            symlink_refusal_of(project_root@, tv, kv, 0) == symlink_refusal_of(project_root@, tv, kv, i as int),
        decreases targets.len() - i,
    {
        let dirs = parent_directories(targets[i].as_str());
        let empty: Vec<PathKind> = Vec::new();
        let k = if i < kinds.len() { &kinds[i] } else { &empty };
        let ghost dv = strings_view(dirs@);
        proof {
            assert(tv[i as int] == targets@[i as int]@);
            if i < kinds.len() {
                assert(kv[i as int] == kinds@[i as int]@);
            } else {
                assert(k@ =~= Seq::<PathKind>::empty());
            }
        }
        let mut j: usize = dirs.len();
        while j > 0
            invariant
                j <= dirs.len(),
                dv == strings_view(dirs@),
                symlinked_parent(dv, k@, dv.len() as int) == symlinked_parent(dv, k@, j as int),
                i < targets.len(),
                tv == strings_view(targets@),
                kv == kinds_view(kinds@),
                symlink_refusal_of(project_root@, tv, kv, 0) == symlink_refusal_of(project_root@, tv, kv, i as int),
                dv == parent_dirs(tv[i as int]),
                k@ == (if i < kv.len() { kv[i as int] } else { Seq::<PathKind>::empty() }),
            ensures
                symlinked_parent(dv, k@, dv.len() as int) is None,
            decreases j,
        {
            if j > k.len() {
                assert(symlinked_parent(dv, k@, j as int) is None);
                break;
            }
            match k[j - 1] {
                PathKind::Symlink => {
                    assert(dv[j - 1] == dirs@[j - 1]@);
                    let mut m = String::from_str("refusing to clean through symlinked derived directory ");
                    let joined = join_path_of(project_root, dirs[j - 1].as_str());
                    m.append(joined.as_str());
                    return Err(TexeError::Manifest(m));
                },
                PathKind::Missing => {
                    break;
                },
                PathKind::Present => {},
            }
            j -= 1;
        }
        i += 1;
    }
    Ok(())
}

} // verus!
