//! The contract with pqty, the package manager: which protocol versions
//! texe consumes, and how it calls pqty for a project.
use vstd::prelude::*;
use crate::config::{unmanaged, ProjectManifest};
use crate::error::TexeError;
use crate::paths::{same_path, paths_equal, strip_path_prefix, strip_path_prefix_of};
use crate::setup::strings_view;
use crate::environment::ResolvedToolchain;
use crate::integrations::{lossy_text, utf8_lossy};
use crate::numbers::{decimal, push_decimal};
use crate::setup::{join_path, join_path_of};
use crate::text::{chars_of, eq_str, starts_with, starts_with_str, trim};
use crate::digest::{digest, digest_form, digest_text};
use crate::paths::{segments, split_segments, texts_view};
use crate::state::append_bytes;
use vstd::utf8::encode_utf8;

verus! {

pub const CAPABILITIES_SCHEMA: &'static str = "pqty.capabilities/v1";

pub const LOCK_SCHEMA: &'static str = "pqty.lock/v1";

pub const ENVIRONMENT_SCHEMA: &'static str = "pqty.env/v1";

pub const TRACE_SCHEMA: &'static str = "pqty.trace/v1";

pub const TRACE_REPORT_SCHEMA: &'static str = "pqty.trace-report/v1";

pub const CONVERGENCE_REPORT_SCHEMA: &'static str = "pqty.convergence-report/v1";

pub const PROGRESS_SCHEMA: &'static str = "pqty.progress/v1";

/// What `pqty capabilities` reports.
#[derive(Debug, Clone)]
pub struct Capabilities {
    pub schema: String,
    pub version: String,
    pub lock_schema: String,
    pub environment_schema: String,
    pub trace_schema: String,
    pub trace_report_schema: String,
    pub convergence_report_schema: String,
    pub progress_schema: String,
}

/// pqty speaks every protocol texe consumes and names its version.
pub open spec fn compatible(c: Capabilities) -> bool {
    &&& c.schema@ == CAPABILITIES_SCHEMA@
    &&& c.lock_schema@ == LOCK_SCHEMA@
    &&& c.environment_schema@ == ENVIRONMENT_SCHEMA@
    &&& c.trace_schema@ == TRACE_SCHEMA@
    &&& c.trace_report_schema@ == TRACE_REPORT_SCHEMA@
    &&& c.convergence_report_schema@ == CONVERGENCE_REPORT_SCHEMA@
    &&& c.progress_schema@ == PROGRESS_SCHEMA@
    &&& trim(c.version@).len() > 0
}

pub open spec fn incompatible_message(manager: Seq<char>) -> Seq<char> {
    "incompatible pqty protocol from "@ + manager
        + ": expected pqty.capabilities/v1 with pqty.lock/v1, pqty.env/v1, pqty.trace/v1, pqty.trace-report/v1, pqty.convergence-report/v1, and pqty.progress/v1"@
}

impl Capabilities {
    pub fn validate(&self, manager: &str) -> (r: Result<(), TexeError>)
        ensures
            compatible(*self) ==> r is Ok,
            !compatible(*self) ==> (r matches Err(TexeError::Build(m)) && m@ == incompatible_message(manager@)),
    {
        if eq_str(&chars_of(self.schema.as_str()), CAPABILITIES_SCHEMA)
            && eq_str(&chars_of(self.lock_schema.as_str()), LOCK_SCHEMA)
            && eq_str(&chars_of(self.environment_schema.as_str()), ENVIRONMENT_SCHEMA)
            && eq_str(&chars_of(self.trace_schema.as_str()), TRACE_SCHEMA)
            && eq_str(&chars_of(self.trace_report_schema.as_str()), TRACE_REPORT_SCHEMA)
            && eq_str(&chars_of(self.convergence_report_schema.as_str()), CONVERGENCE_REPORT_SCHEMA)
            && eq_str(&chars_of(self.progress_schema.as_str()), PROGRESS_SCHEMA)
            && !crate::config::is_blank(&self.version) {
            return Ok(());
        }
        let mut m = String::from_str("incompatible pqty protocol from ");
        m.append(manager);
        m.append(
            ": expected pqty.capabilities/v1 with pqty.lock/v1, pqty.env/v1, pqty.trace/v1, pqty.trace-report/v1, pqty.convergence-report/v1, and pqty.progress/v1",
        );
        Err(TexeError::Build(m))
    }
}

/// The input roots pqty searches: the TeX roots, then the bibliography
/// roots, each path once, in first-seen order.
pub open spec fn unique_roots(roots: Seq<Seq<char>>, n: int) -> Seq<Seq<char>>
    decreases n,
{
    if n <= 0 || n > roots.len() {
        Seq::empty()
    } else if exists|j: int| 0 <= j < unique_roots(roots, n - 1).len() && same_path(
        #[trigger] unique_roots(roots, n - 1)[j],
        roots[n - 1],
    ) {
        unique_roots(roots, n - 1)
    } else {
        unique_roots(roots, n - 1).push(roots[n - 1])
    }
}

pub open spec fn all_roots(m: ProjectManifest) -> Seq<Seq<char>> {
    strings_view(m.inputs.roots@) + strings_view(m.bibliography.roots@)
}

pub fn package_input_roots(manifest: &ProjectManifest) -> (r: Vec<String>)
    ensures
        strings_view(r@) == unique_roots(all_roots(*manifest), all_roots(*manifest).len() as int),
{
    let mut all: Vec<String> = manifest.inputs.roots.clone();
    let mut k: usize = 0;
    assert(strings_view(all@) =~= strings_view(manifest.inputs.roots@) + strings_view(manifest.bibliography.roots@).subrange(0, 0));
    while k < manifest.bibliography.roots.len()
        invariant
            k <= manifest.bibliography.roots.len(),
            strings_view(all@) == strings_view(manifest.inputs.roots@) + strings_view(manifest.bibliography.roots@).subrange(0, k as int),
        decreases manifest.bibliography.roots.len() - k,
    {
        let ghost before = strings_view(all@);
        all.push(manifest.bibliography.roots[k].clone());
        assert(strings_view(all@) == before.push(manifest.bibliography.roots@[k as int]@));
        assert(strings_view(manifest.bibliography.roots@).subrange(0, k + 1) == strings_view(manifest.bibliography.roots@).subrange(0, k as int).push(manifest.bibliography.roots@[k as int]@));
        k += 1;
    }
    assert(strings_view(manifest.bibliography.roots@).subrange(0, manifest.bibliography.roots@.len() as int) == strings_view(manifest.bibliography.roots@));
    let ghost av = strings_view(all@);
    let mut roots: Vec<String> = Vec::new();
    let mut i: usize = 0;
    while i < all.len()
        invariant
            i <= all.len(),
            av == strings_view(all@),
            strings_view(roots@) == unique_roots(av, i as int),
        decreases all.len() - i,
    {
        let mut seen = false;
        let mut j: usize = 0;
        while j < roots.len()
            invariant
                j <= roots.len(),
                i < all.len(),
                av == strings_view(all@),
                strings_view(roots@) == unique_roots(av, i as int),
                seen == exists|q: int| 0 <= q < j && same_path(#[trigger] unique_roots(av, i as int)[q], av[i as int]),
            decreases roots.len() - j,
        {
            assert(strings_view(roots@)[j as int] == roots@[j as int]@);
            assert(av[i as int] == all@[i as int]@);
            if paths_equal(roots[j].as_str(), all[i].as_str()) {
                seen = true;
            }
            j += 1;
        }
        if !seen {
            let ghost before = strings_view(roots@);
            roots.push(all[i].clone());
            assert(strings_view(roots@) == before.push(all@[i as int]@));
        }
        i += 1;
    }
    roots
}

/// The arguments every project-scoped pqty command starts with.
pub open spec fn project_argument_list(command: Seq<char>, root: Seq<char>, entry: Seq<char>, roots: Seq<Seq<char>>) -> Seq<Seq<char>> {
    seq!["--no-config"@, "--progress"@, "json"@, "--project-root"@, root] + roots.map_values(|r: Seq<char>| seq!["--input-root"@, r]).flatten()
        + seq![command, entry]
}

/// The arguments of a project-scoped pqty command: the entry made relative
/// to the project, which it must lie in.
pub fn project_arguments(command: &str, project_root: &str, entry: &str, input_roots: &Vec<String>) -> (r: Result<Vec<String>, TexeError>)
    ensures
        match strip_path_prefix(entry@, project_root@) {
            None => r matches Err(TexeError::Build(m)) && m@ == "project entry "@ + entry@ + " is outside "@ + project_root@,
            Some(rel) => r matches Ok(a) && strings_view(a@) == project_argument_list(command@, project_root@, rel, strings_view(input_roots@)),
        },
{
    let relative = match strip_path_prefix_of(entry, project_root) {
        Some(rel) => rel,
        None => {
            let mut m = String::from_str("project entry ");
            m.append(entry);
            m.append(" is outside ");
            m.append(project_root);
            return Err(TexeError::Build(m));
        },
    };
    let mut arguments = vec![
        String::from_str("--no-config"),
        String::from_str("--progress"),
        String::from_str("json"),
        String::from_str("--project-root"),
        String::from_str(project_root),
    ];
    let ghost head = strings_view(arguments@);
    assert(head =~= seq!["--no-config"@, "--progress"@, "json"@, "--project-root"@, project_root@]);
    let ghost rv = strings_view(input_roots@);
    let mut i: usize = 0;
    assert(rv.subrange(0, 0).map_values(|r: Seq<char>| seq!["--input-root"@, r]).flatten() =~= Seq::<Seq<char>>::empty());
    assert(strings_view(arguments@) =~= head + rv.subrange(0, 0).map_values(|r: Seq<char>| seq!["--input-root"@, r]).flatten());
    while i < input_roots.len()
        invariant
            i <= input_roots.len(),
            rv == strings_view(input_roots@),
            strings_view(arguments@) == head + rv.subrange(0, i as int).map_values(|r: Seq<char>| seq!["--input-root"@, r]).flatten(),
        decreases input_roots.len() - i,
    {
        let ghost before = strings_view(arguments@);
        arguments.push(String::from_str("--input-root"));
        arguments.push(input_roots[i].clone());
        proof {
            let f = |r: Seq<char>| seq!["--input-root"@, r];
            let a = rv.subrange(0, i as int);
            let b = rv.subrange(0, i + 1);
            assert(b == a.push(rv[i as int]));
            assert(b.map_values(f) == a.map_values(f).push(f(rv[i as int])));
            a.map_values(f).lemma_flatten_push(f(rv[i as int]));
            assert(rv[i as int] == input_roots@[i as int]@);
            assert(strings_view(arguments@) =~= before + seq!["--input-root"@, rv[i as int]]);
        }
        i += 1;
    }
    let ghost middle = strings_view(arguments@);
    let c = String::from_str(command);
    arguments.push(c);
    let ghost rel = relative@;
    arguments.push(relative);
    assert(strings_view(arguments@) =~= middle + seq![command@, rel]);
    assert(rv.subrange(0, rv.len() as int) == rv);
    assert(strings_view(arguments@) =~= project_argument_list(command@, project_root@, strip_path_prefix(entry@, project_root@)->0, rv));
    Ok(arguments)
}

/// An unresolved runtime input that pqty reports, as its JSON gives it.
#[derive(Debug, Clone)]
pub struct UnresolvedInput {
    pub requested: Option<String>,
    pub reason: Option<String>,
}

pub open spec fn unresolved_detail(u: UnresolvedInput) -> Option<Seq<char>> {
    match u.requested {
        None => None,
        Some(r) => Some(r@ + " ("@ + match u.reason {
            Some(x) => x@,
            None => "unknown"@,
        } + ")"@),
    }
}

/// The details of the first `n` inputs that name what they requested.
pub open spec fn unresolved_details(us: Seq<UnresolvedInput>, n: int) -> Seq<Seq<char>>
    decreases n,
{
    if n <= 0 || n > us.len() {
        Seq::empty()
    } else {
        match unresolved_detail(us[n - 1]) {
            Some(d) => unresolved_details(us, n - 1).push(d),
            None => unresolved_details(us, n - 1),
        }
    }
}

/// The summary a failed runtime convergence prints: the first eight
/// unresolved inputs and how many more there are.
pub open spec fn unresolved_summary(us: Seq<UnresolvedInput>) -> Seq<char> {
    let shown = if us.len() < 8 { us.len() as int } else { 8 };
    let details = unresolved_details(us, shown);
    if details.len() == 0 {
        Seq::empty()
    } else {
        ": "@ + crate::diagnostics::join_with(details, ", "@) + if us.len() == details.len() {
            Seq::empty()
        } else {
            ", and "@ + crate::numbers::decimal((us.len() - details.len()) as nat) + " more"@
        }
    }
}

pub proof fn lemma_details_len(us: Seq<UnresolvedInput>, n: int)
    requires
        0 <= n <= us.len(),
    ensures
        unresolved_details(us, n).len() <= n,
    decreases n,
{
    if n > 0 {
        lemma_details_len(us, n - 1);
    }
}

pub fn unresolved_runtime_input_summary(unresolved: &Vec<UnresolvedInput>) -> (r: String)
    ensures
        r@ == unresolved_summary(unresolved@),
{
    let shown = if unresolved.len() < 8 { unresolved.len() } else { 8 };
    let mut details: Vec<String> = Vec::new();
    let mut i: usize = 0;
    while i < shown
        invariant
            i <= shown <= unresolved.len(),
            shown == (if unresolved@.len() < 8 { unresolved@.len() as int } else { 8 }),
            strings_view(details@) == unresolved_details(unresolved@, i as int),
        decreases shown - i,
    {
        if let Some(requested) = &unresolved[i].requested {
            let mut d = requested.clone();
            d.append(" (");
            match &unresolved[i].reason {
                Some(x) => d.append(x.as_str()),
                None => d.append("unknown"),
            }
            d.append(")");
            let ghost before = strings_view(details@);
            details.push(d);
            assert(strings_view(details@) == before.push(d@));
        }
        i += 1;
    }
    if details.len() == 0 {
        proof {
            reveal_strlit("");
        }
        return String::new();
    }
    proof {
        lemma_details_len(unresolved@, shown as int);
    }
    let mut r = String::from_str(": ");
    let mut k: usize = 0;
    let ghost dv = strings_view(details@);
    while k < details.len()
        invariant
            k <= details.len(),
            dv == strings_view(details@),
            r@ == ": "@ + crate::diagnostics::join_with(dv.subrange(0, k as int), ", "@),
        decreases details.len() - k,
    {
        proof {
            let t = dv.subrange(0, k + 1);
            assert(t.drop_last() == dv.subrange(0, k as int));
            assert(t.last() == details@[k as int]@);
            if k == 0 {
                assert(t.len() == 1 && t[0] == details@[0]@);
            }
        }
        if k > 0 {
            r.append(", ");
        }
        r.append(details[k].as_str());
        k += 1;
    }
    assert(dv.subrange(0, dv.len() as int) == dv);
    let remainder = unresolved.len() - details.len();
    if remainder > 0 {
        r.append(", and ");
        crate::numbers::push_decimal(&mut r, remainder as u64);
        r.append(" more");
    } else {
        proof {
            reveal_strlit("");
        }
    }
    r
}

/// How texe reaches pqty for a project.
#[derive(Debug, Clone)]
pub struct PqtyClient {
    pub manager: String,
    pub trace_adapter: String,
    pub fingerprint: String,
    pub offline: bool,
    pub cache_home: String,
}

/// The managed provider uses only the pqty bundled with texe, unless the
/// manifest overrides its commands.
pub open spec fn bundled_required(m: ProjectManifest) -> bool {
    m.toolchain.provider@ == "managed"@ && !unmanaged(m)
}

pub fn requires_bundled_suite(manifest: &ProjectManifest) -> (r: bool)
    ensures
        r == bundled_required(*manifest),
{
    eq_str(&chars_of(manifest.toolchain.provider.as_str()), "managed") && !manifest.uses_unmanaged_commands()
}

impl PqtyClient {
    /// The client for the command suite: each executable is the one beside
    /// the texe executable where there is one; else, where the managed
    /// toolchain requires the bundled suite, resolution fails with
    /// [`suite_missing_message`]; else the one found on the host. pqty's
    /// capabilities are then checked against the protocols texe consumes,
    /// and the client's fingerprint is that of the suite: the capabilities
    /// as pqty reported them (JSON), and each executable's identity (its
    /// canonical path) and contents.
    pub fn resolve(
        manager: &SuiteExecutable,
        trace_adapter: &SuiteExecutable,
        require_bundled: bool,
        capabilities: &Capabilities,
        capabilities_json: &[u8],
        offline: bool,
        cache_home: String,
    ) -> (r: Result<PqtyClient, TexeError>)
        ensures
            match suite_path_of(*manager, require_bundled) {
                Err(m) => r matches Err(TexeError::ToolNotFound(x)) && x@ == m,
                Ok(mp) => match suite_path_of(*trace_adapter, require_bundled) {
                    Err(m) => r matches Err(TexeError::ToolNotFound(x)) && x@ == m,
                    Ok(ap) => if compatible(*capabilities) {
                        r matches Ok(c) && c.manager@ == mp && c.trace_adapter@ == ap && c.offline == offline
                            && c.cache_home@ == cache_home@ && c.fingerprint@ == digest_text(
                            suite_input(
                                capabilities_json@,
                                manager.identity@,
                                manager.bytes@,
                                trace_adapter.identity@,
                                trace_adapter.bytes@,
                            ),
                        ) && digest_form(c.fingerprint@)
                    } else {
                        r matches Err(TexeError::Build(m)) && m@ == incompatible_message(mp)
                    },
                },
            },
    {
        let manager_path = suite_path(manager, require_bundled)?;
        let adapter_path = suite_path(trace_adapter, require_bundled)?;
        capabilities.validate(manager_path.as_str())?;
        let fingerprint = command_suite_fingerprint(
            capabilities_json,
            manager.identity.as_slice(),
            manager.bytes.as_slice(),
            trace_adapter.identity.as_slice(),
            trace_adapter.bytes.as_slice(),
        );
        Ok(PqtyClient { manager: manager_path, trace_adapter: adapter_path, fingerprint, offline, cache_home })
    }

    pub fn fingerprint(&self) -> (r: &String)
        ensures
            r@ == self.fingerprint@,
    {
        &self.fingerprint
    }

    /// Offline clients pass `--offline` first, once.
    pub fn append_offline(&self, arguments: &mut Vec<String>)
        ensures
            (self.offline && !strings_view(old(arguments)@).contains("--offline"@)) ==> strings_view(final(arguments)@)
                == seq!["--offline"@] + strings_view(old(arguments)@),
            !(self.offline && !strings_view(old(arguments)@).contains("--offline"@)) ==> final(arguments)@ == old(arguments)@,
    {
        if !self.offline {
            return;
        }
        let mut i: usize = 0;
        while i < arguments.len()
            invariant
                i <= arguments.len(),
                forall|j: int| 0 <= j < i ==> strings_view(arguments@)[j] != "--offline"@,
            decreases arguments.len() - i,
        {
            assert(strings_view(arguments@)[i as int] == arguments@[i as int]@);
            if eq_str(&chars_of(arguments[i].as_str()), "--offline") {
                assert(strings_view(arguments@)[i as int] == "--offline"@);
                return;
            }
            i += 1;
        }
        let ghost before = strings_view(arguments@);
        arguments.insert(0, String::from_str("--offline"));
        assert(strings_view(arguments@) =~= seq!["--offline"@] + before);
    }
}

/// `Path::join`: an absolute path replaces the root.
pub open spec fn path_join(root: Seq<char>, p: Seq<char>) -> Seq<char> {
    if p.len() > 0 && p[0] == '/' {
        p
    } else {
        join_path(root, p)
    }
}

fn path_join_of(root: &str, p: &str) -> (r: String)
    ensures
        r@ == path_join(root@, p@),
{
    let c = chars_of(p);
    if c.len() > 0 && c[0] == '/' {
        String::from_str(p)
    } else {
        join_path_of(root, p)
    }
}

/// `flag value` for each value, in order.
pub open spec fn flag_arguments(flag: Seq<char>, values: Seq<Seq<char>>) -> Seq<Seq<char>> {
    values.map_values(|v: Seq<char>| seq![flag, v]).flatten()
}

/// A shared package store, resolved against the project.
pub open spec fn store_arguments(root: Seq<char>, m: ProjectManifest) -> Seq<Seq<char>> {
    match m.packages.store {
        Some(store) => seq!["--store"@, path_join(root, store@)],
        None => Seq::empty(),
    }
}

/// A managed registry reached over plain HTTP must be allowed explicitly.
pub open spec fn transport_arguments(t: ResolvedToolchain) -> Seq<Seq<char>> {
    match t.managed {
        Some(r) => if starts_with(r.registry_url@, "http://"@) {
            seq!["--allow-insecure-registry"@]
        } else {
            Seq::empty()
        },
        None => Seq::empty(),
    }
}

/// Where a new lock resolves from: the managed runtime's registry with its
/// bootstrap providers, or for a system toolchain with remote packages the
/// latest registry with the providers of the engine's locked format.
pub open spec fn registry_arguments(t: ResolvedToolchain, m: ProjectManifest, format_providers: Seq<Seq<char>>) -> Seq<Seq<char>> {
    match t.managed {
        Some(r) => seq!["--tlpdb-url"@, r.registry_url@, "--tlpdb-sha256"@, r.registry_metadata_sha256@] + flag_arguments(
            "--require-provider"@,
            strings_view(r.bootstrap_providers@),
        ),
        None => if m.packages.remote {
            seq!["--remote"@, "latest"@] + flag_arguments("--require-provider"@, format_providers)
        } else {
            Seq::empty()
        },
    }
}

/// An offline client's arguments start with `--offline`, once.
pub open spec fn with_offline(offline: bool, args: Seq<Seq<char>>) -> Seq<Seq<char>> {
    if offline && !args.contains("--offline"@) {
        seq!["--offline"@] + args
    } else {
        args
    }
}

fn push_text(v: &mut Vec<String>, s: &str)
    ensures
        strings_view(final(v)@) == strings_view(old(v)@).push(s@),
{
    let ghost before = strings_view(v@);
    v.push(String::from_str(s));
    assert(strings_view(v@) =~= before.push(s@));
}

fn push_flags(v: &mut Vec<String>, flag: &str, values: &Vec<String>)
    ensures
        strings_view(final(v)@) == strings_view(old(v)@) + flag_arguments(flag@, strings_view(values@)),
{
    let ghost start = strings_view(v@);
    let ghost vv = strings_view(values@);
    let mut i: usize = 0;
    assert(vv.subrange(0, 0).map_values(|x: Seq<char>| seq![flag@, x]).flatten() =~= Seq::<Seq<char>>::empty());
    assert(strings_view(v@) =~= start + flag_arguments(flag@, vv.subrange(0, 0)));
    while i < values.len()
        invariant
            i <= values.len(),
            vv == strings_view(values@),
            strings_view(v@) == start + flag_arguments(flag@, vv.subrange(0, i as int)),
        decreases values.len() - i,
    {
        push_text(v, flag);
        push_text(v, values[i].as_str());
        proof {
            let f = |x: Seq<char>| seq![flag@, x];
            let a = vv.subrange(0, i as int);
            let b = vv.subrange(0, i + 1);
            assert(b =~= a.push(vv[i as int]));
            assert(b.map_values(f) =~= a.map_values(f).push(f(vv[i as int])));
            a.map_values(f).lemma_flatten_push(f(vv[i as int]));
            assert(values@[i as int]@ == vv[i as int]);
            assert(strings_view(v@) =~= start + flag_arguments(flag@, b));
        }
        i += 1;
    }
    assert(vv.subrange(0, vv.len() as int) =~= vv);
}

fn push_store(v: &mut Vec<String>, project_root: &str, manifest: &ProjectManifest)
    ensures
        strings_view(final(v)@) == strings_view(old(v)@) + store_arguments(project_root@, *manifest),
{
    match &manifest.packages.store {
        Some(store) => {
            push_text(v, "--store");
            push_text(v, path_join_of(project_root, store.as_str()).as_str());
        },
        None => {
            assert(strings_view(v@) + Seq::<Seq<char>>::empty() =~= strings_view(v@));
        },
    }
}

fn push_transport(v: &mut Vec<String>, toolchain: &ResolvedToolchain)
    ensures
        strings_view(final(v)@) == strings_view(old(v)@) + transport_arguments(*toolchain),
{
    let insecure = match &toolchain.managed {
        Some(r) => starts_with_str(&chars_of(r.registry_url.as_str()), "http://"),
        None => false,
    };
    if insecure {
        push_text(v, "--allow-insecure-registry");
    } else {
        assert(strings_view(v@) + Seq::<Seq<char>>::empty() =~= strings_view(v@));
    }
}

fn push_registry(v: &mut Vec<String>, toolchain: &ResolvedToolchain, manifest: &ProjectManifest, format_providers: &Vec<String>)
    ensures
        strings_view(final(v)@) == strings_view(old(v)@) + registry_arguments(*toolchain, *manifest, strings_view(format_providers@)),
{
    let ghost start = strings_view(v@);
    match &toolchain.managed {
        Some(r) => {
            push_text(v, "--tlpdb-url");
            push_text(v, r.registry_url.as_str());
            push_text(v, "--tlpdb-sha256");
            push_text(v, r.registry_metadata_sha256.as_str());
            push_flags(v, "--require-provider", &r.bootstrap_providers);
        },
        None => {
            if manifest.packages.remote {
                push_text(v, "--remote");
                push_text(v, "latest");
                push_flags(v, "--require-provider", format_providers);
            } else {
                assert(strings_view(v@) + Seq::<Seq<char>>::empty() =~= strings_view(v@));
            }
        },
    }
}

/// Whether pqty converged on the packages the last run asked for.
#[derive(Debug, Clone, Copy, PartialEq, Eq, Structural)]
pub enum Convergence {
    Stable,
    Changed,
}

/// What `pqty converge` reports.
#[derive(Debug, Clone)]
pub struct ConvergenceReport {
    pub schema: String,
    pub status: String,
    pub unresolved: Vec<UnresolvedInput>,
}

/// A frozen build never creates a lock: it needs one that exists.
pub fn frozen_lock(lock: &str, exists: bool) -> (r: Result<(), TexeError>)
    ensures
        exists ==> r is Ok,
        !exists ==> (r matches Err(TexeError::Build(m)) && m@ == "--frozen requires an existing lock: "@ + lock@),
{
    if exists {
        Ok(())
    } else {
        let mut m = String::from_str("--frozen requires an existing lock: ");
        m.append(lock);
        Err(TexeError::Build(m))
    }
}

pub open spec fn context_message(error: TexeError, context: Seq<char>) -> Option<(Seq<char>, Option<i32>, Seq<char>)> {
    match error {
        TexeError::Process { tool, status, stderr } => Some(
            (
                tool@,
                status,
                if stderr@.len() == 0 {
                    context
                } else {
                    context + ": "@ + stderr@
                },
            ),
        ),
        _ => None,
    }
}

/// `error` said in the context of what texe was doing: a process failure
/// keeps its tool and status and leads its output with the context, any
/// other error becomes a build error that leads with it.
pub fn with_context(error: TexeError, context: &str) -> (r: TexeError)
    ensures
        match context_message(error, context@) {
            Some((tool, status, stderr)) => r matches TexeError::Process { tool: t, status: s, stderr: e } && t@
                == tool && s == status && e@ == stderr,
            None => r matches TexeError::Build(m) && m@ == context@ + ": "@ + crate::error::message_of(&error),
        },
{
    match error {
        TexeError::Process { tool, status, stderr } => {
            let message = if chars_of(stderr.as_str()).len() == 0 {
                String::from_str(context)
            } else {
                let mut m = String::from_str(context);
                m.append(": ");
                m.append(stderr.as_str());
                m
            };
            TexeError::Process { tool, status, stderr: message }
        },
        other => {
            let mut m = String::from_str(context);
            m.append(": ");
            m.append(other.message().as_str());
            TexeError::Build(m)
        },
    }
}

impl PqtyClient {
    /// The environment of every pqty process: texe's data home as the cache
    /// home, so pqty's cache lives in texe's own storage.
    pub fn process_environment(&self) -> (r: Vec<(String, String)>)
        ensures
            r@.len() == 1,
            r@[0].0@ == "XDG_CACHE_HOME"@,
            r@[0].1@ == self.cache_home@,
    {
        vec![(String::from_str("XDG_CACHE_HOME"), String::from_str(self.cache_home.as_str()))]
    }

    /// `pqty lock`: a new lock for the entry, resolved from the registry the
    /// toolchain asks for.
    pub fn lock_arguments(
        &self,
        project_root: &str,
        manifest: &ProjectManifest,
        toolchain: &ResolvedToolchain,
        entry: &str,
        lock: &str,
        format_providers: &Vec<String>,
    ) -> (r: Result<Vec<String>, TexeError>)
        ensures
            match strip_path_prefix(entry@, project_root@) {
                None => r matches Err(TexeError::Build(m)) && m@ == "project entry "@ + entry@ + " is outside "@
                    + project_root@,
                Some(rel) => r matches Ok(a) && strings_view(a@) == with_offline(
                    self.offline,
                    project_argument_list(
                        "lock"@,
                        project_root@,
                        rel,
                        unique_roots(all_roots(*manifest), all_roots(*manifest).len() as int),
                    ) + seq!["--output"@, lock@] + registry_arguments(*toolchain, *manifest, strings_view(format_providers@))
                        + transport_arguments(*toolchain) + store_arguments(project_root@, *manifest),
                ),
            },
    {
        let roots = package_input_roots(manifest);
        let mut arguments = project_arguments("lock", project_root, entry, &roots)?;
        let ghost head = strings_view(arguments@);
        push_text(&mut arguments, "--output");
        push_text(&mut arguments, lock);
        assert(strings_view(arguments@) =~= head + seq!["--output"@, lock@]);
        push_registry(&mut arguments, toolchain, manifest, format_providers);
        push_transport(&mut arguments, toolchain);
        push_store(&mut arguments, project_root, manifest);
        self.append_offline(&mut arguments);
        Ok(arguments)
    }

    /// `pqty install`: the locked packages into the project's tree.
    pub fn install_arguments(
        &self,
        project_root: &str,
        manifest: &ProjectManifest,
        toolchain: &ResolvedToolchain,
        lock: &str,
        texmf: &str,
    ) -> (r: Vec<String>)
        ensures
            strings_view(r@) == with_offline(
                self.offline,
                seq![
                    "--no-config"@,
                    "--progress"@,
                    "json"@,
                    "install"@,
                    "--lock"@,
                    lock@,
                    "--out"@,
                    texmf@,
                    "--link"@,
                    manifest.packages.link@,
                ] + transport_arguments(*toolchain) + store_arguments(project_root@, *manifest),
            ),
    {
        let mut arguments: Vec<String> = Vec::new();
        push_text(&mut arguments, "--no-config");
        push_text(&mut arguments, "--progress");
        push_text(&mut arguments, "json");
        push_text(&mut arguments, "install");
        push_text(&mut arguments, "--lock");
        push_text(&mut arguments, lock);
        push_text(&mut arguments, "--out");
        push_text(&mut arguments, texmf);
        push_text(&mut arguments, "--link");
        push_text(&mut arguments, manifest.packages.link.as_str());
        assert(strings_view(arguments@) =~= seq![
            "--no-config"@,
            "--progress"@,
            "json"@,
            "install"@,
            "--lock"@,
            lock@,
            "--out"@,
            texmf@,
            "--link"@,
            manifest.packages.link@,
        ]);
        push_transport(&mut arguments, toolchain);
        push_store(&mut arguments, project_root, manifest);
        self.append_offline(&mut arguments);
        arguments
    }

    /// `pqty env`: the environment a lock gives the engine.
    pub fn environment_arguments(&self, lock: &str) -> (r: Vec<String>)
        ensures
            strings_view(r@) == with_offline(self.offline, seq!["--no-config"@, "env"@, "--lock"@, lock@]),
    {
        let mut arguments: Vec<String> = Vec::new();
        push_text(&mut arguments, "--no-config");
        push_text(&mut arguments, "env");
        push_text(&mut arguments, "--lock");
        push_text(&mut arguments, lock);
        assert(strings_view(arguments@) =~= seq!["--no-config"@, "env"@, "--lock"@, lock@]);
        self.append_offline(&mut arguments);
        arguments
    }

    /// `pqty check-trace`: a frozen build only checks that the lock covers
    /// what the engine read.
    pub fn check_trace_arguments(&self, lock: &str, trace: &str) -> (r: Vec<String>)
        ensures
            strings_view(r@) == with_offline(
                self.offline,
                seq!["--no-config"@, "check-trace"@, "--lock"@, lock@, "--trace"@, trace@],
            ),
    {
        let mut arguments: Vec<String> = Vec::new();
        push_text(&mut arguments, "--no-config");
        push_text(&mut arguments, "check-trace");
        push_text(&mut arguments, "--lock");
        push_text(&mut arguments, lock);
        push_text(&mut arguments, "--trace");
        push_text(&mut arguments, trace);
        assert(strings_view(arguments@) =~= seq!["--no-config"@, "check-trace"@, "--lock"@, lock@, "--trace"@, trace@]);
        self.append_offline(&mut arguments);
        arguments
    }

    /// `pqty converge`: the lock brought up to what the engine read.
    pub fn converge_arguments(
        &self,
        project_root: &str,
        manifest: &ProjectManifest,
        toolchain: &ResolvedToolchain,
        lock: &str,
        trace: &str,
    ) -> (r: Vec<String>)
        ensures
            strings_view(r@) == with_offline(
                self.offline,
                seq!["--no-config"@, "--progress"@, "json"@, "converge"@, "--lock"@, lock@, "--trace"@, trace@]
                    + transport_arguments(*toolchain) + store_arguments(project_root@, *manifest),
            ),
    {
        let mut arguments: Vec<String> = Vec::new();
        push_text(&mut arguments, "--no-config");
        push_text(&mut arguments, "--progress");
        push_text(&mut arguments, "json");
        push_text(&mut arguments, "converge");
        push_text(&mut arguments, "--lock");
        push_text(&mut arguments, lock);
        push_text(&mut arguments, "--trace");
        push_text(&mut arguments, trace);
        assert(strings_view(arguments@) =~= seq![
            "--no-config"@,
            "--progress"@,
            "json"@,
            "converge"@,
            "--lock"@,
            lock@,
            "--trace"@,
            trace@,
        ]);
        push_transport(&mut arguments, toolchain);
        push_store(&mut arguments, project_root, manifest);
        self.append_offline(&mut arguments);
        arguments
    }

    /// `pqty require`: the runtime providers added to the lock; nothing to
    /// run when there are none.
    pub fn require_arguments(
        &self,
        project_root: &str,
        manifest: &ProjectManifest,
        toolchain: &ResolvedToolchain,
        lock: &str,
        providers: &Vec<String>,
    ) -> (r: Option<Vec<String>>)
        ensures
            providers@.len() == 0 ==> r is None,
            providers@.len() > 0 ==> (r matches Some(a) && strings_view(a@) == with_offline(
                self.offline,
                seq!["--no-config"@, "--progress"@, "json"@, "require"@, "--lock"@, lock@] + flag_arguments(
                    "--provider"@,
                    strings_view(providers@),
                ) + transport_arguments(*toolchain) + store_arguments(project_root@, *manifest),
            )),
    {
        if providers.len() == 0 {
            return None;
        }
        let mut arguments: Vec<String> = Vec::new();
        push_text(&mut arguments, "--no-config");
        push_text(&mut arguments, "--progress");
        push_text(&mut arguments, "json");
        push_text(&mut arguments, "require");
        push_text(&mut arguments, "--lock");
        push_text(&mut arguments, lock);
        assert(strings_view(arguments@) =~= seq!["--no-config"@, "--progress"@, "json"@, "require"@, "--lock"@, lock@]);
        push_flags(&mut arguments, "--provider", providers);
        push_transport(&mut arguments, toolchain);
        push_store(&mut arguments, project_root, manifest);
        self.append_offline(&mut arguments);
        Some(arguments)
    }

    /// The error of a pqty process that did not succeed: its status and its
    /// standard error, trimmed.
    pub fn process_failure(&self, status: Option<i32>, stderr: &[u8]) -> (r: TexeError)
        ensures
            r matches TexeError::Process { tool, status: s, stderr: e } && tool@ == self.manager@ && s == status && e@
                == trim(utf8_lossy(stderr@)),
    {
        let text = lossy_text(stderr);
        TexeError::Process {
            tool: String::from_str(self.manager.as_str()),
            status,
            stderr: crate::buildlog::trimmed_text(&text),
        }
    }

    /// What a `pqty converge` run comes to: its report read from standard
    /// output (or why it could not be read), whether the process
    /// succeeded, its status and its standard error.
    pub fn convergence_outcome(
        &self,
        trace: &str,
        report: Result<ConvergenceReport, String>,
        success: bool,
        status: Option<i32>,
        stderr: &[u8],
    ) -> (r: Result<Convergence, TexeError>)
        ensures
            match report {
                Err(message) => if success {
                    r matches Err(TexeError::Json { path, message: m }) && path@ == trace@ && m@ == message@
                } else {
                    r matches Err(TexeError::Process { tool, status: s, stderr: e }) && tool@ == self.manager@ && s
                        == status && e@ == trim(utf8_lossy(stderr@))
                },
                Ok(rep) => if rep.schema@ != CONVERGENCE_REPORT_SCHEMA@ {
                    r matches Err(TexeError::Build(m)) && m@ == "pqty emitted convergence schema "@ + rep.schema@
                } else if rep.status@ == "stable"@ && success {
                    r == Ok::<Convergence, TexeError>(Convergence::Stable)
                } else if rep.status@ == "changed"@ && success {
                    r == Ok::<Convergence, TexeError>(Convergence::Changed)
                } else if rep.status@ == "unresolved"@ {
                    r matches Err(TexeError::Build(m)) && m@ == "pqty could not resolve "@ + decimal(
                        rep.unresolved@.len() as nat,
                    ) + " runtime package input(s)"@ + unresolved_summary(rep.unresolved@)
                } else {
                    r matches Err(TexeError::Process { tool, status: s, stderr: e }) && tool@ == self.manager@ && s
                        == status && e@ == "unexpected convergence status "@ + rep.status@ + "; "@ + trim(
                        utf8_lossy(stderr@),
                    )
                },
            },
    {
        let rep = match report {
            Err(message) => {
                if success {
                    return Err(TexeError::Json { path: String::from_str(trace), message });
                } else {
                    return Err(self.process_failure(status, stderr));
                }
            },
            Ok(rep) => rep,
        };
        let status_text = chars_of(rep.status.as_str());
        if !eq_str(&chars_of(rep.schema.as_str()), CONVERGENCE_REPORT_SCHEMA) {
            let mut m = String::from_str("pqty emitted convergence schema ");
            m.append(rep.schema.as_str());
            return Err(TexeError::Build(m));
        }
        if eq_str(&status_text, "stable") && success {
            return Ok(Convergence::Stable);
        }
        if eq_str(&status_text, "changed") && success {
            return Ok(Convergence::Changed);
        }
        if eq_str(&status_text, "unresolved") {
            let mut m = String::from_str("pqty could not resolve ");
            push_decimal(&mut m, rep.unresolved.len() as u64);
            m.append(" runtime package input(s)");
            m.append(unresolved_runtime_input_summary(&rep.unresolved).as_str());
            return Err(TexeError::Build(m));
        }
        let text = lossy_text(stderr);
        let mut e = String::from_str("unexpected convergence status ");
        e.append(rep.status.as_str());
        e.append("; ");
        e.append(crate::buildlog::trimmed_text(&text).as_str());
        Err(TexeError::Process { tool: String::from_str(self.manager.as_str()), status, stderr: e })
    }
}

/// An environment pqty reports counts only under the schema texe reads.
pub fn accept_environment_schema(schema: &str) -> (r: Result<(), TexeError>)
    ensures
        schema@ == ENVIRONMENT_SCHEMA@ ==> r is Ok,
        schema@ != ENVIRONMENT_SCHEMA@ ==> (r matches Err(TexeError::Build(m)) && m@ == "pqty emitted environment schema "@
            + schema@ + "; expected pqty.env/v1"@),
{
    if eq_str(&chars_of(schema), ENVIRONMENT_SCHEMA) {
        Ok(())
    } else {
        let mut m = String::from_str("pqty emitted environment schema ");
        m.append(schema);
        m.append("; expected pqty.env/v1");
        Err(TexeError::Build(m))
    }
}

pub const SUITE_FINGERPRINT_TAG: &'static str = "texe.command-suite-fingerprint/v1";

/// An executable as the suite fingerprint hashes it: its identity, a zero
/// byte, its contents and a zero byte.
pub open spec fn executable_record(identity: Seq<u8>, bytes: Seq<u8>) -> Seq<u8> {
    identity + seq![0u8] + bytes + seq![0u8]
}

/// What the command-suite fingerprint hashes: the tag, the capabilities
/// JSON, then the package manager and the trace adapter.
pub open spec fn suite_input(
    capabilities_json: Seq<u8>,
    manager_identity: Seq<u8>,
    manager_bytes: Seq<u8>,
    adapter_identity: Seq<u8>,
    adapter_bytes: Seq<u8>,
) -> Seq<u8> {
    encode_utf8(SUITE_FINGERPRINT_TAG@) + capabilities_json + executable_record(manager_identity, manager_bytes)
        + executable_record(adapter_identity, adapter_bytes)
}

/// The fingerprint of the command suite that a build ran with, in texe's
/// `sha256:<hex>` form.
pub fn command_suite_fingerprint(
    capabilities_json: &[u8],
    manager_identity: &[u8],
    manager_bytes: &[u8],
    adapter_identity: &[u8],
    adapter_bytes: &[u8],
) -> (r: String)
    ensures
        r@ == digest_text(suite_input(capabilities_json@, manager_identity@, manager_bytes@, adapter_identity@, adapter_bytes@)),
        digest_form(r@),
{
    let mut input: Vec<u8> = Vec::new();
    append_bytes(&mut input, SUITE_FINGERPRINT_TAG.as_bytes());
    append_bytes(&mut input, capabilities_json);
    append_bytes(&mut input, manager_identity);
    input.push(0u8);
    append_bytes(&mut input, manager_bytes);
    input.push(0u8);
    append_bytes(&mut input, adapter_identity);
    input.push(0u8);
    append_bytes(&mut input, adapter_bytes);
    input.push(0u8);
    assert(input@ =~= suite_input(capabilities_json@, manager_identity@, manager_bytes@, adapter_identity@, adapter_bytes@));
    digest(input.as_slice())
}

/// The non-empty segments of a path other than `.`.
pub open spec fn normal_segment_count(segs: Seq<Seq<char>>) -> nat
    decreases segs.len(),
{
    if segs.len() == 0 {
        0
    } else {
        normal_segment_count(segs.drop_last()) + if segs.last().len() > 0 && segs.last() != seq!['.'] {
            1nat
        } else {
            0nat
        }
    }
}

/// `Path::components().count()` of a relative Unix path: its non-empty
/// segments other than `.`, and a leading `.`.
pub open spec fn relative_component_count(s: Seq<char>) -> nat {
    normal_segment_count(segments(s)) + if segments(s)[0] == seq!['.'] {
        1nat
    } else {
        0nat
    }
}

/// A bare command name: relative, and a single path component.
pub open spec fn is_bare_command(s: Seq<char>) -> bool {
    !(s.len() > 0 && s[0] == '/') && relative_component_count(s) == 1
}

fn bare_command(command: &str) -> (r: bool)
    ensures
        r == is_bare_command(command@),
{
    let c = chars_of(command);
    if c.len() > 0 && c[0] == '/' {
        return false;
    }
    let segs = split_segments(&c);
    let ghost sv = texts_view(segs@);
    let mut n: usize = 0;
    let mut i: usize = 0;
    while i < segs.len()
        invariant
            i <= segs.len(),
            sv == texts_view(segs@),
            n as nat == normal_segment_count(sv.subrange(0, i as int)),
            n <= i,
        decreases segs.len() - i,
    {
        proof {
            assert(sv.subrange(0, i + 1).drop_last() =~= sv.subrange(0, i as int));
            assert(sv.subrange(0, i + 1).last() == segs@[i as int]@);
        }
        let dot = segs[i].len() == 1 && segs[i][0] == '.';
        assert(dot == (segs@[i as int]@ == seq!['.'])) by {
            if segs@[i as int]@.len() == 1 {
                if segs@[i as int]@[0] == '.' {
                    assert(segs@[i as int]@ =~= seq!['.']);
                }
            }
        }
        if segs[i].len() > 0 && !dot {
            n += 1;
        }
        i += 1;
    }
    assert(sv.subrange(0, sv.len() as int) =~= sv);
    assert(sv[0] == segs@[0]@);
    let leading = segs[0].len() == 1 && segs[0][0] == '.';
    assert(leading == (sv[0] == seq!['.'])) by {
        if segs@[0]@.len() == 1 && segs@[0]@[0] == '.' {
            assert(segs@[0]@ =~= seq!['.']);
        }
    }
    if leading {
        n == 0
    } else {
        n == 1
    }
}

/// Where a suite command is looked for beside the texe executable: the
/// command in the directory of that executable, for a bare command name
/// when the directory is known.
pub open spec fn suite_candidate_of(command: Seq<char>, exe_dir: Option<Seq<char>>) -> Option<Seq<char>> {
    match exe_dir {
        Some(dir) => if is_bare_command(command) {
            Some(join_path(dir, command))
        } else {
            None
        },
        None => None,
    }
}

pub fn suite_candidate(command: &str, exe_dir: Option<&str>) -> (r: Option<String>)
    ensures
        match suite_candidate_of(command@, match exe_dir {
            Some(d) => Some(d@),
            None => None,
        }) {
            Some(c) => r matches Some(p) && p@ == c,
            None => r is None,
        },
{
    match exe_dir {
        Some(dir) => if bare_command(command) {
            Some(join_path_of(dir, command))
        } else {
            None
        },
        None => None,
    }
}

/// What `resolve_suite_executable` reports where the bundled suite is
/// required and the command is not beside texe.
pub open spec fn suite_missing_message(command: Seq<char>) -> Seq<char> {
    command + " beside the texe executable; install the complete texe command suite"@
}

/// The executable of a suite command: the candidate beside the texe
/// executable where it is a file; else, where the managed toolchain
/// requires the bundled suite, an error naming that place; else `None`,
/// and the command is looked up in the project or on `PATH`.
pub fn resolve_suite_executable(
    command: &str,
    candidate: Option<String>,
    candidate_is_file: bool,
    require_bundled: bool,
) -> (r: Result<Option<String>, TexeError>)
    ensures
        candidate is Some && candidate_is_file ==> (r matches Ok(Some(p)) && p@ == candidate->0@),
        !(candidate is Some && candidate_is_file) && require_bundled ==> (r matches Err(TexeError::ToolNotFound(m))
            && m@ == suite_missing_message(command@)),
        !(candidate is Some && candidate_is_file) && !require_bundled ==> r matches Ok(None),
{
    if candidate_is_file {
        if let Some(path) = candidate {
            return Ok(Some(path));
        }
    }
    if require_bundled {
        let mut m = String::from_str(command);
        m.append(" beside the texe executable; install the complete texe command suite");
        return Err(TexeError::ToolNotFound(m));
    }
    Ok(None)
}

/// One executable of the command suite as found: its command, the file
/// beside the texe executable where there is one, the executable found on
/// the host (the project or `PATH`), and the identity (canonical path) and
/// contents of the one that will run.
#[derive(Debug, Clone)]
pub struct SuiteExecutable {
    pub command: String,
    pub beside: Option<String>,
    pub host: String,
    pub identity: Vec<u8>,
    pub bytes: Vec<u8>,
}

/// The executable that runs, or the error where the bundled suite is
/// required and the command is not beside texe.
pub open spec fn suite_path_of(e: SuiteExecutable, require_bundled: bool) -> Result<Seq<char>, Seq<char>> {
    match e.beside {
        Some(p) => Ok(p@),
        None => if require_bundled {
            Err(suite_missing_message(e.command@))
        } else {
            Ok(e.host@)
        },
    }
}

fn suite_path(e: &SuiteExecutable, require_bundled: bool) -> (r: Result<String, TexeError>)
    ensures
        match suite_path_of(*e, require_bundled) {
            Ok(p) => r matches Ok(x) && x@ == p,
            Err(m) => r matches Err(TexeError::ToolNotFound(x)) && x@ == m,
        },
{
    let found = resolve_suite_executable(e.command.as_str(), e.beside.clone(), e.beside.is_some(), require_bundled)?;
    match found {
        Some(p) => Ok(p),
        None => Ok(e.host.clone()),
    }
}

} // verus!
