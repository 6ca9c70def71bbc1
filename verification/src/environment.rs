//! The environment texe hands the TeX engine: the Kpathsea search paths it
//! may read, the trees it may write, and the clocks it observes. Paths are
//! given to the engine as they are spelled here (the Unix spelling, with
//! `:` between the entries of a search path).
use vstd::prelude::*;
use crate::diagnostics::join_with;
use crate::numbers::{decimal, decimal_string};
use crate::order::pairs_view;
use crate::setup::{file_name, join_path, join_path_of, strings_view};
use crate::text::{chars_of, lower_seq, push_char};

verus! {

/// How one root appears in a search path: recursively (`//`), except the
/// working directory itself.
pub open spec fn search_entry(root: Seq<char>) -> Seq<char> {
    if root == "."@ {
        "."@
    } else {
        root + "//"@
    }
}

/// A Kpathsea search path over `roots`, in order.
pub open spec fn search_path(roots: Seq<Seq<char>>) -> Seq<char> {
    join_with(roots.map_values(|r: Seq<char>| search_entry(r)), ":"@)
}

fn search_entry_of(root: &String) -> (r: String)
    ensures
        r@ == search_entry(root@),
{
    let c = chars_of(root.as_str());
    if c.len() == 1 && c[0] == '.' {
        proof {
            assert(root@ =~= "."@) by {
                reveal_strlit(".");
            }
        }
        String::from_str(".")
    } else {
        proof {
            reveal_strlit(".");
            if root@ == "."@ {
                assert(root@.len() == 1 && root@[0] == c[0]);
            }
        }
        let mut r = root.clone();
        r.append("//");
        r
    }
}

/// `search_path_from(roots, working_directory)`: the working directory does
/// not change the Unix spelling.
pub fn search_path_from(roots: &Vec<String>, working_directory: &str) -> (r: String)
    ensures
        r@ == search_path(strings_view(roots@)),
{
    let ghost rv = strings_view(roots@);
    let mut r = String::new();
    let mut i: usize = 0;
    while i < roots.len()
        invariant
            i <= roots.len(),
            rv == strings_view(roots@),
            r@ == join_with(rv.subrange(0, i as int).map_values(|x: Seq<char>| search_entry(x)), ":"@),
        decreases roots.len() - i,
    {
        let entry = search_entry_of(&roots[i]);
        proof {
            let f = |x: Seq<char>| search_entry(x);
            let a = rv.subrange(0, i as int).map_values(f);
            let b = rv.subrange(0, i + 1).map_values(f);
            assert(rv[i as int] == roots@[i as int]@);
            assert(b.drop_last() =~= a);
            assert(b.last() == entry@);
            if i == 0 {
                assert(b.len() == 1 && b[0] == entry@);
            }
        }
        if i > 0 {
            r.append(":");
        }
        r.append(entry.as_str());
        i += 1;
    }
    assert(rv.subrange(0, rv.len() as int) == rv);
    r
}

/// Kpathsea prefers a program-qualified search variable over the generic
/// one, so both are set.
pub open spec fn input_environment(program: Seq<char>, search: Seq<char>) -> Seq<(Seq<char>, Seq<char>)> {
    seq![
        ("TEXINPUTS"@, search),
        ("TEXINPUTS_"@ + program, search),
        ("LUAINPUTS"@, search),
        ("LUAINPUTS_"@ + program, search),
    ]
}

pub(crate) fn push_pair(env: &mut Vec<(String, String)>, name: &str, value: String)
    ensures
        pairs_view(final(env)@) == pairs_view(old(env)@).push((name@, value@)),
{
    let ghost before = pairs_view(env@);
    env.push((String::from_str(name), value));
    assert(pairs_view(env@) =~= before.push((name@, value@)));
}

pub(crate) fn append_pairs(env: &mut Vec<(String, String)>, more: Vec<(String, String)>)
    ensures
        pairs_view(final(env)@) == pairs_view(old(env)@) + pairs_view(more@),
{
    let ghost before = env@;
    let mut more = more;
    let ghost m = more@;
    env.append(&mut more);
    assert(pairs_view(env@) =~= pairs_view(before) + pairs_view(m));
}

pub fn engine_input_environment(program: &str, search: &str) -> (r: Vec<(String, String)>)
    ensures
        pairs_view(r@) == input_environment(program@, search@),
{
    let mut r: Vec<(String, String)> = Vec::new();
    push_pair(&mut r, "TEXINPUTS", String::from_str(search));
    let mut k = String::from_str("TEXINPUTS_");
    k.append(program);
    push_pair(&mut r, k.as_str(), String::from_str(search));
    push_pair(&mut r, "LUAINPUTS", String::from_str(search));
    let mut k2 = String::from_str("LUAINPUTS_");
    k2.append(program);
    push_pair(&mut r, k2.as_str(), String::from_str(search));
    assert(pairs_view(r@) =~= input_environment(program@, search@));
    r
}

/// `SOURCE_DATE_EPOCH` fixes the PDF's dates and identifier;
/// `FORCE_SOURCE_DATE` makes `\today` follow it too.
pub open spec fn source_date(epoch: Seq<char>) -> Seq<(Seq<char>, Seq<char>)> {
    seq![("SOURCE_DATE_EPOCH"@, epoch), ("FORCE_SOURCE_DATE"@, "1"@)]
}

pub fn source_date_environment(epoch: &str) -> (r: Vec<(String, String)>)
    ensures
        pairs_view(r@) == source_date(epoch@),
{
    let mut r: Vec<(String, String)> = Vec::new();
    push_pair(&mut r, "SOURCE_DATE_EPOCH", String::from_str(epoch));
    push_pair(&mut r, "FORCE_SOURCE_DATE", String::from_str("1"));
    assert(pairs_view(r@) =~= source_date(epoch@));
    r
}

/// The roots an engine run searches for TeX inputs when no managed format
/// is in use: generated inputs, the build output, the working directory,
/// the project's own input roots, then the locked package tree.
pub open spec fn package_search_roots(output_dir: Seq<char>, texmf: Seq<char>, input_roots: Seq<Seq<char>>) -> Seq<Seq<char>> {
    seq![join_path(output_dir, ".texe-generated"@), output_dir, "."@] + input_roots + seq![texmf]
}

/// The search path of such a run; a discovery run ends it with an empty
/// entry, which lets Kpathsea fall back to the system trees.
pub open spec fn package_search_value(output_dir: Seq<char>, texmf: Seq<char>, input_roots: Seq<Seq<char>>, discovery: bool) -> Seq<char> {
    search_path(package_search_roots(output_dir, texmf, input_roots)) + if discovery {
        ":"@
    } else {
        Seq::empty()
    }
}

pub(crate) fn append_strings(v: &mut Vec<String>, more: &Vec<String>)
    ensures
        strings_view(final(v)@) == strings_view(old(v)@) + strings_view(more@),
{
    let ghost before = strings_view(v@);
    let mut i: usize = 0;
    while i < more.len()
        invariant
            i <= more.len(),
            strings_view(v@) == before + strings_view(more@).subrange(0, i as int),
        decreases more.len() - i,
    {
        let ghost prev = strings_view(v@);
        let item = String::from_str(more[i].as_str());
        v.push(item);
        assert(strings_view(v@) == prev.push(more@[i as int]@));
        assert(strings_view(more@).subrange(0, i + 1) == strings_view(more@).subrange(0, i as int).push(more@[i as int]@));
        i += 1;
    }
    assert(strings_view(more@).subrange(0, more@.len() as int) == strings_view(more@));
}

pub fn package_search_path_value(
    working_directory: &str,
    output_dir: &str,
    texmf: &str,
    input_roots: &Vec<String>,
    discovery: bool,
) -> (r: String)
    ensures
        r@ == package_search_value(output_dir@, texmf@, strings_view(input_roots@), discovery),
{
    let mut roots: Vec<String> = Vec::new();
    roots.push(join_path_of(output_dir, ".texe-generated"));
    roots.push(String::from_str(output_dir));
    roots.push(String::from_str("."));
    assert(strings_view(roots@) =~= seq![join_path(output_dir@, ".texe-generated"@), output_dir@, "."@]);
    append_strings(&mut roots, input_roots);
    let ghost mid = strings_view(roots@);
    roots.push(String::from_str(texmf));
    assert(strings_view(roots@) =~= mid.push(texmf@));
    assert(strings_view(roots@) =~= package_search_roots(output_dir@, texmf@, strings_view(input_roots@)));
    let mut value = search_path_from(&roots, working_directory);
    if discovery {
        push_char(&mut value, ':');
        assert(value@ =~= package_search_value(output_dir@, texmf@, strings_view(input_roots@), discovery)) by {
            reveal_strlit(":");
        }
    } else {
        assert(value@ =~= package_search_value(output_dir@, texmf@, strings_view(input_roots@), discovery));
    }
    value
}

/// A runtime that texe manages: its tree, the directory of its binaries,
/// and the package registry it was installed from.
#[derive(Debug, Clone)]
pub struct ManagedRuntime {
    pub root: String,
    pub binary_dir: String,
    /// The registry's package database.
    pub registry_url: String,
    /// The SHA-256 of that database's metadata.
    pub registry_metadata_sha256: String,
    /// The providers a fresh lock must hold for the runtime to start.
    pub bootstrap_providers: Vec<String>,
}

/// The TeX toolchain a build runs: what the environment and arguments are
/// made of.
#[derive(Debug, Clone)]
pub struct ResolvedToolchain {
    pub engine: String,
    pub engine_executable: String,
    pub texmf_dist: String,
    /// The system trees the engine searches, for a system toolchain.
    pub engine_roots: Vec<String>,
    pub managed: Option<ManagedRuntime>,
}

/// A format texe built for the toolchain: its cache root and the directory
/// of the format files.
#[derive(Debug, Clone)]
pub struct ManagedFormat {
    pub root: String,
    pub formats: String,
}

/// What an engine run's environment depends on.
#[derive(Debug, Clone)]
pub struct EngineEnvironmentContext {
    pub working_directory: String,
    pub texmf: String,
    pub build_root: String,
    pub input_roots: Vec<String>,
    pub managed_format: Option<ManagedFormat>,
    pub discovery: bool,
    pub source_date_epoch: u64,
    pub shell_escape: bool,
    /// The `PATH` texe runs with; a shell-escape run may reach it after the
    /// managed binaries.
    pub host_path: Option<String>,
}

/// A system tree whose last component is `fonts`, in any ASCII case.
pub open spec fn is_fonts_dir(root: Seq<char>) -> bool {
    match file_name(root) {
        Some(n) => lower_seq(n) == "fonts"@,
        None => false,
    }
}

/// The font trees among `roots`, in order.
pub open spec fn fonts_roots(roots: Seq<Seq<char>>) -> Seq<Seq<char>>
    decreases roots.len(),
{
    if roots.len() == 0 {
        Seq::empty()
    } else {
        fonts_roots(roots.drop_last()) + if is_fonts_dir(roots.last()) {
            seq![roots.last()]
        } else {
            Seq::empty()
        }
    }
}

/// A system toolchain finds the locked fonts before the host's font trees,
/// and reads the fontconfig file texe writes into the build root.
pub open spec fn system_font_environment_of(engine_roots: Seq<Seq<char>>, texmf: Seq<char>, build_root: Seq<char>) -> Seq<(Seq<char>, Seq<char>)> {
    seq![
        ("OSFONTDIR"@, search_path(seq![join_path(texmf, "fonts"@)] + fonts_roots(engine_roots))),
        ("FONTCONFIG_FILE"@, join_path(build_root, "fontconfig.conf"@)),
    ]
}

fn is_fonts_dir_of(root: &String) -> (r: bool)
    ensures
        r == is_fonts_dir(root@),
{
    match crate::setup::file_name_of(root.as_str()) {
        Some(n) => {
            let l = crate::text::lower_vec(&n);
            crate::text::eq_str(&l, "fonts")
        },
        None => false,
    }
}

pub fn system_font_environment(toolchain: &ResolvedToolchain, texmf: &str, build_root: &str, working_directory: &str) -> (r: Vec<(String, String)>)
    ensures
        pairs_view(r@) == system_font_environment_of(strings_view(toolchain.engine_roots@), texmf@, build_root@),
{
    let ghost ev = strings_view(toolchain.engine_roots@);
    let mut roots: Vec<String> = Vec::new();
    roots.push(join_path_of(texmf, "fonts"));
    let ghost head = strings_view(roots@);
    assert(head =~= seq![join_path(texmf@, "fonts"@)]);
    let mut i: usize = 0;
    assert(ev.subrange(0, 0) =~= Seq::<Seq<char>>::empty());
    while i < toolchain.engine_roots.len()
        invariant
            i <= toolchain.engine_roots.len(),
            ev == strings_view(toolchain.engine_roots@),
            head == seq![join_path(texmf@, "fonts"@)],
            strings_view(roots@) == head + fonts_roots(ev.subrange(0, i as int)),
        decreases toolchain.engine_roots.len() - i,
    {
        let ghost prev = strings_view(roots@);
        proof {
            let b = ev.subrange(0, i + 1);
            assert(b.drop_last() =~= ev.subrange(0, i as int));
            assert(b.last() == toolchain.engine_roots@[i as int]@);
        }
        if is_fonts_dir_of(&toolchain.engine_roots[i]) {
            roots.push(String::from_str(toolchain.engine_roots[i].as_str()));
            assert(strings_view(roots@) =~= prev.push(toolchain.engine_roots@[i as int]@));
        } else {
            assert(strings_view(roots@) =~= prev + Seq::<Seq<char>>::empty());
        }
        i += 1;
    }
    assert(ev.subrange(0, ev.len() as int) == ev);
    let mut r: Vec<(String, String)> = Vec::new();
    push_pair(&mut r, "OSFONTDIR", search_path_from(&roots, working_directory));
    push_pair(&mut r, "FONTCONFIG_FILE", join_path_of(build_root, "fontconfig.conf"));
    assert(pairs_view(r@) =~= system_font_environment_of(ev, texmf@, build_root@));
    r
}

/// The `PATH` of a shell-escape run: the managed binaries first, then the
/// host's `PATH` as `std::env::join_paths` rebuilds it (which refuses a
/// directory holding `:`, and then only the managed binaries remain).
pub open spec fn shell_escape_path_of(binary_dir: Seq<char>, host_path: Option<Seq<char>>) -> Seq<char> {
    match host_path {
        Some(p) => if binary_dir.contains(':') {
            binary_dir
        } else {
            binary_dir + ":"@ + p
        },
        None => binary_dir,
    }
}

pub fn shell_escape_path(binary_dir: &str, host_path: &Option<String>) -> (r: String)
    ensures
        r@ == shell_escape_path_of(binary_dir@, crate::trace::opt_string_view(*host_path)),
{
    match host_path {
        Some(p) => {
            let b = chars_of(binary_dir);
            if crate::text::has_char(&b, ':') {
                String::from_str(binary_dir)
            } else {
                let mut r = String::from_str(binary_dir);
                r.append(":");
                r.append(p.as_str());
                r
            }
        },
        None => String::from_str(binary_dir),
    }
}

/// The TeX Live tree of a managed runtime.
pub open spec fn managed_dist(t: ResolvedToolchain) -> Option<Seq<char>> {
    match t.managed {
        Some(m) => Some(join_path(m.root@, "texmf-dist"@)),
        None => None,
    }
}

pub open spec fn optional_root(o: Option<Seq<char>>) -> Seq<Seq<char>> {
    match o {
        Some(x) => seq![x],
        None => Seq::empty(),
    }
}

pub(crate) fn push_optional(v: &mut Vec<String>, o: Option<String>)
    ensures
        strings_view(final(v)@) == strings_view(old(v)@) + optional_root(crate::trace::opt_string_view(o)),
{
    let ghost before = strings_view(v@);
    match o {
        Some(x) => {
            let ghost xv = x@;
            v.push(x);
            assert(strings_view(v@) =~= before + seq![xv]);
        },
        None => {
            assert(strings_view(v@) =~= before + Seq::<Seq<char>>::empty());
        },
    }
}

pub(crate) fn managed_dist_of(t: &ResolvedToolchain) -> (r: Option<String>)
    ensures
        crate::trace::opt_string_view(r) == managed_dist(*t),
{
    match &t.managed {
        Some(m) => Some(join_path_of(m.root.as_str(), "texmf-dist")),
        None => None,
    }
}

/// The font map trees: the format's own maps, the locked tree's, then the
/// managed runtime's.
pub open spec fn font_map_roots(format_root: Seq<char>, texmf: Seq<char>, dist: Option<Seq<char>>) -> Seq<Seq<char>> {
    seq![join_path(format_root, "user-config/fonts/map"@), join_path(texmf, "fonts/map"@)] + optional_root(
        match dist {
            Some(d) => Some(join_path(d, "fonts/map"@)),
            None => None,
        },
    )
}

pub(crate) fn font_map_roots_of(format_root: &str, texmf: &str, dist: &Option<String>) -> (r: Vec<String>)
    ensures
        strings_view(r@) == font_map_roots(format_root@, texmf@, crate::trace::opt_string_view(*dist)),
{
    let mut r: Vec<String> = Vec::new();
    r.push(join_path_of(format_root, "user-config/fonts/map"));
    r.push(join_path_of(texmf, "fonts/map"));
    assert(strings_view(r@) =~= seq![join_path(format_root@, "user-config/fonts/map"@), join_path(texmf@, "fonts/map"@)]);
    let maps = match dist {
        Some(d) => Some(join_path_of(d.as_str(), "fonts/map")),
        None => None,
    };
    push_optional(&mut r, maps);
    r
}

/// The Kpathsea trees of a run that uses a managed format: where it finds
/// home, variable, configuration and format files, and its font maps.
pub open spec fn tree_environment(
    home: Seq<char>,
    var: Seq<char>,
    config: Seq<char>,
    system_var: Seq<char>,
    system_config: Seq<char>,
    formats: Seq<char>,
    font_maps: Seq<char>,
) -> Seq<(Seq<char>, Seq<char>)> {
    seq![
        ("TEXMFHOME"@, home),
        ("TEXMFVAR"@, var),
        ("TEXMFCACHE"@, var),
        ("TEXMFCONFIG"@, config),
        ("TEXMFSYSVAR"@, system_var),
        ("TEXMFSYSCONFIG"@, system_config),
        ("TEXFORMATS"@, formats),
        ("TEXFONTMAPS"@, font_maps),
    ]
}

pub(crate) fn tree_environment_of(
    home: String,
    var: String,
    config: String,
    system_var: String,
    system_config: String,
    formats: String,
    font_maps: String,
) -> (r: Vec<(String, String)>)
    ensures
        pairs_view(r@) == tree_environment(home@, var@, config@, system_var@, system_config@, formats@, font_maps@),
{
    let ghost gv = var@;
    let mut r: Vec<(String, String)> = Vec::new();
    push_pair(&mut r, "TEXMFHOME", home);
    push_pair(&mut r, "TEXMFVAR", String::from_str(var.as_str()));
    push_pair(&mut r, "TEXMFCACHE", var);
    push_pair(&mut r, "TEXMFCONFIG", config);
    push_pair(&mut r, "TEXMFSYSVAR", system_var);
    push_pair(&mut r, "TEXMFSYSCONFIG", system_config);
    push_pair(&mut r, "TEXFORMATS", formats);
    push_pair(&mut r, "TEXFONTMAPS", font_maps);
    assert(pairs_view(r@) =~= tree_environment(home@, gv, config@, system_var@, system_config@, formats@, font_maps@));
    r
}

/// The roots a run with a managed format searches: those of a plain run,
/// with the format's configuration before the locked tree and the managed
/// runtime's tree last.
pub open spec fn managed_search_roots(t: ResolvedToolchain, ctx: EngineEnvironmentContext, f: ManagedFormat) -> Seq<Seq<char>> {
    seq![join_path(ctx.build_root@, ".texe-generated"@), ctx.build_root@, "."@] + strings_view(ctx.input_roots@)
        + seq![join_path(f.root@, "config"@), ctx.texmf@] + optional_root(managed_dist(t))
}

/// The environment of a run that uses a format texe built.
pub open spec fn managed_engine_environment_of(t: ResolvedToolchain, ctx: EngineEnvironmentContext, f: ManagedFormat) -> Seq<(Seq<char>, Seq<char>)> {
    let system_var = match t.managed {
        Some(m) => join_path(m.root@, "texmf-var"@),
        None => join_path(f.root@, "var"@),
    };
    let system_config = match t.managed {
        Some(m) => join_path(m.root@, "texmf-config"@),
        None => join_path(f.root@, "user-config"@),
    };
    tree_environment(
        ctx.texmf@,
        join_path(ctx.build_root@, "texmf-var"@),
        join_path(f.root@, "user-config"@),
        system_var,
        system_config,
        f.formats@,
        search_path(font_map_roots(f.root@, ctx.texmf@, managed_dist(t))),
    ) + input_environment(t.engine@, search_path(managed_search_roots(t, ctx, f))) + match t.managed {
        Some(m) => seq![
            ("OSFONTDIR"@, join_path(ctx.texmf@, "fonts"@)),
            ("PATH"@, if ctx.shell_escape {
                shell_escape_path_of(m.binary_dir@, crate::trace::opt_string_view(ctx.host_path))
            } else {
                m.binary_dir@
            }),
        ],
        None => system_font_environment_of(strings_view(t.engine_roots@), ctx.texmf@, ctx.build_root@),
    } + source_date(decimal(ctx.source_date_epoch as nat))
}

/// The environment of an engine run.
pub open spec fn engine_environment_of(t: ResolvedToolchain, ctx: EngineEnvironmentContext) -> Seq<(Seq<char>, Seq<char>)> {
    match ctx.managed_format {
        None => input_environment(
            t.engine@,
            package_search_value(ctx.build_root@, ctx.texmf@, strings_view(ctx.input_roots@), ctx.discovery),
        ) + source_date(decimal(ctx.source_date_epoch as nat)),
        Some(f) => managed_engine_environment_of(t, ctx, f),
    }
}

fn managed_search_roots_of(t: &ResolvedToolchain, ctx: &EngineEnvironmentContext, f: &ManagedFormat) -> (r: Vec<String>)
    ensures
        strings_view(r@) == managed_search_roots(*t, *ctx, *f),
{
    let mut roots: Vec<String> = Vec::new();
    roots.push(join_path_of(ctx.build_root.as_str(), ".texe-generated"));
    roots.push(String::from_str(ctx.build_root.as_str()));
    roots.push(String::from_str("."));
    assert(strings_view(roots@) =~= seq![join_path(ctx.build_root@, ".texe-generated"@), ctx.build_root@, "."@]);
    append_strings(&mut roots, &ctx.input_roots);
    let ghost mid = strings_view(roots@);
    roots.push(join_path_of(f.root.as_str(), "config"));
    roots.push(String::from_str(ctx.texmf.as_str()));
    assert(strings_view(roots@) =~= mid + seq![join_path(f.root@, "config"@), ctx.texmf@]);
    push_optional(&mut roots, managed_dist_of(t));
    roots
}

fn managed_engine_environment(t: &ResolvedToolchain, ctx: &EngineEnvironmentContext, f: &ManagedFormat) -> (r: Vec<(String, String)>)
    ensures
        pairs_view(r@) == managed_engine_environment_of(*t, *ctx, *f),
{
    let wd = ctx.working_directory.as_str();
    let texmf = ctx.texmf.as_str();
    let dist = managed_dist_of(t);
    let (system_var, system_config) = match &t.managed {
        Some(m) => (join_path_of(m.root.as_str(), "texmf-var"), join_path_of(m.root.as_str(), "texmf-config")),
        None => (join_path_of(f.root.as_str(), "var"), join_path_of(f.root.as_str(), "user-config")),
    };
    let maps = font_map_roots_of(f.root.as_str(), texmf, &dist);
    let mut env = tree_environment_of(
        String::from_str(texmf),
        join_path_of(ctx.build_root.as_str(), "texmf-var"),
        join_path_of(f.root.as_str(), "user-config"),
        system_var,
        system_config,
        String::from_str(f.formats.as_str()),
        search_path_from(&maps, wd),
    );
    let search = search_path_from(&managed_search_roots_of(t, ctx, f), wd);
    append_pairs(&mut env, engine_input_environment(t.engine.as_str(), search.as_str()));
    match &t.managed {
        Some(m) => {
            let mut fonts: Vec<(String, String)> = Vec::new();
            push_pair(&mut fonts, "OSFONTDIR", join_path_of(texmf, "fonts"));
            let path = if ctx.shell_escape {
                shell_escape_path(m.binary_dir.as_str(), &ctx.host_path)
            } else {
                String::from_str(m.binary_dir.as_str())
            };
            push_pair(&mut fonts, "PATH", path);
            append_pairs(&mut env, fonts);
        },
        None => {
            append_pairs(&mut env, system_font_environment(t, texmf, ctx.build_root.as_str(), wd));
        },
    }
    let epoch = decimal_string(ctx.source_date_epoch);
    append_pairs(&mut env, source_date_environment(epoch.as_str()));
    env
}

/// The environment of an engine run: its search paths, its trees, its
/// fonts and its pinned clock.
pub fn engine_environment(toolchain: &ResolvedToolchain, context: &EngineEnvironmentContext) -> (r: Vec<(String, String)>)
    ensures
        pairs_view(r@) == engine_environment_of(*toolchain, *context),
{
    match &context.managed_format {
        None => {
            let search = package_search_path_value(
                context.working_directory.as_str(),
                context.build_root.as_str(),
                context.texmf.as_str(),
                &context.input_roots,
                context.discovery,
            );
            let mut env = engine_input_environment(toolchain.engine.as_str(), search.as_str());
            let epoch = decimal_string(context.source_date_epoch);
            append_pairs(&mut env, source_date_environment(epoch.as_str()));
            env
        },
        Some(f) => managed_engine_environment(toolchain, context, f),
    }
}

/// A managed run sees only the managed binaries: adding the host's would
/// bring back the ambient dependency the managed provider removes.
pub fn managed_path(binary_dir: &str) -> (r: String)
    ensures
        r@ == binary_dir@,
{
    String::from_str(binary_dir)
}

/// An inherited variable that could steer the engine's searches, which a
/// managed run clears.
pub open spec fn engine_search_variable(name: Seq<char>) -> bool {
    crate::text::starts_with(name, "TEX"@) || crate::text::starts_with(name, "LUA"@) || crate::text::starts_with(
        name,
        "FONTCONFIG"@,
    ) || name == "OSFONTDIR"@
}

pub fn is_engine_search_variable(name: &str) -> (r: bool)
    ensures
        r == engine_search_variable(name@),
{
    let n = chars_of(name);
    crate::text::starts_with_str(&n, "TEX") || crate::text::starts_with_str(&n, "LUA")
        || crate::text::starts_with_str(&n, "FONTCONFIG") || crate::text::eq_str(&n, "OSFONTDIR")
}

/// An inherited variable of a packed Perl program, which the bundled Biber
/// must not see.
pub open spec fn standalone_perl_variable(name: Seq<char>) -> bool {
    crate::text::starts_with(name, "PAR_"@) || crate::text::starts_with(name, "PERL"@)
}

pub fn is_standalone_perl_variable(name: &str) -> (r: bool)
    ensures
        r == standalone_perl_variable(name@),
{
    let n = chars_of(name);
    crate::text::starts_with_str(&n, "PAR_") || crate::text::starts_with_str(&n, "PERL")
}

} // verus!
