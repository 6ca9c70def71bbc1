//! Adopting an existing paper: what the static preflight finds in its
//! sources before texe configures it, and the manifest an adoption writes.
use vstd::prelude::*;
use crate::config::ProjectManifest;
use crate::error::TexeError;
use crate::order::pairs_view;
use crate::setup::strings_view;
use crate::source::{has_package, loads_package};
use crate::text::{chars_of, ends_with, ends_with_str, eq_str};
use crate::order::{insert_text, texts_sorted};

verus! {

/// What the preflight of an adoption reports.
#[derive(Debug, Clone)]
pub struct AdoptionPreflight {
    /// What must change before the paper can be adopted.
    pub blockers: Vec<String>,
    /// What deserves a look but does not stop the adoption.
    pub warnings: Vec<String>,
    /// The external programs the sources ask for.
    pub external_tools: Vec<String>,
    /// The classes and packages the paper folder itself holds, by file name.
    pub local_classes: Vec<String>,
}

pub open spec fn has_command(commands: Seq<(Seq<char>, Seq<char>)>, name: Seq<char>) -> bool {
    exists|i: int| 0 <= i < commands.len() && (#[trigger] commands[i]).0 == name
}

/// The sources use `minted`: they load it or open its environment.
pub open spec fn uses_minted(commands: Seq<(Seq<char>, Seq<char>)>) -> bool {
    loads_package(commands, "minted"@) || exists|i: int|
        0 <= i < commands.len() && (#[trigger] commands[i]).0 == "begin"@ && commands[i].1 == "minted"@
}

pub const UNICODE_BLOCKER: &'static str = "fontspec/unicode-math requires LuaLaTeX or XeLaTeX; use --engine lualatex for a managed installation, or change the engine in an existing texe.toml";

pub const ENTRY_BLOCKER: &'static str = "entry must be an existing source file inside the paper folder";

pub const EXTERNAL_BLOCKER: &'static str = "the entry requests external processing; configure and verify that workflow in texe.toml before adoption (shell escape is disabled by default)";

pub const FONTS_WARNING: &'static str = "system fonts are referenced; verify those fonts are installed on every machine";

pub const SCAN_WARNING: &'static str = "static preflight follows literal local includes and class/package declarations within a bounded scan; dynamic TeX, fonts and package availability still need the first build";

pub open spec fn missing_tool_text(tool: Seq<char>) -> Seq<char> {
    "system tool "@ + tool + " is missing from PATH; install your TeX distribution first"@
}

pub open spec fn build_file_text(file: Seq<char>) -> Seq<char> {
    file + " exists; texe does not execute it. Review its engine flags and custom build steps."@
}

/// The blockers: an entry outside the paper or missing, Unicode fonts under
/// pdfLaTeX, system tools missing from `PATH` for a system toolchain, and
/// external processing without shell escape.
pub open spec fn blockers_of(
    m: ProjectManifest,
    commands: Seq<(Seq<char>, Seq<char>)>,
    entry_inside: bool,
    engine_on_path: bool,
    kpsewhich_on_path: bool,
) -> Seq<Seq<char>> {
    let entry: Seq<Seq<char>> = if entry_inside {
        Seq::empty()
    } else {
        seq![ENTRY_BLOCKER@]
    };
    let unicode: Seq<Seq<char>> = if (loads_package(commands, "fontspec"@) || loads_package(commands, "unicode-math"@))
        && m.toolchain.engine@ == "pdflatex"@ {
        seq![UNICODE_BLOCKER@]
    } else {
        Seq::empty()
    };
    let system = m.toolchain.provider@ == "system"@;
    let engine_tool: Seq<Seq<char>> = if system && !engine_on_path {
        seq![missing_tool_text(m.toolchain.engine@)]
    } else {
        Seq::empty()
    };
    let kpsewhich: Seq<Seq<char>> = if system && !kpsewhich_on_path {
        seq![missing_tool_text("kpsewhich"@)]
    } else {
        Seq::empty()
    };
    let external: Seq<Seq<char>> = if (uses_minted(commands) || has_command(commands, "write18"@)) && !m.toolchain.shell_escape {
        seq![EXTERNAL_BLOCKER@]
    } else {
        Seq::empty()
    };
    entry + unicode + engine_tool + kpsewhich + external
}

/// The external programs, in this order: minted's helper, shell escape,
/// MakeIndex for glossaries, MakeIndex, Biber.
pub open spec fn external_tools_of(commands: Seq<(Seq<char>, Seq<char>)>) -> Seq<Seq<char>> {
    let minted: Seq<Seq<char>> = if uses_minted(commands) {
        seq!["latexminted / Python"@]
    } else {
        Seq::empty()
    };
    let write18: Seq<Seq<char>> = if has_command(commands, "write18"@) {
        seq!["shell escape"@]
    } else {
        Seq::empty()
    };
    let glossaries: Seq<Seq<char>> = if has_command(commands, "makeglossaries"@) {
        seq!["makeindex (glossary)"@]
    } else {
        Seq::empty()
    };
    let index: Seq<Seq<char>> = if has_command(commands, "makeindex"@) {
        seq!["makeindex"@]
    } else {
        Seq::empty()
    };
    let biber: Seq<Seq<char>> = if has_command(commands, "addbibresource"@) {
        seq!["biber"@]
    } else {
        Seq::empty()
    };
    minted + write18 + glossaries + index + biber
}

/// The warnings: system fonts, each build file texe does not run, and what
/// a static scan cannot see.
pub open spec fn warnings_of(commands: Seq<(Seq<char>, Seq<char>)>, build_files: Seq<Seq<char>>) -> Seq<Seq<char>> {
    let fonts: Seq<Seq<char>> = if has_command(commands, "setmainfont"@) || has_command(commands, "setsansfont"@) {
        seq![FONTS_WARNING@]
    } else {
        Seq::empty()
    };
    fonts + build_files.map_values(|f: Seq<char>| build_file_text(f)) + seq![SCAN_WARNING@]
}

fn has_command_of(commands: &Vec<(String, String)>, name: &str) -> (r: bool)
    ensures
        r == has_command(pairs_view(commands@), name@),
{
    let ghost cv = pairs_view(commands@);
    let mut i: usize = 0;
    while i < commands.len()
        invariant
            i <= commands.len(),
            cv == pairs_view(commands@),
            forall|q: int| 0 <= q < i ==> (#[trigger] cv[q]).0 != name@,
        decreases commands.len() - i,
    {
        assert(cv[i as int].0 == commands@[i as int].0@);
        if eq_str(&chars_of(commands[i].0.as_str()), name) {
            return true;
        }
        i += 1;
    }
    false
}

fn uses_minted_of(commands: &Vec<(String, String)>) -> (r: bool)
    ensures
        r == uses_minted(pairs_view(commands@)),
{
    if has_package(commands, "minted") {
        return true;
    }
    let ghost cv = pairs_view(commands@);
    let mut i: usize = 0;
    while i < commands.len()
        invariant
            i <= commands.len(),
            cv == pairs_view(commands@),
            !loads_package(cv, "minted"@),
            forall|q: int| 0 <= q < i ==> !((#[trigger] cv[q]).0 == "begin"@ && cv[q].1 == "minted"@),
        decreases commands.len() - i,
    {
        assert(cv[i as int] == (commands@[i as int].0@, commands@[i as int].1@));
        if eq_str(&chars_of(commands[i].0.as_str()), "begin") && eq_str(&chars_of(commands[i].1.as_str()), "minted") {
            return true;
        }
        i += 1;
    }
    false
}

fn push_text(v: &mut Vec<String>, s: &str)
    ensures
        strings_view(final(v)@) == strings_view(old(v)@).push(s@),
{
    let ghost before = strings_view(v@);
    v.push(String::from_str(s));
    assert(strings_view(v@) =~= before.push(s@));
}

fn push_owned(v: &mut Vec<String>, s: String)
    ensures
        strings_view(final(v)@) == strings_view(old(v)@).push(s@),
{
    let ghost before = strings_view(v@);
    v.push(s);
    assert(strings_view(v@) =~= before.push(s@));
}

fn preflight_blockers(
    manifest: &ProjectManifest,
    commands: &Vec<(String, String)>,
    entry_inside: bool,
    engine_on_path: bool,
    kpsewhich_on_path: bool,
) -> (r: Vec<String>)
    ensures
        strings_view(r@) == blockers_of(*manifest, pairs_view(commands@), entry_inside, engine_on_path, kpsewhich_on_path),
{
    let ghost cv = pairs_view(commands@);
    let minted = uses_minted_of(commands);
    let write18 = has_command_of(commands, "write18");
    let mut blockers: Vec<String> = Vec::new();
    let ghost b0 = strings_view(blockers@);
    if !entry_inside {
        push_text(&mut blockers, ENTRY_BLOCKER);
    }
    let ghost b1 = strings_view(blockers@);
    let unicode = has_package(commands, "fontspec") || has_package(commands, "unicode-math");
    if unicode && eq_str(&chars_of(manifest.toolchain.engine.as_str()), "pdflatex") {
        push_text(&mut blockers, UNICODE_BLOCKER);
    }
    let ghost b2 = strings_view(blockers@);
    let system = eq_str(&chars_of(manifest.toolchain.provider.as_str()), "system");
    if system && !engine_on_path {
        let mut m = String::from_str("system tool ");
        m.append(manifest.toolchain.engine.as_str());
        m.append(" is missing from PATH; install your TeX distribution first");
        push_owned(&mut blockers, m);
    }
    let ghost b3 = strings_view(blockers@);
    if system && !kpsewhich_on_path {
        let mut m = String::from_str("system tool ");
        m.append("kpsewhich");
        m.append(" is missing from PATH; install your TeX distribution first");
        push_owned(&mut blockers, m);
    }
    let ghost b4 = strings_view(blockers@);
    if (minted || write18) && !manifest.toolchain.shell_escape {
        push_text(&mut blockers, EXTERNAL_BLOCKER);
    }
    proof {
        let m = *manifest;
        let e: Seq<Seq<char>> = Seq::empty();
        assert(b0 =~= e);
        assert(b1 =~= (if entry_inside { e } else { seq![ENTRY_BLOCKER@] }));
        let sys = m.toolchain.provider@ == "system"@;
        assert(b2 =~= b1 + (if (loads_package(cv, "fontspec"@) || loads_package(cv, "unicode-math"@)) && m.toolchain.engine@
            == "pdflatex"@ {
            seq![UNICODE_BLOCKER@]
        } else {
            e
        }));
        assert(b3 =~= b2 + (if sys && !engine_on_path { seq![missing_tool_text(m.toolchain.engine@)] } else { e }));
        assert(b4 =~= b3 + (if sys && !kpsewhich_on_path { seq![missing_tool_text("kpsewhich"@)] } else { e }));
        assert(strings_view(blockers@) =~= b4 + (if (uses_minted(cv) || has_command(cv, "write18"@)) && !m.toolchain.shell_escape {
            seq![EXTERNAL_BLOCKER@]
        } else {
            e
        }));
    }
    blockers
}

fn preflight_tools(commands: &Vec<(String, String)>) -> (r: Vec<String>)
    ensures
        strings_view(r@) == external_tools_of(pairs_view(commands@)),
{
    let ghost cv = pairs_view(commands@);
    let mut tools: Vec<String> = Vec::new();
    let ghost t0 = strings_view(tools@);
    if uses_minted_of(commands) {
        push_text(&mut tools, "latexminted / Python");
    }
    let ghost t1 = strings_view(tools@);
    if has_command_of(commands, "write18") {
        push_text(&mut tools, "shell escape");
    }
    let ghost t2 = strings_view(tools@);
    if has_command_of(commands, "makeglossaries") {
        push_text(&mut tools, "makeindex (glossary)");
    }
    let ghost t3 = strings_view(tools@);
    if has_command_of(commands, "makeindex") {
        push_text(&mut tools, "makeindex");
    }
    let ghost t4 = strings_view(tools@);
    if has_command_of(commands, "addbibresource") {
        push_text(&mut tools, "biber");
    }
    proof {
        let e: Seq<Seq<char>> = Seq::empty();
        assert(t0 =~= e);
        assert(t1 =~= t0 + (if uses_minted(cv) { seq!["latexminted / Python"@] } else { e }));
        assert(t2 =~= t1 + (if has_command(cv, "write18"@) { seq!["shell escape"@] } else { e }));
        assert(t3 =~= t2 + (if has_command(cv, "makeglossaries"@) { seq!["makeindex (glossary)"@] } else { e }));
        assert(t4 =~= t3 + (if has_command(cv, "makeindex"@) { seq!["makeindex"@] } else { e }));
        assert(strings_view(tools@) =~= t4 + (if has_command(cv, "addbibresource"@) { seq!["biber"@] } else { e }));
    }
    tools
}

fn preflight_warnings(commands: &Vec<(String, String)>, build_files: &Vec<String>) -> (r: Vec<String>)
    ensures
        strings_view(r@) == warnings_of(pairs_view(commands@), strings_view(build_files@)),
{
    let ghost cv = pairs_view(commands@);
    let mut warnings: Vec<String> = Vec::new();
    if has_command_of(commands, "setmainfont") || has_command_of(commands, "setsansfont") {
        push_text(&mut warnings, FONTS_WARNING);
    }
    let ghost w0 = strings_view(warnings@);
    let ghost files = strings_view(build_files@);
    let mut i: usize = 0;
    while i < build_files.len()
        invariant
            i <= build_files.len(),
            files == strings_view(build_files@),
            strings_view(warnings@) == w0 + files.subrange(0, i as int).map_values(|f: Seq<char>| build_file_text(f)),
        decreases build_files.len() - i,
    {
        let mut m = String::from_str(build_files[i].as_str());
        m.append(" exists; texe does not execute it. Review its engine flags and custom build steps.");
        push_owned(&mut warnings, m);
        proof {
            let f = |x: Seq<char>| build_file_text(x);
            assert(files.subrange(0, i + 1) =~= files.subrange(0, i as int).push(files[i as int]));
            assert(files.subrange(0, i + 1).map_values(f) =~= files.subrange(0, i as int).map_values(f).push(f(files[i as int])));
        }
        i += 1;
    }
    push_text(&mut warnings, SCAN_WARNING);
    proof {
        assert(files.subrange(0, files.len() as int) =~= files);
        let e: Seq<Seq<char>> = Seq::empty();
        if has_command(cv, "setmainfont"@) || has_command(cv, "setsansfont"@) {
            assert(w0 =~= seq![FONTS_WARNING@]);
        } else {
            assert(w0 =~= e);
        }
        assert(strings_view(warnings@) =~= warnings_of(cv, files));
    }
    warnings
}

/// The static preflight of an adoption, from the manifest, the commands of
/// the entry's sources, whether the entry is a file inside the paper,
/// whether the engine and `kpsewhich` are on `PATH`, which build files
/// (`.latexmkrc`, `latexmkrc`, `Makefile`) the paper folder has, and the
/// names of the entries of the paper folder.
pub fn adoption_preflight(
    manifest: &ProjectManifest,
    commands: &Vec<(String, String)>,
    entry_inside: bool,
    engine_on_path: bool,
    kpsewhich_on_path: bool,
    build_files: &Vec<String>,
    folder_names: &Vec<String>,
) -> (r: AdoptionPreflight)
    ensures
        strings_view(r.blockers@) == blockers_of(
            *manifest,
            pairs_view(commands@),
            entry_inside,
            engine_on_path,
            kpsewhich_on_path,
        ),
        strings_view(r.external_tools@) == external_tools_of(pairs_view(commands@)),
        strings_view(r.warnings@) == warnings_of(pairs_view(commands@), strings_view(build_files@)),
        texts_sorted(strings_view(r.local_classes@)),
        strings_view(r.local_classes@).to_set() == local_classes_of(strings_view(folder_names@)),
{
    AdoptionPreflight {
        blockers: preflight_blockers(manifest, commands, entry_inside, engine_on_path, kpsewhich_on_path),
        warnings: preflight_warnings(commands, build_files),
        external_tools: preflight_tools(commands),
        local_classes: local_class_names(folder_names),
    }
}

/// A file name with the extension `cls` or `sty`: something before the
/// last dot, and `cls` or `sty` after it.
pub open spec fn is_class_file_name(name: Seq<char>) -> bool {
    name.len() > 4 && (ends_with(name, ".cls"@) || ends_with(name, ".sty"@))
}

/// The names among `names` that are class or package files.
pub open spec fn local_classes_of(names: Seq<Seq<char>>) -> Set<Seq<char>> {
    names.to_set().filter(|n: Seq<char>| is_class_file_name(n))
}

/// The class and package files among the names of a folder's entries, in
/// code point order.
pub fn local_class_names(names: &Vec<String>) -> (r: Vec<String>)
    ensures
        texts_sorted(strings_view(r@)),
        strings_view(r@).to_set() == local_classes_of(strings_view(names@)),
{
    let ghost nv = strings_view(names@);
    let mut r: Vec<String> = Vec::new();
    let mut i: usize = 0;
    while i < names.len()
        invariant
            i <= names.len(),
            nv == strings_view(names@),
            texts_sorted(strings_view(r@)),
            strings_view(r@).to_set() == local_classes_of(nv.subrange(0, i as int)),
        decreases names.len() - i,
    {
        let name = chars_of(names[i].as_str());
        let keep = name.len() > 4 && (ends_with_str(&name, ".cls") || ends_with_str(&name, ".sty"));
        proof {
            assert(nv.subrange(0, i + 1) =~= nv.subrange(0, i as int).push(nv[i as int]));
            nv.subrange(0, i as int).lemma_push_to_set_commute(nv[i as int]);
        }
        if keep {
            insert_text(&mut r, names[i].clone());
            proof {
                assert(local_classes_of(nv.subrange(0, i + 1)) =~= local_classes_of(nv.subrange(0, i as int)).insert(nv[i as int]));
            }
        } else {
            proof {
                assert(local_classes_of(nv.subrange(0, i + 1)) =~= local_classes_of(nv.subrange(0, i as int)));
            }
        }
        i += 1;
    }
    assert(nv.subrange(0, nv.len() as int) =~= nv);
    r
}

/// A paper whose engine texe can install itself adopts the managed
/// toolchain; any other engine uses the system's.
pub open spec fn adoption_provider_of(engine: Seq<char>) -> Seq<char> {
    if engine == "pdflatex"@ || engine == "lualatex"@ {
        "managed"@
    } else {
        "system"@
    }
}

pub fn adoption_provider(engine: &str) -> (r: &'static str)
    ensures
        r@ == adoption_provider_of(engine@),
{
    let e = chars_of(engine);
    if eq_str(&e, "pdflatex") || eq_str(&e, "lualatex") {
        "managed"
    } else {
        "system"
    }
}

/// The headline of an adoption check.
pub open spec fn preflight_headline_of(blockers: nat, conflicts: nat) -> Seq<char> {
    if blockers == 0 && conflicts == 0 {
        "Ready for the first build"@
    } else {
        "Needs attention before adoption"@
    }
}

pub fn preflight_headline(blockers: usize, conflicts: usize) -> (r: &'static str)
    ensures
        r@ == preflight_headline_of(blockers as nat, conflicts as nat),
{
    if blockers == 0 && conflicts == 0 {
        "Ready for the first build"
    } else {
        "Needs attention before adoption"
    }
}

/// What an adoption does about editor settings that conflict with the
/// user's: go on (replacing them or not), ask the user, or refuse.
#[derive(Debug, Clone, Copy, PartialEq, Eq, Structural)]
pub enum ConflictReview {
    Proceed(bool),
    Ask,
    Refuse,
}

pub const CONFLICT_REVIEW_MESSAGE: &'static str = "editor settings need review; run texe adopt interactively, or use --replace-conflicts to accept the preflight changes; --no-editor keeps your editor setup";

/// Conflicts are replaced only when the user said so, on the command line
/// or when asked; a run that cannot ask refuses.
pub open spec fn conflict_review_of(has_conflicts: bool, replace_conflicts: bool, yes: bool, json: bool, can_prompt: bool) -> ConflictReview {
    if has_conflicts && !replace_conflicts {
        if !yes && !json && can_prompt {
            ConflictReview::Ask
        } else {
            ConflictReview::Refuse
        }
    } else {
        ConflictReview::Proceed(replace_conflicts)
    }
}

pub fn conflict_review(has_conflicts: bool, replace_conflicts: bool, yes: bool, json: bool, can_prompt: bool) -> (r: ConflictReview)
    ensures
        r == conflict_review_of(has_conflicts, replace_conflicts, yes, json, can_prompt),
{
    if has_conflicts && !replace_conflicts {
        if !yes && !json && can_prompt {
            ConflictReview::Ask
        } else {
            ConflictReview::Refuse
        }
    } else {
        ConflictReview::Proceed(replace_conflicts)
    }
}

/// The user's answer when asked: replace the conflicting settings, or stop.
pub fn conflict_answer(replace: bool) -> (r: Result<bool, TexeError>)
    ensures
        replace ==> r == Ok::<bool, TexeError>(true),
        !replace ==> (r matches Err(TexeError::Build(m)) && m@ == CONFLICT_REVIEW_MESSAGE@),
{
    if replace {
        Ok(true)
    } else {
        Err(TexeError::Build(String::from_str(CONFLICT_REVIEW_MESSAGE)))
    }
}

/// What `texe adopt` does next, once the paper folder is known and its
/// preflight has run.
#[derive(Debug)]
pub enum AdoptionStep {
    /// Stop with this error; nothing is written.
    Refuse(TexeError),
    /// Report the preflight (`--check`); nothing is written.
    Report,
    /// Configure the paper: write `texe.toml` unless one exists, set up the
    /// editor, and build, as each flag says.
    Configure { write_manifest: bool, configure_editor: bool, build: bool },
}

pub const EXISTING_MANIFEST_MESSAGE: &'static str = "this project already has texe.toml; edit its entry or engine there";

/// An adoption configures the paper only where no flag conflicts with an
/// existing manifest, it is no check, and the preflight found no blocker.
pub open spec fn adoption_configures(existing: bool, entry_given: bool, engine_given: bool, check: bool, blockers: nat) -> bool {
    !(existing && (entry_given || engine_given)) && !check && blockers == 0
}

/// The decision of `texe adopt`: an entry or engine flag is refused where
/// `texe.toml` exists; `--check` only reports; blockers refuse the adoption,
/// one per line; otherwise the paper is configured, the manifest written
/// only where none exists.
pub fn adoption_step(
    existing: bool,
    entry_given: bool,
    engine_given: bool,
    check: bool,
    blockers: &Vec<String>,
    no_editor: bool,
    no_build: bool,
) -> (r: AdoptionStep)
    ensures
        existing && (entry_given || engine_given) ==> (r matches AdoptionStep::Refuse(TexeError::Manifest(m))
            && m@ == EXISTING_MANIFEST_MESSAGE@),
        !(existing && (entry_given || engine_given)) && check ==> r is Report,
        !(existing && (entry_given || engine_given)) && !check && blockers.len() > 0 ==> (r matches AdoptionStep::Refuse(
            TexeError::Build(m),
        ) && m@ == crate::diagnostics::join_with(strings_view(blockers@), "\n"@)),
        adoption_configures(existing, entry_given, engine_given, check, blockers.len() as nat) ==> (r matches AdoptionStep::Configure {
            write_manifest,
            configure_editor,
            build,
        } && write_manifest == !existing && configure_editor == !no_editor && build == !no_build),
        (r is Configure) == adoption_configures(existing, entry_given, engine_given, check, blockers.len() as nat),
{
    if existing && (entry_given || engine_given) {
        return AdoptionStep::Refuse(TexeError::Manifest(String::from_str(EXISTING_MANIFEST_MESSAGE)));
    }
    if check {
        return AdoptionStep::Report;
    }
    if blockers.len() > 0 {
        let joined = crate::diagnostics::join_strings(blockers, "\n");
        assert(strings_view(blockers@) =~= blockers@.map_values(|s: String| s@));
        return AdoptionStep::Refuse(TexeError::Build(joined));
    }
    AdoptionStep::Configure { write_manifest: !existing, configure_editor: !no_editor, build: !no_build }
}

} // verus!
