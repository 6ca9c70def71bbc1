//! Indexes and glossaries: which MakeIndex runs a build needs, and how each
//! is run. LaTeX's index writes `.idx`; the `glossaries` package declares
//! each glossary's log, output and input extensions in `\@newglossary`
//! lines of the auxiliary file and writes a job-specific `.ist`. Both come
//! down to one MakeIndex run.
use vstd::prelude::*;
use crate::auxfile::GlossaryFields;
use crate::config::ProjectManifest;
use crate::engine::file_stem;
use crate::environment::{search_path, search_path_from, ResolvedToolchain};
use crate::error::TexeError;
use crate::integrations::{lossy_text, utf8_lossy};
use crate::order::pairs_view;
use crate::setup::{file_name, join_path, join_path_of, parent, strings_view};
use crate::text::{chars_of, eq_str, trim};

verus! {

/// `Path::with_extension`: the file name's extension replaced, or added
/// where it has none; a path without a file name is left as it is.
pub open spec fn with_extension(p: Seq<char>, ext: Seq<char>) -> Seq<char> {
    match file_stem(p) {
        Some(stem) => match parent(p) {
            Some(dir) => join_path(dir, stem + seq!['.'] + ext),
            None => p,
        },
        None => p,
    }
}

/// The path of a glossary file: beside the auxiliary file, under its stem,
/// with the declared extension.
pub open spec fn glossary_path(aux: Seq<char>, ext: Seq<char>) -> Option<Seq<char>> {
    match (file_stem(aux), parent(aux)) {
        (Some(stem), Some(dir)) => Some(with_extension(join_path(dir, stem), ext)),
        _ => None,
    }
}

pub(crate) fn with_extension_of(p: &str, ext: &str) -> (r: String)
    ensures
        r@ == with_extension(p@, ext@),
{
    let stem = match crate::bibliography::file_stem_of(p) {
        Some(s) => s,
        None => return String::from_str(p),
    };
    let dir = match crate::setup::parent_of(p) {
        Some(d) => d,
        None => return String::from_str(p),
    };
    let mut name = crate::text::owned(&stem);
    name.append(".");
    name.append(ext);
    proof {
        reveal_strlit(".");
    }
    assert(name@ =~= stem@ + seq!['.'] + ext@);
    join_path_of(dir.as_str(), name.as_str())
}

/// One MakeIndex run: what it reads, writes and logs, and the style a
/// glossary brings.
#[derive(Debug, Clone, PartialEq, Eq)]
pub struct IndexControl {
    pub input: String,
    pub output: String,
    pub log: String,
    pub style: Option<String>,
}

pub open spec fn control_view(c: IndexControl) -> (Seq<char>, Seq<char>, Seq<char>, Option<Seq<char>>) {
    (
        c.input@,
        c.output@,
        c.log@,
        match c.style {
            Some(s) => Some(s@),
            None => None,
        },
    )
}

/// The run a `\@newglossary` line of an auxiliary file declares.
pub open spec fn glossary_control_of(aux: Seq<char>, log: Seq<char>, output: Seq<char>, input: Seq<char>) -> Option<
    (Seq<char>, Seq<char>, Seq<char>, Option<Seq<char>>),
> {
    match (glossary_path(aux, input), glossary_path(aux, output), glossary_path(aux, log), glossary_path(aux, "ist"@)) {
        (Some(i), Some(o), Some(l), Some(s)) => Some((i, o, l, Some(s))),
        _ => None,
    }
}

pub fn glossary_control(aux: &str, fields: &GlossaryFields) -> (r: Option<IndexControl>)
    ensures
        match glossary_control_of(aux@, fields.log@, fields.output@, fields.input@) {
            Some(v) => r matches Some(c) && control_view(c) == v,
            None => r is None,
        },
{
    let stem = match crate::bibliography::file_stem_of(aux) {
        Some(s) => s,
        None => return None,
    };
    let dir = match crate::setup::parent_of(aux) {
        Some(d) => d,
        None => return None,
    };
    let base = join_path_of(dir.as_str(), crate::text::owned(&stem).as_str());
    Some(
        IndexControl {
            input: with_extension_of(base.as_str(), fields.input.as_str()),
            output: with_extension_of(base.as_str(), fields.output.as_str()),
            log: with_extension_of(base.as_str(), fields.log.as_str()),
            style: Some(with_extension_of(base.as_str(), "ist")),
        },
    )
}

/// The run of an ordinary index: `.idx` in, `.ind` out, `.ilg` log.
pub open spec fn index_control_of(idx: Seq<char>) -> (Seq<char>, Seq<char>, Seq<char>, Option<Seq<char>>) {
    (idx, with_extension(idx, "ind"@), with_extension(idx, "ilg"@), None)
}

pub fn index_control(idx: &str) -> (r: IndexControl)
    ensures
        control_view(r) == index_control_of(idx@),
{
    IndexControl {
        input: String::from_str(idx),
        output: with_extension_of(idx, "ind"),
        log: with_extension_of(idx, "ilg"),
        style: None,
    }
}

/// The runs by input: each glossary, the last declaration of an input
/// winning, then each index that is not a glossary's input.
pub open spec fn glossary_map(gl: Seq<IndexControl>, n: int) -> Map<Seq<char>, (Seq<char>, Seq<char>, Seq<char>, Option<Seq<char>>)>
    decreases n,
{
    if n <= 0 {
        Map::empty()
    } else {
        glossary_map(gl, n - 1).insert(gl[n - 1].input@, control_view(gl[n - 1]))
    }
}

pub open spec fn is_glossary_input(gl: Seq<IndexControl>, path: Seq<char>) -> bool {
    exists|j: int| 0 <= j < gl.len() && (#[trigger] gl[j]).input@ == path
}

pub open spec fn controls_map(gl: Seq<IndexControl>, idx: Seq<Seq<char>>, n: int) -> Map<Seq<char>, (Seq<char>, Seq<char>, Seq<char>, Option<Seq<char>>)>
    decreases n,
{
    if n <= 0 {
        glossary_map(gl, gl.len() as int)
    } else if is_glossary_input(gl, idx[n - 1]) {
        controls_map(gl, idx, n - 1)
    } else {
        controls_map(gl, idx, n - 1).insert(idx[n - 1], index_control_of(idx[n - 1]))
    }
}

/// `v` holds exactly the runs of `m`, one per input.
pub open spec fn represents(v: Seq<IndexControl>, m: Map<Seq<char>, (Seq<char>, Seq<char>, Seq<char>, Option<Seq<char>>)>) -> bool {
    &&& forall|i: int| 0 <= i < v.len() ==> m.dom().contains(#[trigger] v[i].input@) && m[v[i].input@] == control_view(v[i])
    &&& forall|k: Seq<char>| m.dom().contains(k) ==> exists|i: int| 0 <= i < v.len() && (#[trigger] v[i]).input@ == k
    &&& forall|i: int, j: int| 0 <= i < j < v.len() ==> (#[trigger] v[i]).input@ != (#[trigger] v[j]).input@
}

fn put_control(v: &mut Vec<IndexControl>, c: IndexControl, Ghost(m): Ghost<Map<Seq<char>, (Seq<char>, Seq<char>, Seq<char>, Option<Seq<char>>)>>)
    requires
        represents(old(v)@, m),
    ensures
        represents(final(v)@, m.insert(c.input@, control_view(c))),
{
    let ghost k = c.input@;
    let ghost m2 = m.insert(k, control_view(c));
    let mut j: usize = 0;
    while j < v.len()
        invariant
            j <= v.len(),
            v@ == old(v)@,
            represents(v@, m),
            k == c.input@,
            m2 == m.insert(k, control_view(c)),
            forall|q: int| 0 <= q < j ==> (#[trigger] v@[q]).input@ != k,
        decreases v.len() - j,
    {
        if eq_str(&chars_of(v[j].input.as_str()), c.input.as_str()) {
            let ghost before = v@;
            v.set(j, c);
            proof {
                assert forall|i: int| 0 <= i < v@.len() implies m2.dom().contains(#[trigger] v@[i].input@) && m2[v@[i].input@]
                    == control_view(v@[i]) by {
                    if i != j {
                        assert(v@[i] == before[i]);
                        assert(before[i].input@ != before[j as int].input@ || i == j);
                    }
                }
                assert forall|q: Seq<char>| m2.dom().contains(q) implies exists|i: int| 0 <= i < v@.len() && (#[trigger] v@[i]).input@
                    == q by {
                    if q == k {
                        assert(v@[j as int].input@ == q);
                    } else {
                        let i = choose|i: int| 0 <= i < before.len() && (#[trigger] before[i]).input@ == q;
                        assert(v@[i] == before[i]);
                    }
                }
                assert forall|a: int, b: int| 0 <= a < b < v@.len() implies (#[trigger] v@[a]).input@ != (#[trigger] v@[b]).input@ by {
                    if a != j && b != j {
                        assert(v@[a] == before[a] && v@[b] == before[b]);
                    } else if a == j {
                        assert(v@[b] == before[b]);
                        assert(before[a].input@ != before[b].input@);
                    } else {
                        assert(v@[a] == before[a]);
                        assert(before[a].input@ != before[b].input@);
                    }
                }
            }
            return;
        }
        j += 1;
    }
    let ghost before = v@;
    v.push(c);
    proof {
        assert forall|i: int| 0 <= i < v@.len() implies m2.dom().contains(#[trigger] v@[i].input@) && m2[v@[i].input@]
            == control_view(v@[i]) by {
            if i < before.len() {
                assert(v@[i] == before[i]);
            }
        }
        assert forall|q: Seq<char>| m2.dom().contains(q) implies exists|i: int| 0 <= i < v@.len() && (#[trigger] v@[i]).input@ == q by {
            if q == k {
                assert(v@[before.len() as int].input@ == q);
            } else {
                let i = choose|i: int| 0 <= i < before.len() && (#[trigger] before[i]).input@ == q;
                assert(v@[i] == before[i]);
            }
        }
        assert forall|a: int, b: int| 0 <= a < b < v@.len() implies (#[trigger] v@[a]).input@ != (#[trigger] v@[b]).input@ by {
            assert(v@[a] == before[a]);
            if b < before.len() {
                assert(v@[b] == before[b]);
            }
        }
    }
}

fn copy_control(c: &IndexControl) -> (r: IndexControl)
    ensures
        control_view(r) == control_view(*c),
        r.input@ == c.input@,
{
    IndexControl {
        input: String::from_str(c.input.as_str()),
        output: String::from_str(c.output.as_str()),
        log: String::from_str(c.log.as_str()),
        style: match &c.style {
            Some(s) => Some(String::from_str(s.as_str())),
            None => None,
        },
    }
}

/// The MakeIndex runs of a build, one per input: the glossaries the
/// auxiliary files declare (whose inputs exist), then the indexes found.
pub fn index_controls_of(glossaries: &Vec<IndexControl>, indexes: &Vec<String>) -> (r: Vec<IndexControl>)
    ensures
        represents(r@, controls_map(glossaries@, strings_view(indexes@), indexes@.len() as int)),
{
    let ghost gl = glossaries@;
    let ghost iv = strings_view(indexes@);
    let mut r: Vec<IndexControl> = Vec::new();
    let mut i: usize = 0;
    while i < glossaries.len()
        invariant
            i <= glossaries.len(),
            gl == glossaries@,
            represents(r@, glossary_map(gl, i as int)),
        decreases glossaries.len() - i,
    {
        put_control(&mut r, copy_control(&glossaries[i]), Ghost(glossary_map(gl, i as int)));
        i += 1;
    }
    let mut n: usize = 0;
    while n < indexes.len()
        invariant
            n <= indexes.len(),
            gl == glossaries@,
            iv == strings_view(indexes@),
            represents(r@, controls_map(gl, iv, n as int)),
        decreases indexes.len() - n,
    {
        let mut is_glossary = false;
        let mut j: usize = 0;
        while j < glossaries.len()
            invariant
                j <= glossaries.len(),
                n < indexes.len(),
                gl == glossaries@,
                iv == strings_view(indexes@),
                is_glossary == exists|q: int| 0 <= q < j && (#[trigger] gl[q]).input@ == iv[n as int],
            decreases glossaries.len() - j,
        {
            assert(iv[n as int] == indexes@[n as int]@);
            if eq_str(&chars_of(glossaries[j].input.as_str()), indexes[n].as_str()) {
                is_glossary = true;
            }
            j += 1;
        }
        if !is_glossary {
            let c = index_control(indexes[n].as_str());
            assert(c.input@ == iv[n as int]);
            put_control(&mut r, c, Ghost(controls_map(gl, iv, n as int)));
        }
        n += 1;
    }
    r
}

/// What a MakeIndex run needs: the directory it runs in and its
/// arguments, which name files relative to that directory.
pub open spec fn makeindex_command_of(c: (Seq<char>, Seq<char>, Seq<char>, Option<Seq<char>>), style_exists: bool) -> Result<
    (Seq<char>, Seq<Seq<char>>),
    Seq<char>,
> {
    let (input, output, log, style) = c;
    match parent(input) {
        None => Err("index control file has no parent: "@ + input),
        Some(dir) => {
            let style_args: Result<Seq<Seq<char>>, Seq<char>> = match style {
                None => Ok(Seq::empty()),
                Some(s) => if !style_exists {
                    Err("glossary input "@ + input + " has no generated MakeIndex style "@ + s)
                } else {
                    match file_name(s) {
                        Some(n) => Ok(seq!["-s"@, n]),
                        None => Err("index path has no filename: "@ + s),
                    }
                },
            };
            match style_args {
                Err(m) => Err(m),
                Ok(sa) => match (file_name(log), file_name(output), file_name(input)) {
                    (Some(l), Some(o), Some(i)) => Ok((dir, sa + seq!["-t"@, l, "-o"@, o, i])),
                    (None, _, _) => Err("index path has no filename: "@ + log),
                    (_, None, _) => Err("index path has no filename: "@ + output),
                    (_, _, None) => Err("index path has no filename: "@ + input),
                },
            }
        },
    }
}

fn local_name(path: &str) -> (r: Result<String, TexeError>)
    ensures
        match file_name(path@) {
            Some(n) => r matches Ok(x) && x@ == n,
            None => r matches Err(TexeError::Build(m)) && m@ == "index path has no filename: "@ + path@,
        },
{
    match crate::setup::file_name_of(path) {
        Some(n) => Ok(crate::text::owned(&n)),
        None => {
            let mut m = String::from_str("index path has no filename: ");
            m.append(path);
            Err(TexeError::Build(m))
        },
    }
}

/// The directory and arguments of a MakeIndex run; `style_exists` says
/// whether a glossary's generated style is there.
pub fn makeindex_command(control: &IndexControl, style_exists: bool) -> (r: Result<(String, Vec<String>), TexeError>)
    ensures
        match makeindex_command_of(control_view(*control), style_exists) {
            Ok((dir, args)) => r matches Ok((d, a)) && d@ == dir && strings_view(a@) == args,
            Err(m) => r matches Err(TexeError::Build(e)) && e@ == m,
        },
{
    let dir = match crate::setup::parent_of(control.input.as_str()) {
        Some(d) => d,
        None => {
            let mut m = String::from_str("index control file has no parent: ");
            m.append(control.input.as_str());
            return Err(TexeError::Build(m));
        },
    };
    let mut arguments: Vec<String> = Vec::new();
    match &control.style {
        Some(style) => {
            if !style_exists {
                let mut m = String::from_str("glossary input ");
                m.append(control.input.as_str());
                m.append(" has no generated MakeIndex style ");
                m.append(style.as_str());
                return Err(TexeError::Build(m));
            }
            let name = local_name(style.as_str())?;
            arguments.push(String::from_str("-s"));
            arguments.push(name);
        },
        None => {},
    }
    let ghost head = strings_view(arguments@);
    let log = local_name(control.log.as_str())?;
    let output = local_name(control.output.as_str())?;
    let input = local_name(control.input.as_str())?;
    arguments.push(String::from_str("-t"));
    arguments.push(log);
    arguments.push(String::from_str("-o"));
    arguments.push(output);
    arguments.push(input);
    proof {
        let v = control_view(*control);
        assert(strings_view(arguments@) =~= head + seq!["-t"@, file_name(v.2)->0, "-o"@, file_name(v.1)->0, file_name(v.0)->0]);
        match v.3 {
            Some(s) => {
                assert(head =~= seq!["-s"@, file_name(s)->0]);
            },
            None => {
                assert(head =~= Seq::<Seq<char>>::empty());
            },
        }
    }
    Ok((dir, arguments))
}

/// MakeIndex of a managed runtime where the manifest keeps the default
/// command; otherwise the configured command is looked up.
pub open spec fn managed_makeindex(m: ProjectManifest, t: ResolvedToolchain) -> Option<Seq<char>> {
    match t.managed {
        Some(r) => if m.index.makeindex@ == "makeindex"@ {
            Some(join_path(r.binary_dir@, "makeindex"@))
        } else {
            None
        },
        None => None,
    }
}

pub fn makeindex_executable(manifest: &ProjectManifest, toolchain: &ResolvedToolchain) -> (r: Option<String>)
    ensures
        crate::trace::opt_string_view(r) == managed_makeindex(*manifest, *toolchain),
{
    match &toolchain.managed {
        Some(runtime) => if eq_str(&chars_of(manifest.index.makeindex.as_str()), "makeindex") {
            Some(join_path_of(runtime.binary_dir.as_str(), "makeindex"))
        } else {
            None
        },
        None => None,
    }
}

/// The environment of a MakeIndex run: its style search path (the project,
/// the output directory, the package tree and a managed runtime's styles),
/// and for a managed runtime only its binaries.
pub open spec fn index_environment_of(project_root: Seq<char>, texmf: Seq<char>, output_dir: Seq<char>, t: ResolvedToolchain) -> Seq<
    (Seq<char>, Seq<char>),
> {
    let roots = seq![project_root, output_dir, join_path(texmf, "makeindex"@)] + match t.managed {
        Some(r) => seq![join_path(r.root@, "texmf-dist/makeindex"@)],
        None => Seq::empty(),
    };
    seq![("INDEXSTYLE"@, search_path(roots))] + match t.managed {
        Some(r) => seq![("PATH"@, r.binary_dir@)],
        None => Seq::empty(),
    }
}

pub fn index_environment(
    project_root: &str,
    texmf: &str,
    output_dir: &str,
    toolchain: &ResolvedToolchain,
    working_directory: &str,
) -> (r: Vec<(String, String)>)
    ensures
        pairs_view(r@) == index_environment_of(project_root@, texmf@, output_dir@, *toolchain),
{
    let mut roots: Vec<String> = Vec::new();
    roots.push(String::from_str(project_root));
    roots.push(String::from_str(output_dir));
    roots.push(join_path_of(texmf, "makeindex"));
    match &toolchain.managed {
        Some(runtime) => {
            roots.push(join_path_of(runtime.root.as_str(), "texmf-dist/makeindex"));
        },
        None => {},
    }
    proof {
        let base = seq![project_root@, output_dir@, join_path(texmf@, "makeindex"@)];
        let managed = toolchain.managed;
        match managed {
            Some(rt) => {
                assert(strings_view(roots@) =~= base + seq![join_path(rt.root@, "texmf-dist/makeindex"@)]);
            },
            None => {
                assert(strings_view(roots@) =~= base + Seq::<Seq<char>>::empty());
            },
        }
    }
    let mut env: Vec<(String, String)> = Vec::new();
    crate::environment::push_pair(&mut env, "INDEXSTYLE", search_path_from(&roots, working_directory));
    let ghost head = pairs_view(env@);
    match &toolchain.managed {
        Some(runtime) => {
            crate::environment::push_pair(&mut env, "PATH", String::from_str(runtime.binary_dir.as_str()));
        },
        None => {
            assert(head + Seq::<(Seq<char>, Seq<char>)>::empty() == head);
        },
    }
    env
}

/// Why a MakeIndex run failed: its own log where that says anything, else
/// what it printed.
pub open spec fn makeindex_failure_text(input: Seq<char>, status: Seq<char>, log: Seq<char>, stdout: Seq<u8>, stderr: Seq<u8>) -> Seq<char> {
    let detail = if trim(log).len() == 0 {
        utf8_lossy(stdout) + "\n"@ + utf8_lossy(stderr)
    } else {
        log
    };
    "MakeIndex failed for "@ + input + " with status "@ + status + ":\n"@ + trim(detail)
}

pub fn makeindex_failure(input: &str, status: &str, log: &str, stdout: &[u8], stderr: &[u8]) -> (r: TexeError)
    ensures
        r matches TexeError::Build(m) && m@ == makeindex_failure_text(input@, status@, log@, stdout@, stderr@),
{
    let detail = if crate::config::is_blank(&String::from_str(log)) {
        let mut d = lossy_text(stdout);
        d.append("\n");
        d.append(lossy_text(stderr).as_str());
        d
    } else {
        String::from_str(log)
    };
    let mut m = String::from_str("MakeIndex failed for ");
    m.append(input);
    m.append(" with status ");
    m.append(status);
    m.append(":\n");
    m.append(crate::buildlog::trimmed_text(&detail).as_str());
    TexeError::Build(m)
}

} // verus!
