//! How texe runs the TeX engine: the formats it builds for a toolchain, the
//! arguments of format and document runs, the fontconfig file of a system
//! toolchain, and which outputs count as auxiliary files.
use vstd::prelude::*;
use crate::environment::{
    font_map_roots, input_environment, managed_dist, optional_root, search_path, search_path_from,
    source_date, tree_environment, EngineEnvironmentContext, ResolvedToolchain,
};
use crate::error::TexeError;
use crate::order::pairs_view;
use crate::setup::{file_name, join_path, join_path_of, strings_view};
use crate::text::{chars_of, ends_with, eq_str, extension, push_char, rfind_char, word_chars};
use crate::trace::opt_string_view;

verus! {

/// How texe builds the format of an engine.
#[derive(Debug, Clone)]
pub struct FormatRecipe {
    pub name: String,
    pub ini: String,
    pub translate_file: Option<String>,
    pub language_lua: bool,
    pub extended_mode: bool,
}

/// The recipe for each engine that has one: its name, its `.ini` file, its
/// character translation file, whether it reads Lua hyphenation data, and
/// whether it runs in e-TeX mode.
pub open spec fn recipe_of(engine: Seq<char>) -> Option<(Seq<char>, Seq<char>, Option<Seq<char>>, bool, bool)> {
    if engine == "pdflatex"@ {
        Some(("pdflatex"@, "pdflatex.ini"@, Some("cp227.tcx"@), false, true))
    } else if engine == "lualatex"@ {
        Some(("lualatex"@, "lualatex.ini"@, None, true, false))
    } else if engine == "xelatex"@ {
        Some(("xelatex"@, "xelatex.ini"@, None, false, true))
    } else {
        None
    }
}

/// The name of an engine's format, where it has a recipe.
pub open spec fn format_name_of(engine: Seq<char>) -> Option<Seq<char>> {
    match recipe_of(engine) {
        Some(x) => Some(x.0),
        None => None,
    }
}

pub open spec fn recipe_view(r: FormatRecipe) -> (Seq<char>, Seq<char>, Option<Seq<char>>, bool, bool) {
    (r.name@, r.ini@, opt_string_view(r.translate_file), r.language_lua, r.extended_mode)
}

pub open spec fn no_recipe_message(engine: Seq<char>) -> Seq<char> {
    "engine `"@ + engine + "` has no locked format recipe"@
}

pub fn format_recipe(engine: &str) -> (r: Result<FormatRecipe, TexeError>)
    ensures
        match recipe_of(engine@) {
            Some(x) => r matches Ok(rec) && recipe_view(rec) == x,
            None => r matches Err(TexeError::Build(m)) && m@ == no_recipe_message(engine@),
        },
{
    let e = chars_of(engine);
    proof {
        reveal_strlit("pdflatex");
        reveal_strlit("lualatex");
        reveal_strlit("xelatex");
    }
    if eq_str(&e, "pdflatex") {
        Ok(FormatRecipe {
            name: String::from_str("pdflatex"),
            ini: String::from_str("pdflatex.ini"),
            translate_file: Some(String::from_str("cp227.tcx")),
            language_lua: false,
            extended_mode: true,
        })
    } else if eq_str(&e, "lualatex") {
        Ok(FormatRecipe {
            name: String::from_str("lualatex"),
            ini: String::from_str("lualatex.ini"),
            translate_file: None,
            language_lua: true,
            extended_mode: false,
        })
    } else if eq_str(&e, "xelatex") {
        Ok(FormatRecipe {
            name: String::from_str("xelatex"),
            ini: String::from_str("xelatex.ini"),
            translate_file: None,
            language_lua: false,
            extended_mode: true,
        })
    } else {
        let mut m = String::from_str("engine `");
        m.append(engine);
        m.append("` has no locked format recipe");
        Err(TexeError::Build(m))
    }
}

/// The name of the format texe builds for an engine.
pub fn name(engine: &str) -> (r: Result<String, TexeError>)
    ensures
        match recipe_of(engine@) {
            Some(x) => r matches Ok(n) && n@ == x.0,
            None => r matches Err(TexeError::Build(m)) && m@ == no_recipe_message(engine@),
        },
{
    let recipe = format_recipe(engine)?;
    Ok(recipe.name)
}

/// The cache key of a package environment: its fingerprint without the
/// `sha256:` prefix, which must be a non-empty run of ASCII letters,
/// digits, `-` and `_`.
pub open spec fn cache_key_of(fingerprint: Seq<char>) -> Option<Seq<char>> {
    let key = if crate::text::starts_with(fingerprint, "sha256:"@) {
        fingerprint.subrange(7, fingerprint.len() as int)
    } else {
        fingerprint
    };
    if key.len() > 0 && word_chars(key, "-_"@) {
        Some(key)
    } else {
        None
    }
}

pub fn environment_cache_key(fingerprint: &str) -> (r: Result<String, TexeError>)
    ensures
        match cache_key_of(fingerprint@) {
            Some(k) => r matches Ok(x) && x@ == k,
            None => r matches Err(TexeError::Build(m)) && m@ == "pqty emitted an unsafe environment fingerprint: "@
                + fingerprint@,
        },
{
    let f = chars_of(fingerprint);
    let key = if crate::text::starts_with_str(&f, "sha256:") {
        proof {
            reveal_strlit("sha256:");
        }
        crate::text::slice_of(&f, 7, f.len())
    } else {
        crate::text::slice_of(&f, 0, f.len())
    };
    assert(f@.subrange(0, f@.len() as int) == f@);
    if key.len() == 0 || !crate::text::all_word_chars(&key, "-_") {
        let mut m = String::from_str("pqty emitted an unsafe environment fingerprint: ");
        m.append(fingerprint);
        return Err(TexeError::Build(m));
    }
    Ok(crate::text::owned(&key))
}

/// The `.ini` file a format is built from, in the locked package tree.
pub open spec fn locked_format_ini(texmf: Seq<char>, ini: Seq<char>) -> Seq<char> {
    join_path(join_path(texmf, "tex/latex/tex-ini-files"@), ini)
}

/// The TeX Live tree the engine bootstraps from: the managed runtime's, or
/// the system toolchain's.
pub open spec fn runtime_texmf(t: ResolvedToolchain) -> Seq<char> {
    match t.managed {
        Some(m) => join_path(m.root@, "texmf-dist"@),
        None => t.texmf_dist@,
    }
}

/// The arguments of a format build.
pub open spec fn format_arguments_of(t: ResolvedToolchain, recipe: FormatRecipe, texmf: Seq<char>, formats: Seq<char>) -> Seq<Seq<char>> {
    seq![
        "-ini"@,
        "-recorder"@,
        "-interaction=nonstopmode"@,
        "-halt-on-error"@,
        "-jobname="@ + recipe.name@,
        "-progname="@ + recipe.name@,
    ] + (if recipe.extended_mode {
        seq!["-etex"@]
    } else {
        Seq::empty()
    }) + match recipe.translate_file {
        Some(tf) => seq!["-translate-file="@ + join_path(join_path(runtime_texmf(t), "web2c"@), tf@)],
        None => Seq::empty(),
    } + seq!["-output-directory="@ + formats, locked_format_ini(texmf, recipe.ini@)]
}

fn prefixed(prefix: &str, value: &str) -> (r: String)
    ensures
        r@ == prefix@ + value@,
{
    let mut r = String::from_str(prefix);
    r.append(value);
    r
}

fn push_text(v: &mut Vec<String>, s: String)
    ensures
        strings_view(final(v)@) == strings_view(old(v)@).push(s@),
{
    let ghost before = strings_view(v@);
    v.push(s);
    assert(strings_view(v@) =~= before.push(s@));
}

pub fn format_arguments(
    toolchain: &ResolvedToolchain,
    recipe: &FormatRecipe,
    texmf: &str,
    formats: &str,
    project_root: &str,
) -> (r: Vec<String>)
    ensures
        strings_view(r@) == format_arguments_of(*toolchain, *recipe, texmf@, formats@),
{
    let mut a: Vec<String> = Vec::new();
    push_text(&mut a, String::from_str("-ini"));
    push_text(&mut a, String::from_str("-recorder"));
    push_text(&mut a, String::from_str("-interaction=nonstopmode"));
    push_text(&mut a, String::from_str("-halt-on-error"));
    push_text(&mut a, prefixed("-jobname=", recipe.name.as_str()));
    push_text(&mut a, prefixed("-progname=", recipe.name.as_str()));
    let ghost head = strings_view(a@);
    if recipe.extended_mode {
        push_text(&mut a, String::from_str("-etex"));
    }
    let ghost second = strings_view(a@);
    assert(second =~= head + if recipe.extended_mode {
        seq!["-etex"@]
    } else {
        Seq::<Seq<char>>::empty()
    });
    match &recipe.translate_file {
        Some(tf) => {
            let base = match &toolchain.managed {
                Some(m) => join_path_of(m.root.as_str(), "texmf-dist"),
                None => String::from_str(toolchain.texmf_dist.as_str()),
            };
            let web2c = join_path_of(base.as_str(), "web2c");
            let file = join_path_of(web2c.as_str(), tf.as_str());
            push_text(&mut a, prefixed("-translate-file=", file.as_str()));
        },
        None => {},
    }
    let ghost third = strings_view(a@);
    push_text(&mut a, prefixed("-output-directory=", formats));
    let dir = join_path_of(texmf, "tex/latex/tex-ini-files");
    push_text(&mut a, join_path_of(dir.as_str(), recipe.ini.as_str()));
    assert(strings_view(a@) =~= third + seq!["-output-directory="@ + formats@, locked_format_ini(texmf@, recipe.ini@)]);
    a
}

/// The environment of a format build in `staging`: like an engine run's
/// over the staging tree, with the format's own clock of 0 (formats are
/// shared between projects, so no project's date may enter them).
pub open spec fn format_environment_of(t: ResolvedToolchain, recipe_name: Seq<char>, staging: Seq<char>, formats: Seq<char>, texmf: Seq<char>) -> Seq<(Seq<char>, Seq<char>)> {
    let system_var = match t.managed {
        Some(m) => join_path(m.root@, "texmf-var"@),
        None => join_path(staging, "var"@),
    };
    let system_config = match t.managed {
        Some(m) => join_path(m.root@, "texmf-config"@),
        None => join_path(staging, "user-config"@),
    };
    let search = search_path(seq![staging, join_path(staging, "config"@), texmf] + optional_root(managed_dist(t)));
    tree_environment(
        texmf,
        join_path(staging, "var"@),
        join_path(staging, "user-config"@),
        system_var,
        system_config,
        formats,
        search_path(font_map_roots(staging, texmf, managed_dist(t))),
    ) + input_environment(recipe_name, search) + match t.managed {
        Some(m) => seq![("OSFONTDIR"@, join_path(texmf, "fonts"@)), ("PATH"@, m.binary_dir@)],
        None => Seq::empty(),
    } + source_date("0"@)
}

pub fn format_environment(
    toolchain: &ResolvedToolchain,
    recipe_name: &str,
    staging: &str,
    formats: &str,
    texmf: &str,
    project_root: &str,
) -> (r: Vec<(String, String)>)
    ensures
        pairs_view(r@) == format_environment_of(*toolchain, recipe_name@, staging@, formats@, texmf@),
{
    let dist = crate::environment::managed_dist_of(toolchain);
    let (system_var, system_config) = match &toolchain.managed {
        Some(m) => (join_path_of(m.root.as_str(), "texmf-var"), join_path_of(m.root.as_str(), "texmf-config")),
        None => (join_path_of(staging, "var"), join_path_of(staging, "user-config")),
    };
    let maps = crate::environment::font_map_roots_of(staging, texmf, &dist);
    let mut env = crate::environment::tree_environment_of(
        String::from_str(texmf),
        join_path_of(staging, "var"),
        join_path_of(staging, "user-config"),
        system_var,
        system_config,
        String::from_str(formats),
        search_path_from(&maps, project_root),
    );
    let mut roots: Vec<String> = Vec::new();
    roots.push(String::from_str(staging));
    roots.push(join_path_of(staging, "config"));
    roots.push(String::from_str(texmf));
    assert(strings_view(roots@) =~= seq![staging@, join_path(staging@, "config"@), texmf@]);
    crate::environment::push_optional(&mut roots, dist);
    let search = search_path_from(&roots, project_root);
    crate::environment::append_pairs(&mut env, crate::environment::engine_input_environment(recipe_name, search.as_str()));
    match &toolchain.managed {
        Some(m) => {
            let mut fonts: Vec<(String, String)> = Vec::new();
            crate::environment::push_pair(&mut fonts, "OSFONTDIR", join_path_of(texmf, "fonts"));
            crate::environment::push_pair(&mut fonts, "PATH", String::from_str(m.binary_dir.as_str()));
            crate::environment::append_pairs(&mut env, fonts);
        },
        None => {
            let ghost before = pairs_view(env@);
            assert(before + Seq::<(Seq<char>, Seq<char>)>::empty() == before);
        },
    }
    crate::environment::append_pairs(&mut env, crate::environment::source_date_environment("0"));
    env
}

/// Discovery runs keep going past a missing input, so that one trace names
/// every dependency of the pass; verification and final runs stop at the
/// first error.
pub open spec fn interaction_arguments(halt_on_error: bool) -> Seq<Seq<char>> {
    seq!["-interaction=nonstopmode"@, "-file-line-error"@] + if halt_on_error {
        seq!["-halt-on-error"@]
    } else {
        Seq::empty()
    }
}

pub fn engine_interaction_arguments(halt_on_error: bool) -> (r: Vec<String>)
    ensures
        strings_view(r@) == interaction_arguments(halt_on_error),
{
    let mut a: Vec<String> = Vec::new();
    push_text(&mut a, String::from_str("-interaction=nonstopmode"));
    push_text(&mut a, String::from_str("-file-line-error"));
    if halt_on_error {
        push_text(&mut a, String::from_str("-halt-on-error"));
    }
    assert(strings_view(a@) =~= interaction_arguments(halt_on_error));
    a
}

/// The arguments of an engine run over `entry`: the managed format where
/// one is used, the interaction mode, the recorder and SyncTeX, shell
/// escape only where the project opts out of reproducibility, and the
/// output directory.
pub open spec fn engine_arguments_of(
    format_name: Option<Seq<char>>,
    halt_on_error: bool,
    shell_escape: bool,
    output_dir: Seq<char>,
    entry: Seq<char>,
) -> Seq<Seq<char>> {
    (match format_name {
        Some(n) => seq!["-fmt="@ + n, "-progname="@ + n],
        None => Seq::empty(),
    }) + interaction_arguments(halt_on_error) + seq![
        "-recorder"@,
        "-synctex=1"@,
        if shell_escape {
            "-shell-escape"@
        } else {
            "-no-shell-escape"@
        },
        "-output-directory="@ + output_dir,
        entry,
    ]
}

pub fn engine_arguments(
    engine: &str,
    managed_format: bool,
    halt_on_error: bool,
    shell_escape: bool,
    output_dir: &str,
    entry: &str,
) -> (r: Result<Vec<String>, TexeError>)
    ensures
        managed_format && recipe_of(engine@) is None ==> (r matches Err(TexeError::Build(m)) && m@
            == no_recipe_message(engine@)),
        !(managed_format && recipe_of(engine@) is None) ==> (r matches Ok(a) && strings_view(a@)
            == engine_arguments_of(
            if managed_format {
                format_name_of(engine@)
            } else {
                None
            },
            halt_on_error,
            shell_escape,
            output_dir@,
            entry@,
        )),
{
    let mut a: Vec<String> = Vec::new();
    if managed_format {
        let n = name(engine)?;
        push_text(&mut a, prefixed("-fmt=", n.as_str()));
        push_text(&mut a, prefixed("-progname=", n.as_str()));
    }
    let ghost head = strings_view(a@);
    let interaction = engine_interaction_arguments(halt_on_error);
    let mut i: usize = 0;
    while i < interaction.len()
        invariant
            i <= interaction.len(),
            strings_view(interaction@) == interaction_arguments(halt_on_error),
            strings_view(a@) == head + strings_view(interaction@).subrange(0, i as int),
        decreases interaction.len() - i,
    {
        let ghost prev = strings_view(a@);
        push_text(&mut a, String::from_str(interaction[i].as_str()));
        assert(strings_view(interaction@).subrange(0, i + 1) == strings_view(interaction@).subrange(0, i as int).push(interaction@[i as int]@));
        i += 1;
    }
    assert(strings_view(interaction@).subrange(0, interaction@.len() as int) == strings_view(interaction@));
    let ghost middle = strings_view(a@);
    push_text(&mut a, String::from_str("-recorder"));
    push_text(&mut a, String::from_str("-synctex=1"));
    push_text(&mut a, String::from_str(if shell_escape { "-shell-escape" } else { "-no-shell-escape" }));
    push_text(&mut a, prefixed("-output-directory=", output_dir));
    push_text(&mut a, String::from_str(entry));
    assert(strings_view(a@) =~= middle + seq![
        "-recorder"@,
        "-synctex=1"@,
        if shell_escape {
            "-shell-escape"@
        } else {
            "-no-shell-escape"@
        },
        "-output-directory="@ + output_dir@,
        entry@,
    ]);
    proof {
        let f = if managed_format {
            format_name_of(engine@)
        } else {
            None
        };
        assert(head == match f {
            Some(n) => seq!["-fmt="@ + n, "-progname="@ + n],
            None => Seq::<Seq<char>>::empty(),
        });
    }
    Ok(a)
}

/// The XML escape of one character.
pub open spec fn xml_char(c: char) -> Seq<char> {
    if c == '&' {
        "&amp;"@
    } else if c == '<' {
        "&lt;"@
    } else if c == '>' {
        "&gt;"@
    } else if c == '"' {
        "&quot;"@
    } else if c == '\'' {
        "&apos;"@
    } else {
        seq![c]
    }
}

/// Text made safe to stand between XML tags or in an attribute.
pub open spec fn xml_escaped(s: Seq<char>) -> Seq<char> {
    s.map_values(|c: char| xml_char(c)).flatten()
}

pub fn xml_text(value: &str) -> (r: String)
    ensures
        r@ == xml_escaped(value@),
{
    let v = chars_of(value);
    let mut r = String::new();
    let mut i: usize = 0;
    while i < v.len()
        invariant
            i <= v.len(),
            v@ == value@,
            r@ == v@.subrange(0, i as int).map_values(|c: char| xml_char(c)).flatten(),
        decreases v.len() - i,
    {
        let c = v[i];
        let ghost prev = r@;
        if c == '&' {
            r.append("&amp;");
        } else if c == '<' {
            r.append("&lt;");
        } else if c == '>' {
            r.append("&gt;");
        } else if c == '"' {
            r.append("&quot;");
        } else if c == '\'' {
            r.append("&apos;");
        } else {
            push_char(&mut r, c);
        }
        proof {
            let f = |c: char| xml_char(c);
            let a = v@.subrange(0, i as int);
            assert(v@.subrange(0, i + 1) == a.push(c));
            assert(a.push(c).map_values(f) == a.map_values(f).push(f(c)));
            a.map_values(f).lemma_flatten_push(f(c));
            assert(r@ == prev + xml_char(c));
        }
        i += 1;
    }
    assert(v@.subrange(0, v@.len() as int) == v@);
    r
}

/// The fontconfig file of a system toolchain: the host's configuration,
/// with the locked fonts and a private cache added.
pub open spec fn fontconfig_text(output_dir: Seq<char>, texmf: Seq<char>) -> Seq<char> {
    "<?xml version=\"1.0\"?>\n<!DOCTYPE fontconfig SYSTEM \"urn:fontconfig:fonts.dtd\">\n<fontconfig>\n<include ignore_missing=\"yes\">/etc/fonts/fonts.conf</include>\n<include ignore_missing=\"yes\">/usr/local/etc/fonts/fonts.conf</include>\n<dir>"@
        + xml_escaped(join_path(texmf, "fonts"@)) + "</dir>\n<cachedir>"@ + xml_escaped(
        join_path(output_dir, "fontconfig-cache"@),
    ) + "</cachedir>\n</fontconfig>\n"@
}

pub fn system_fontconfig(output_dir: &str, texmf: &str) -> (r: String)
    ensures
        r@ == fontconfig_text(output_dir@, texmf@),
{
    let fonts = xml_text(join_path_of(texmf, "fonts").as_str());
    let cache = xml_text(join_path_of(output_dir, "fontconfig-cache").as_str());
    let mut r = String::from_str(
        "<?xml version=\"1.0\"?>\n<!DOCTYPE fontconfig SYSTEM \"urn:fontconfig:fonts.dtd\">\n<fontconfig>\n<include ignore_missing=\"yes\">/etc/fonts/fonts.conf</include>\n<include ignore_missing=\"yes\">/usr/local/etc/fonts/fonts.conf</include>\n<dir>",
    );
    r.append(fonts.as_str());
    r.append("</dir>\n<cachedir>");
    r.append(cache.as_str());
    r.append("</cachedir>\n</fontconfig>\n");
    r
}

/// The extensions of the files whose changes mean another pass is needed.
pub open spec fn auxiliary_extension(e: Seq<char>) -> bool {
    e == "aux"@ || e == "toc"@ || e == "out"@ || e == "lof"@ || e == "lot"@ || e == "bbl"@ || e == "bcf"@
        || e == "idx"@ || e == "ind"@ || e == "ilg"@ || e == "glo"@ || e == "glg"@ || e == "gls"@ || e
        == "acn"@ || e == "alg"@ || e == "acr"@ || e == "nav"@ || e == "snm"@
}

/// An output that feeds the next pass: by its extension, or a Biber
/// control file (`.run.xml`).
pub open spec fn is_auxiliary_path(path: Seq<char>) -> bool {
    match file_name(path) {
        Some(n) => match extension(n) {
            Some(e) => auxiliary_extension(e) || ends_with(n, ".run.xml"@),
            None => ends_with(n, ".run.xml"@),
        },
        None => false,
    }
}

pub fn is_auxiliary(path: &str) -> (r: bool)
    ensures
        r == is_auxiliary_path(path@),
{
    let n = match crate::setup::file_name_of(path) {
        Some(n) => n,
        None => return false,
    };
    let run = crate::text::ends_with_str(&n, ".run.xml");
    match crate::text::extension_of(&n) {
        Some(e) => {
            let listed = eq_str(&e, "aux") || eq_str(&e, "toc") || eq_str(&e, "out") || eq_str(&e, "lof")
                || eq_str(&e, "lot") || eq_str(&e, "bbl") || eq_str(&e, "bcf") || eq_str(&e, "idx")
                || eq_str(&e, "ind") || eq_str(&e, "ilg") || eq_str(&e, "glo") || eq_str(&e, "glg")
                || eq_str(&e, "gls") || eq_str(&e, "acn") || eq_str(&e, "alg") || eq_str(&e, "acr")
                || eq_str(&e, "nav") || eq_str(&e, "snm");
            listed || run
        },
        None => run,
    }
}

/// `Path::file_stem`: the file name without its last extension.
pub open spec fn file_stem(path: Seq<char>) -> Option<Seq<char>> {
    match file_name(path) {
        Some(n) => Some(
            match rfind_char(n, '.') {
                Some(k) => if k == 0 {
                    n
                } else {
                    n.subrange(0, k)
                },
                None => n,
            },
        ),
        None => None,
    }
}

/// The job name of an entry: its file stem, which must not be empty.
pub fn job_stem(entry: &str) -> (r: Result<String, TexeError>)
    ensures
        match file_stem(entry@) {
            Some(s) => if s.len() > 0 {
                r matches Ok(x) && x@ == s
            } else {
                r matches Err(TexeError::Manifest(m)) && m@ == "project entry must have a UTF-8 file stem: "@ + entry@
            },
            None => r matches Err(TexeError::Manifest(m)) && m@ == "project entry must have a UTF-8 file stem: "@
                + entry@,
        },
{
    let stem = match crate::setup::file_name_of(entry) {
        Some(n) => match crate::text::rfind_char_in(&n, '.') {
            Some(k) => {
                proof {
                    crate::text::lemma_rfind_bounds(n@, '.', n@.len() as int);
                }
                if k == 0 {
                    Some(n)
                } else {
                    Some(crate::text::slice_of(&n, 0, k))
                }
            },
            None => Some(n),
        },
        None => None,
    };
    match stem {
        Some(s) => if s.len() > 0 {
            Ok(crate::text::owned(&s))
        } else {
            Err(TexeError::Manifest(prefixed("project entry must have a UTF-8 file stem: ", entry)))
        },
        None => Err(TexeError::Manifest(prefixed("project entry must have a UTF-8 file stem: ", entry))),
    }
}

} // verus!
