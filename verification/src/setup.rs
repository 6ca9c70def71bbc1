//! Choosing a project's entry and engine, and the files that initializing a
//! project writes.
use vstd::prelude::*;
use crate::config::{
    relative_path_problem, validate_relative_path, InitOutcome, InitRequest, InitSettings,
    StarterDocument, StarterTemplate, DEFAULT_ENGINE, DEFAULT_ENTRY, MANIFEST_NAME, PROJECT_SCHEMA,
};
use crate::diagnostics::join_with;
use crate::error::TexeError;
use crate::paths::{components, join_components, norm_components, norm_components_of, same_path, paths_equal};
use crate::text::{
    char_is_ws, chars_of, contains, contains_str, eq_str, find_char, find_char_in, is_ws,
    lower_seq, lower_vec, owned, push_char, slice_of, starts_with, starts_with_str, trim,
    trim_bounds,
};
use crate::trace::{lines, lines_of};
use crate::paths::texts_view;

verus! {

/// The engine an editor's `% !TeX program = ...` hint names, normalized.
pub open spec fn engine_name(value: Seq<char>) -> Option<Seq<char>> {
    let v = lower_seq(trim(value));
    if v == "pdflatex"@ || v == "pdftex"@ {
        Some("pdflatex"@)
    } else if v == "xelatex"@ || v == "xetex"@ {
        Some("xelatex"@)
    } else if v == "lualatex"@ || v == "luatex"@ || v == "luahbtex"@ {
        Some("lualatex"@)
    } else {
        None
    }
}

fn trimmed_of(s: &Vec<char>) -> (r: Vec<char>)
    ensures
        r@ == trim(s@),
{
    let (a, b) = trim_bounds(s, 0, s.len());
    assert(s@.subrange(0, s@.len() as int) == s@);
    slice_of(s, a, b)
}

pub fn normalize_engine(value: &str) -> (r: Option<String>)
    ensures
        crate::trace::opt_string_view(r) == engine_name(value@),
{
    let v = lower_vec(&trimmed_of(&chars_of(value)));
    if eq_str(&v, "pdflatex") || eq_str(&v, "pdftex") {
        Some(String::from_str("pdflatex"))
    } else if eq_str(&v, "xelatex") || eq_str(&v, "xetex") {
        Some(String::from_str("xelatex"))
    } else if eq_str(&v, "lualatex") || eq_str(&v, "luatex") || eq_str(&v, "luahbtex") {
        Some(String::from_str("lualatex"))
    } else {
        None
    }
}

/// The engine a magic comment on one line names, where it does.
pub open spec fn hint_in_line(line: Seq<char>) -> Option<Seq<char>> {
    let t = trim(line);
    if !starts_with(t, "%"@) {
        None
    } else {
        match find_char(t, '=') {
            None => None,
            Some(k) => {
                let key = lower_seq(t.subrange(0, k));
                if contains(key, "tex"@) && contains(key, "program"@) {
                    engine_name(t.subrange(k + 1, t.len() as int))
                } else {
                    None
                }
            },
        }
    }
}

/// The first engine hint among lines `i..n` of `ls`.
pub open spec fn hint_from(ls: Seq<Seq<char>>, i: int, n: int) -> Option<Seq<char>>
    decreases n - i,
{
    if i < 0 || i >= n || i >= ls.len() {
        None
    } else {
        match hint_in_line(ls[i]) {
            Some(e) => Some(e),
            None => hint_from(ls, i + 1, n),
        }
    }
}

/// The engine that an editor magic comment in the first 50 lines names.
pub open spec fn engine_hint(source: Seq<char>) -> Option<Seq<char>> {
    hint_from(lines(source), 0, 50)
}

fn hint_in_line_of(line: &Vec<char>) -> (r: Option<String>)
    ensures
        crate::trace::opt_string_view(r) == hint_in_line(line@),
{
    let t = trimmed_of(line);
    if !starts_with_str(&t, "%") {
        return None;
    }
    let k = match find_char_in(&t, '=') {
        Some(k) => k,
        None => return None,
    };
    let n = t.len();
    proof {
        crate::text::lemma_find_from_bounds(t@, seq!['='], 0);
    }
    assert(k + 1 <= n);
    let key = lower_vec(&slice_of(&t, 0, k));
    if contains_str(&key, "tex") && contains_str(&key, "program") {
        let value = owned(&slice_of(&t, k + 1, n));
        normalize_engine(value.as_str())
    } else {
        None
    }
}

pub fn detect_engine_hint(source: &str) -> (r: Option<String>)
    ensures
        crate::trace::opt_string_view(r) == engine_hint(source@),
{
    let ls = lines_of(&chars_of(source));
    let ghost lv = texts_view(ls@);
    let mut i: usize = 0;
    while i < ls.len() && i < 50
        invariant
            i <= ls.len(),
            lv == texts_view(ls@),
            lv == lines(source@),
            hint_from(lv, 0, 50) == hint_from(lv, i as int, 50),
        decreases ls.len() - i,
    {
        assert(lv[i as int] == ls@[i as int]@);
        if let Some(e) = hint_in_line_of(&ls[i]) {
            return Some(e);
        }
        i += 1;
    }
    None
}

/// The engine a project names, trimmed; a blank engine is an error.
pub fn validate_engine(engine: &str) -> (r: Result<String, TexeError>)
    ensures
        trim(engine@).len() == 0 ==> (r matches Err(TexeError::Manifest(m)) && m@ == "engine cannot be empty"@),
        trim(engine@).len() > 0 ==> (r matches Ok(e) && e@ == trim(engine@)),
{
    let t = trimmed_of(&chars_of(engine));
    if t.len() == 0 {
        Err(TexeError::Manifest(String::from_str("engine cannot be empty")))
    } else {
        Ok(owned(&t))
    }
}

/// The last component of a path, where it names a file.
pub open spec fn file_name(p: Seq<char>) -> Option<Seq<char>> {
    let c = norm_components(p);
    if c.len() == 0 || c.last() == seq!['/'] || c.last() == seq!['.'] || c.last() == seq!['.', '.'] {
        None
    } else {
        Some(c.last())
    }
}

/// The candidate that is exactly `main.tex`, else the first whose file name
/// is `main.tex` in any letter case, else the first.
pub open spec fn preferred_index(entries: Seq<Seq<char>>) -> nat {
    if exists|i: int| 0 <= i < entries.len() && same_path(#[trigger] entries[i], "main.tex"@) {
        first_index(entries, |e: Seq<char>| same_path(e, "main.tex"@), 0)
    } else if exists|i: int| 0 <= i < entries.len() && named_main(#[trigger] entries[i]) {
        first_index(entries, |e: Seq<char>| named_main(e), 0)
    } else {
        0
    }
}

pub open spec fn named_main(e: Seq<char>) -> bool {
    match file_name(e) {
        Some(n) => lower_seq(n) == lower_seq("main.tex"@),
        None => false,
    }
}

/// The first index from `i` on whose entry meets `p`.
pub open spec fn first_index(entries: Seq<Seq<char>>, p: spec_fn(Seq<char>) -> bool, i: int) -> nat
    decreases entries.len() - i,
{
    if i < 0 || i >= entries.len() {
        0
    } else if p(entries[i]) {
        i as nat
    } else {
        first_index(entries, p, i + 1)
    }
}

/// `Path::file_name` of a path, as text.
pub fn file_name_of(p: &str) -> (r: Option<Vec<char>>)
    ensures
        match r {
            Some(n) => file_name(p@) == Some(n@),
            None => file_name(p@) is None,
        },
{
    let c = norm_components_of(&chars_of(p));
    if c.len() == 0 {
        return None;
    }
    let last = &c[c.len() - 1];
    assert(texts_view(c@).last() == last@);
    let special = (last.len() == 1 && (last[0] == '/' || last[0] == '.')) || (last.len() == 2
        && last[0] == '.' && last[1] == '.');
    proof {
        if last.len() == 1 && last[0] == '/' {
            assert(last@ =~= seq!['/']);
        }
        if last.len() == 1 && last[0] == '.' {
            assert(last@ =~= seq!['.']);
        }
        if last.len() == 2 && last[0] == '.' && last[1] == '.' {
            assert(last@ =~= seq!['.', '.']);
        }
        if !special {
            if last@ == seq!['/'] || last@ == seq!['.'] {
                assert(last@.len() == 1 && last@[0] == last[0]);
            }
            if last@ == seq!['.', '.'] {
                assert(last@.len() == 2 && last@[0] == last[0] && last@[1] == last[1]);
            }
        }
    }
    if special {
        return None;
    }
    assert(last@.subrange(0, last@.len() as int) == last@);
    Some(crate::text::slice_of(last, 0, last.len()))
}

fn is_named_main(e: &String) -> (r: bool)
    ensures
        r == named_main(e@),
{
    match file_name_of(e.as_str()) {
        Some(n) => crate::text::eq_ignore_case_str(&n, "main.tex"),
        None => false,
    }
}

pub open spec fn strings_view(v: Seq<String>) -> Seq<Seq<char>> {
    v.map_values(|s: String| s@)
}

pub fn preferred_entry(entries: &Vec<String>) -> (r: usize)
    ensures
        r == preferred_index(strings_view(entries@)),
{
    let ghost ev = strings_view(entries@);
    let mut i: usize = 0;
    while i < entries.len()
        invariant
            i <= entries.len(),
            ev == strings_view(entries@),
            forall|j: int| 0 <= j < i ==> !same_path(#[trigger] ev[j], "main.tex"@),
            first_index(ev, |e: Seq<char>| same_path(e, "main.tex"@), 0) == first_index(
                ev,
                |e: Seq<char>| same_path(e, "main.tex"@),
                i as int,
            ),
        decreases entries.len() - i,
    {
        assert(ev[i as int] == entries@[i as int]@);
        if paths_equal(entries[i].as_str(), DEFAULT_ENTRY) {
            return i;
        }
        i += 1;
    }
    let mut k: usize = 0;
    while k < entries.len()
        invariant
            k <= entries.len(),
            ev == strings_view(entries@),
            forall|j: int| 0 <= j < entries.len() ==> !same_path(#[trigger] ev[j], "main.tex"@),
            forall|j: int| 0 <= j < k ==> !named_main(#[trigger] ev[j]),
            first_index(ev, |e: Seq<char>| named_main(e), 0) == first_index(
                ev,
                |e: Seq<char>| named_main(e),
                k as int,
            ),
        decreases entries.len() - k,
    {
        assert(ev[k as int] == entries@[k as int]@);
        if is_named_main(&entries[k]) {
            return k;
        }
        k += 1;
    }
    0
}

/// The entry to initialize: chosen, or to be asked for among the options.
#[derive(Debug, Clone)]
pub enum EntryChoice {
    Chosen(String),
    Ask { options: Vec<String>, default: usize },
}

/// `entries` joined by `, `.
pub open spec fn listed(entries: Seq<Seq<char>>) -> Seq<char> {
    join_with(entries, ", "@)
}

fn list_entries(entries: &Vec<String>) -> (r: String)
    ensures
        r@ == listed(strings_view(entries@)),
{
    crate::diagnostics::join_strings(entries, ", ")
}

/// How `texe init` picks an entry among the detected LaTeX documents.
pub open spec fn entry_choice(
    request: InitRequest,
    candidates: Seq<Seq<char>>,
    selected: Option<usize>,
) -> Result<Option<Seq<char>>, Seq<char>> {
    if candidates.len() == 0 {
        Ok(Some("main.tex"@))
    } else if candidates.len() == 1 {
        Ok(Some(candidates[0]))
    } else if request.interactive {
        match selected {
            Some(i) => if i < candidates.len() {
                Ok(Some(candidates[i as int]))
            } else {
                Ok(None)
            },
            None => Ok(None),
        }
    } else if request.accept_defaults {
        Ok(Some(candidates[preferred_index(candidates) as int]))
    } else {
        Err(
            "found multiple LaTeX entry points ("@ + listed(candidates)
                + "); pass --entry <path> or run `texe init` interactively"@,
        )
    }
}

pub proof fn lemma_first_index_bound(entries: Seq<Seq<char>>, p: spec_fn(Seq<char>) -> bool, i: int)
    requires
        0 <= i,
    ensures
        entries.len() > 0 ==> first_index(entries, p, i) < entries.len(),
    decreases entries.len() - i,
{
    if i < entries.len() && !p(entries[i]) {
        lemma_first_index_bound(entries, p, i + 1);
    }
}

/// Picks the entry among `candidates` (sorted, document roots first). An
/// interactive request asks (`Ask`) until `selected` names an option.
pub fn select_entry(request: &InitRequest, candidates: &Vec<String>, selected: Option<usize>) -> (r: Result<EntryChoice, TexeError>)
    ensures
        match entry_choice(*request, strings_view(candidates@), selected) {
            Ok(Some(e)) => r matches Ok(EntryChoice::Chosen(c)) && c@ == e,
            Ok(None) => r matches Ok(EntryChoice::Ask { options, default }) && strings_view(options@)
                == strings_view(candidates@) && default == preferred_index(strings_view(candidates@)),
            Err(m) => r matches Err(TexeError::Manifest(e)) && e@ == m,
        },
{
    if candidates.len() == 0 {
        return Ok(EntryChoice::Chosen(String::from_str(DEFAULT_ENTRY)));
    }
    if candidates.len() == 1 {
        return Ok(EntryChoice::Chosen(candidates[0].clone()));
    }
    let default = preferred_entry(candidates);
    proof {
        let ev = strings_view(candidates@);
        lemma_first_index_bound(ev, |e: Seq<char>| same_path(e, "main.tex"@), 0);
        lemma_first_index_bound(ev, |e: Seq<char>| named_main(e), 0);
    }
    if request.interactive {
        match selected {
            Some(i) => if i < candidates.len() {
                return Ok(EntryChoice::Chosen(candidates[i].clone()));
            },
            None => {},
        }
        return Ok(EntryChoice::Ask { options: candidates.clone(), default });
    }
    if request.accept_defaults {
        return Ok(EntryChoice::Chosen(candidates[default].clone()));
    }
    let mut m = String::from_str("found multiple LaTeX entry points (");
    let listed = list_entries(candidates);
    m.append(listed.as_str());
    m.append("); pass --entry <path> or run `texe init` interactively");
    Err(TexeError::Manifest(m))
}

/// What `texe init` settles next: its settings, or which of `options` to
/// ask for as the entry.
#[derive(Debug, Clone)]
pub enum InitStep {
    Settings(InitSettings),
    Ask { options: Vec<String>, default: usize },
}

/// The candidates as names with their sources, where readable.
pub open spec fn sources_view(v: Seq<(String, Option<String>)>) -> Seq<(Seq<char>, Option<Seq<char>>)> {
    v.map_values(|c: (String, Option<String>)| (c.0@, crate::trace::opt_string_view(c.1)))
}

pub open spec fn candidate_names(c: Seq<(Seq<char>, Option<Seq<char>>)>) -> Seq<Seq<char>> {
    c.map_values(|x: (Seq<char>, Option<Seq<char>>)| x.0)
}

/// The source of the first candidate named `name`.
pub open spec fn source_of(c: Seq<(Seq<char>, Option<Seq<char>>)>, name: Seq<char>) -> Option<Seq<char>>
    decreases c.len(),
{
    if c.len() == 0 {
        None
    } else if c[0].0 == name {
        c[0].1
    } else {
        source_of(c.drop_first(), name)
    }
}

/// The engine `texe init` settles on: an explicit one, trimmed and not
/// blank; else the one the entry's magic comment names; else pdfLaTeX.
pub open spec fn engine_setting(engine: Option<Seq<char>>, source: Option<Seq<char>>) -> Result<Seq<char>, Seq<char>> {
    match engine {
        Some(g) => if trim(g).len() == 0 {
            Err("engine cannot be empty"@)
        } else {
            Ok(trim(g))
        },
        None => match source {
            Some(src) => match engine_hint(src) {
                Some(h) => Ok(h),
                None => Ok("pdflatex"@),
            },
            None => Ok("pdflatex"@),
        },
    }
}

/// The entry and engine `texe init` settles on, or `None` where it must
/// ask which candidate is the entry. An explicit entry must be a portable
/// relative path; otherwise the entry is picked among the candidates as
/// [`select_entry`] does.
pub open spec fn init_settings_of(
    request: InitRequest,
    candidates: Seq<(Seq<char>, Option<Seq<char>>)>,
    entry_source: Option<Seq<char>>,
    selected: Option<usize>,
) -> Result<Option<(Seq<char>, Seq<char>)>, Seq<char>> {
    let engine = crate::trace::opt_string_view(request.engine);
    match request.entry {
        Some(e) => match relative_path_problem("entry"@, e@) {
            Some(m) => Err(m),
            None => match engine_setting(engine, entry_source) {
                Ok(g) => Ok(Some((e@, g))),
                Err(m) => Err(m),
            },
        },
        None => match entry_choice(request, candidate_names(candidates), selected) {
            Err(m) => Err(m),
            Ok(None) => Ok(None),
            Ok(Some(c)) => match engine_setting(engine, source_of(candidates, c)) {
                Ok(g) => Ok(Some((c, g))),
                Err(m) => Err(m),
            },
        },
    }
}

fn source_named(candidates: &Vec<(String, Option<String>)>, name: &str) -> (r: Option<String>)
    ensures
        crate::trace::opt_string_view(r) == source_of(sources_view(candidates@), name@),
{
    let ghost cv = sources_view(candidates@);
    assert(cv.subrange(0, cv.len() as int) =~= cv);
    let mut j: usize = 0;
    while j < candidates.len()
        invariant
            j <= candidates.len(),
            cv == sources_view(candidates@),
            source_of(cv, name@) == source_of(cv.subrange(j as int, cv.len() as int), name@),
        decreases candidates.len() - j,
    {
        let ghost rest = cv.subrange(j as int, cv.len() as int);
        assert(rest[0] == cv[j as int]);
        assert(rest.drop_first() =~= cv.subrange(j + 1, cv.len() as int));
        assert(cv[j as int].0 == candidates@[j as int].0@);
        assert(cv[j as int].1 == crate::trace::opt_string_view(candidates@[j as int].1));
        if eq_str(&chars_of(candidates[j].0.as_str()), name) {
            return candidates[j].1.clone();
        }
        j += 1;
    }
    assert(cv.subrange(j as int, cv.len() as int) =~= Seq::<(Seq<char>, Option<Seq<char>>)>::empty());
    None
}

fn settle_engine(engine: &Option<String>, source: Option<String>) -> (r: Result<String, TexeError>)
    ensures
        match engine_setting(crate::trace::opt_string_view(*engine), crate::trace::opt_string_view(source)) {
            Ok(g) => r matches Ok(s) && s@ == g,
            Err(m) => r matches Err(TexeError::Manifest(x)) && x@ == m,
        },
{
    match engine {
        Some(g) => validate_engine(g.as_str()),
        None => {
            let hinted = match &source {
                Some(src) => detect_engine_hint(src.as_str()),
                None => None,
            };
            match hinted {
                Some(h) => Ok(h),
                None => Ok(String::from_str(DEFAULT_ENGINE)),
            }
        },
    }
}

/// The settings that `texe init` resolves from the request, the detected
/// entry candidates (document roots first, with their sources where
/// readable), the source of an explicit entry, and the user's answer where
/// one was asked for: an explicit entry or engine wins; otherwise the entry
/// is picked among the candidates, asked for (`Ask`) where the request is
/// interactive and ambiguous, and the engine is the one the entry's magic
/// comment names, or pdfLaTeX.
pub fn configure_init(
    request: &InitRequest,
    candidates: &Vec<(String, Option<String>)>,
    entry_source: Option<String>,
    selected: Option<usize>,
) -> (r: Result<InitStep, TexeError>)
    ensures
        match init_settings_of(*request, sources_view(candidates@), crate::trace::opt_string_view(entry_source), selected) {
            Ok(Some((e, g))) => r matches Ok(InitStep::Settings(s)) && s.entry@ == e && s.engine@ == g,
            Ok(None) => r matches Ok(InitStep::Ask { options, default }) && strings_view(options@) == candidate_names(
                sources_view(candidates@),
            ) && default == preferred_index(candidate_names(sources_view(candidates@))),
            Err(m) => r matches Err(TexeError::Manifest(x)) && x@ == m,
        },
{
    let ghost cv = sources_view(candidates@);
    match &request.entry {
        Some(e) => {
            validate_relative_path("entry", e.as_str())?;
            let engine = settle_engine(&request.engine, entry_source)?;
            return Ok(InitStep::Settings(InitSettings { entry: e.clone(), engine }));
        },
        None => {},
    }
    let mut names: Vec<String> = Vec::new();
    let mut i: usize = 0;
    while i < candidates.len()
        invariant
            i <= candidates.len(),
            cv == sources_view(candidates@),
            strings_view(names@) == candidate_names(cv).subrange(0, i as int),
        decreases candidates.len() - i,
    {
        let ghost before = strings_view(names@);
        names.push(candidates[i].0.clone());
        assert(strings_view(names@) =~= before.push(candidates@[i as int].0@));
        assert(candidate_names(cv).subrange(0, i + 1) =~= candidate_names(cv).subrange(0, i as int).push(cv[i as int].0));
        i += 1;
    }
    assert(candidate_names(cv).subrange(0, cv.len() as int) =~= candidate_names(cv));
    let chosen = match select_entry(request, &names, selected)? {
        EntryChoice::Chosen(c) => c,
        EntryChoice::Ask { options, default } => {
            return Ok(InitStep::Ask { options, default });
        },
    };
    let source = source_named(candidates, chosen.as_str());
    let engine = settle_engine(&request.engine, source)?;
    Ok(InitStep::Settings(InitSettings { entry: chosen, engine }))
}

/// How TeX source spells one character of plain text.
pub open spec fn latex_escape(c: char) -> Seq<char> {
    if c == '\\' {
        "\\textbackslash{}"@
    } else if c == '{' {
        "\\{"@
    } else if c == '}' {
        "\\}"@
    } else if c == '%' {
        "\\%"@
    } else if c == '$' {
        "\\$"@
    } else if c == '#' {
        "\\#"@
    } else if c == '_' {
        "\\_"@
    } else if c == '&' {
        "\\&"@
    } else if c == '~' {
        "\\textasciitilde{}"@
    } else if c == '^' {
        "\\textasciicircum{}"@
    } else {
        seq![c]
    }
}

/// The escaped text of `s` so far, and whether the last character read
/// was white space (runs of white space become one space).
pub open spec fn latex_state(s: Seq<char>) -> (Seq<char>, bool)
    decreases s.len(),
{
    if s.len() == 0 {
        (Seq::empty(), true)
    } else {
        let (e, space) = latex_state(s.drop_last());
        let c = s.last();
        if is_ws(c) {
            if !space {
                (e.push(' '), true)
            } else {
                (e, space)
            }
        } else {
            (e + latex_escape(c), false)
        }
    }
}

/// Plain text as TeX source: special characters escaped, white space
/// collapsed to single spaces, no leading or trailing space.
pub open spec fn latex_text_of(s: Seq<char>) -> Seq<char> {
    let (e, space) = latex_state(s);
    if space && e.len() > 0 {
        e.drop_last()
    } else {
        e
    }
}

fn escape_of(c: char) -> (r: &'static str)
    ensures
        r@ == latex_escape(c) || (latex_escape(c) == seq![c] && r@.len() == 0),
        latex_escape(c) != seq![c] ==> r@ == latex_escape(c),
{
    if c == '\\' {
        "\\textbackslash{}"
    } else if c == '{' {
        "\\{"
    } else if c == '}' {
        "\\}"
    } else if c == '%' {
        "\\%"
    } else if c == '$' {
        "\\$"
    } else if c == '#' {
        "\\#"
    } else if c == '_' {
        "\\_"
    } else if c == '&' {
        "\\&"
    } else if c == '~' {
        "\\textasciitilde{}"
    } else if c == '^' {
        "\\textasciicircum{}"
    } else {
        proof {
            reveal_strlit("");
        }
        ""
    }
}

pub fn latex_text(value: &str) -> (r: String)
    ensures
        r@ == latex_text_of(value@),
{
    let v = chars_of(value);
    let mut escaped: Vec<char> = Vec::new();
    let mut previous_was_space = true;
    let mut i: usize = 0;
    while i < v.len()
        invariant
            i <= v.len(),
            (escaped@, previous_was_space) == latex_state(v@.subrange(0, i as int)),
        decreases v.len() - i,
    {
        let c = v[i];
        proof {
            let t = v@.subrange(0, i + 1);
            assert(t.drop_last() == v@.subrange(0, i as int));
            assert(t.last() == c);
        }
        if char_is_ws(c) {
            if !previous_was_space {
                escaped.push(' ');
                previous_was_space = true;
            }
        } else {
            previous_was_space = false;
            let e = escape_of(c);
            if e.unicode_len() == 0 {
                proof {
                    reveal_strlit("\\textbackslash{}");
                    reveal_strlit("\\{");
                    reveal_strlit("\\}");
                    reveal_strlit("\\%");
                    reveal_strlit("\\$");
                    reveal_strlit("\\#");
                    reveal_strlit("\\_");
                    reveal_strlit("\\&");
                    reveal_strlit("\\textasciitilde{}");
                    reveal_strlit("\\textasciicircum{}");
                }
                escaped.push(c);
            } else {
                let ev = chars_of(e);
                let mut k: usize = 0;
                let ghost before = escaped@;
                while k < ev.len()
                    invariant
                        k <= ev.len(),
                        escaped@ == before + ev@.subrange(0, k as int),
                    decreases ev.len() - k,
                {
                    escaped.push(ev[k]);
                    assert(ev@.subrange(0, k + 1) == ev@.subrange(0, k as int).push(ev@[k as int]));
                    k += 1;
                }
                assert(ev@.subrange(0, ev@.len() as int) == ev@);
            }
        }
        i += 1;
    }
    assert(v@.subrange(0, v@.len() as int) == v@);
    if previous_was_space && escaped.len() > 0 {
        escaped.pop();
    }
    owned(&escaped)
}

pub const EMPTY_PAPER_BODY: &'static str = "

\\begin{document}
\\maketitle

\\end{document}
";

pub const BASIC_PAPER_BODY: &'static str = "

\\begin{document}
\\maketitle

\\begin{abstract}
% Summarize the question, method, and main result.
Write the abstract here.
\\end{abstract}

\\section{Introduction}
% Explain the research question and why it matters.
Introduce the paper and cite relevant work, for example \\cite{example}.

\\section{Methods}
% Describe the data, materials, and analysis.
A numbered equation can be referenced later:
\\begin{equation}
  E = mc^2
  \\label{eq:example}
\\end{equation}

\\section{Results}
Equation~\\ref{eq:example} is an example cross-reference.

\\begin{table}[ht]
  \\centering
  \\begin{tabular}{lr}
    Measurement & Value \\\\
    Example     & 1.00
  \\end{tabular}
  \\caption{Replace this example with a result.}
  \\label{tab:example}
\\end{table}

\\begin{figure}[ht]
  \\centering
  \\fbox{\\rule{0pt}{35mm}\\rule{0.7\\linewidth}{0pt}}
  \\caption{Replace this placeholder with a figure.}
  \\label{fig:example}
\\end{figure}

\\section{Discussion}
% Interpret the results, limitations, and implications.
Discuss the findings here.

\\section{Conclusion}
% State the main conclusion without repeating the abstract.
Write the conclusion here.

\\bibliographystyle{plain}
\\bibliography{references}

\\end{document}
";

pub const BASIC_BIBLIOGRAPHY: &'static str = "@article{example,
  author  = {Ada Researcher},
  title   = {Replace This Example Reference},
  journal = {Journal of Examples},
  year    = {2026},
}
";

/// The preamble of a starter document.
pub open spec fn starter_preamble(starter: StarterDocument) -> Seq<char> {
    let title = if trim(starter.title@).len() == 0 {
        latex_text_of("Untitled Paper"@)
    } else {
        latex_text_of(starter.title@)
    };
    "\\documentclass{article}\n\n\\title{"@ + title + "}\n\\author{"@ + latex_text_of(
        starter.author@,
    ) + "}\n\\date{\\today}\n"@
}

pub open spec fn files_view(v: Seq<(String, String)>) -> Seq<(Seq<char>, Seq<char>)> {
    v.map_values(|p: (String, String)| (p.0@, p.1@))
}

/// The files of a starter: the entry document, and for the basic template
/// a bibliography database.
pub open spec fn starter_files(entry: Seq<char>, starter: StarterDocument) -> Seq<(Seq<char>, Seq<char>)> {
    match starter.template {
        StarterTemplate::Basic => seq![
            (entry, starter_preamble(starter) + BASIC_PAPER_BODY@),
            ("references.bib"@, BASIC_BIBLIOGRAPHY@),
        ],
        StarterTemplate::Empty => seq![(entry, starter_preamble(starter) + EMPTY_PAPER_BODY@)],
    }
}

pub fn render_starter(entry: &str, starter: &StarterDocument) -> (r: Vec<(String, String)>)
    ensures
        files_view(r@) == starter_files(entry@, *starter),
{
    let title = if crate::config::is_blank(&starter.title) {
        latex_text("Untitled Paper")
    } else {
        latex_text(starter.title.as_str())
    };
    let author = latex_text(starter.author.as_str());
    let mut source = String::from_str("\\documentclass{article}\n\n\\title{");
    source.append(title.as_str());
    source.append("}\n\\author{");
    source.append(author.as_str());
    source.append("}\n\\date{\\today}\n");
    let mut files: Vec<(String, String)> = Vec::new();
    match starter.template {
        StarterTemplate::Basic => {
            source.append(BASIC_PAPER_BODY);
            files.push((String::from_str(entry), source));
            files.push((String::from_str("references.bib"), String::from_str(BASIC_BIBLIOGRAPHY)));
        },
        StarterTemplate::Empty => {
            source.append(EMPTY_PAPER_BODY);
            files.push((String::from_str(entry), source));
        },
    }
    assert(files_view(files@) =~= starter_files(entry@, *starter));
    files
}

/// How `toml` writes a string value: its quoted, escaped form.
pub uninterp spec fn toml_string(s: Seq<char>) -> Seq<char>;

/// `toml::Value::String(s).to_string()`: the TOML literal that spells `s`.
#[verifier::external_body]
fn toml_quoted(s: &str) -> (r: String)
    ensures
        r@ == toml_string(s@),
{
    toml::Value::String(s.to_string()).to_string()
}

/// `s` with every backslash turned into a slash.
pub open spec fn forward_slashes(s: Seq<char>) -> Seq<char> {
    s.map_values(|c: char| if c == '\\' { '/' } else { c })
}

fn forward_slashes_of(s: &str) -> (r: String)
    ensures
        r@ == forward_slashes(s@),
{
    let v = chars_of(s);
    let mut r = String::new();
    let mut i: usize = 0;
    while i < v.len()
        invariant
            i <= v.len(),
            r@ == forward_slashes(v@.subrange(0, i as int)),
        decreases v.len() - i,
    {
        push_char(&mut r, if v[i] == '\\' { '/' } else { v[i] });
        assert(forward_slashes(v@.subrange(0, i + 1)) == forward_slashes(v@.subrange(0, i as int)).push(
            if v@[i as int] == '\\' { '/' } else { v@[i as int] },
        ));
        i += 1;
    }
    assert(v@.subrange(0, v@.len() as int) == v@);
    r
}

/// An engine with a managed runtime recipe.
pub open spec fn managed_engine(engine: Seq<char>) -> bool {
    engine == "pdflatex"@ || engine == "lualatex"@
}

/// The `texe.toml` that `texe init` writes.
pub open spec fn manifest_text_of(entry: Seq<char>, engine: Seq<char>) -> Seq<char> {
    "schema = \""@ + PROJECT_SCHEMA@ + "\"\n\n[project]\nentry = "@ + toml_string(forward_slashes(entry))
        + "\n\n[toolchain]\n"@ + (if managed_engine(engine) {
        Seq::empty()
    } else {
        "provider = \"system\"\n"@
    }) + "engine = "@ + toml_string(engine) + "\n"@
}

pub fn manifest_text(entry: &str, engine: &str) -> (r: String)
    ensures
        r@ == manifest_text_of(entry@, engine@),
{
    let entry_value = toml_quoted(forward_slashes_of(entry).as_str());
    let e = chars_of(engine);
    let managed = eq_str(&e, "pdflatex") || eq_str(&e, "lualatex");
    let engine_value = toml_quoted(engine);
    let mut r = String::from_str("schema = \"");
    r.append(PROJECT_SCHEMA);
    r.append("\"\n\n[project]\nentry = ");
    r.append(entry_value.as_str());
    r.append("\n\n[toolchain]\n");
    if !managed {
        r.append("provider = \"system\"\n");
    } else {
        proof {
            reveal_strlit("");
        }
        assert(r@ + Seq::<char>::empty() == r@);
    }
    r.append("engine = ");
    r.append(engine_value.as_str());
    r.append("\n");
    r
}

/// What initializing a project writes: the manifest at [`MANIFEST_NAME`]
/// (never over an existing one), and the starter files where the entry does
/// not exist yet.
#[derive(Debug, Clone)]
pub struct InitPlan {
    pub manifest: String,
    pub manifest_text: String,
    pub starter_files: Vec<(String, String)>,
}

/// The first of `files` whose path already exists.
pub open spec fn first_collision(files: Seq<(Seq<char>, Seq<char>)>, existing: Seq<Seq<char>>) -> Option<Seq<char>>
    decreases files.len(),
{
    if files.len() == 0 {
        None
    } else if existing.contains(files[0].0) {
        Some(files[0].0)
    } else {
        first_collision(files.drop_first(), existing)
    }
}

/// How `texe init` refuses to write over a file.
pub open spec fn overwrite_refusal(path: Seq<char>) -> Seq<char> {
    path + " already exists; refusing to overwrite it"@
}

/// What `texe init` does in `directory`: refuse an invalid entry or engine,
/// an existing manifest, or a starter file that would replace one already
/// there; otherwise write the manifest, and the starter files where the
/// entry does not exist yet.
pub open spec fn init_plan_of(
    directory: Seq<char>,
    entry: Seq<char>,
    engine: Seq<char>,
    starter: StarterDocument,
    manifest_exists: bool,
    entry_exists: bool,
    existing: Seq<Seq<char>>,
) -> Result<(Seq<char>, Seq<(Seq<char>, Seq<char>)>), Seq<char>> {
    match relative_path_problem("entry"@, entry) {
        Some(m) => Err(m),
        None => if trim(engine).len() == 0 {
            Err("engine cannot be empty"@)
        } else if manifest_exists {
            Err(overwrite_refusal(join_path(directory, MANIFEST_NAME@)))
        } else if entry_exists {
            Ok((manifest_text_of(entry, trim(engine)), Seq::empty()))
        } else {
            match first_collision(starter_files(entry, starter), existing) {
                Some(path) => Err(overwrite_refusal(join_path(directory, path))),
                None => Ok((manifest_text_of(entry, trim(engine)), starter_files(entry, starter))),
            }
        },
    }
}

/// Plans `texe init` in `directory` for an entry and engine, given whether
/// `texe.toml` and the entry exist there, and which of the starter's files
/// (see [`render_starter`]) already exist. Nothing is written on a refusal.
pub fn init_project(
    directory: &str,
    entry: &str,
    engine: &str,
    starter: &StarterDocument,
    manifest_exists: bool,
    entry_exists: bool,
    existing: &Vec<String>,
) -> (r: Result<InitPlan, TexeError>)
    ensures
        match init_plan_of(directory@, entry@, engine@, *starter, manifest_exists, entry_exists, strings_view(existing@)) {
            Ok((text, files)) => r matches Ok(plan) && plan.manifest@ == MANIFEST_NAME@ && plan.manifest_text@ == text
                && files_view(plan.starter_files@) == files,
            Err(m) => r matches Err(TexeError::Manifest(x)) && x@ == m,
        },
{
    validate_relative_path("entry", entry)?;
    let engine_name = validate_engine(engine)?;
    if manifest_exists {
        let mut m = join_path_of(directory, MANIFEST_NAME);
        m.append(" already exists; refusing to overwrite it");
        return Err(TexeError::Manifest(m));
    }
    let text = manifest_text(entry, engine_name.as_str());
    let files = if entry_exists {
        let v: Vec<(String, String)> = Vec::new();
        assert(files_view(v@) =~= Seq::<(Seq<char>, Seq<char>)>::empty());
        v
    } else {
        let files = render_starter(entry, starter);
        let ghost fv = files_view(files@);
        assert(fv.subrange(0, fv.len() as int) =~= fv);
        let mut i: usize = 0;
        while i < files.len()
            invariant
                i <= files.len(),
                fv == files_view(files@),
                fv == starter_files(entry@, *starter),
                relative_path_problem("entry"@, entry@) is None,
                trim(engine@).len() > 0,
                !manifest_exists,
                !entry_exists,
                first_collision(fv, strings_view(existing@)) == first_collision(fv.subrange(i as int, fv.len() as int), strings_view(existing@)),
            decreases files.len() - i,
        {
            let ghost rest = fv.subrange(i as int, fv.len() as int);
            assert(rest[0] == (files@[i as int].0@, files@[i as int].1@));
            assert(rest.drop_first() =~= fv.subrange(i + 1, fv.len() as int));
            if crate::clean::listed(existing, files[i].0.as_str()) {
                let mut m = join_path_of(directory, files[i].0.as_str());
                m.append(" already exists; refusing to overwrite it");
                return Err(TexeError::Manifest(m));
            }
            i += 1;
        }
        assert(fv.subrange(fv.len() as int, fv.len() as int) =~= Seq::<(Seq<char>, Seq<char>)>::empty());
        assert(fv.subrange(0, fv.len() as int) =~= fv);
        files
    };
    Ok(InitPlan { manifest: String::from_str(MANIFEST_NAME), manifest_text: text, starter_files: files })
}

/// The outcome of an initialization once the plan's files are written.
pub fn init_outcome(plan: &InitPlan, directory: &str) -> (r: InitOutcome)
    ensures
        r.manifest@ == join_path(directory@, plan.manifest@),
        strings_view(r.created_files@) == files_view(plan.starter_files@).map_values(
            |p: (Seq<char>, Seq<char>)| p.0,
        ),
{
    let mut created: Vec<String> = Vec::new();
    let mut i: usize = 0;
    while i < plan.starter_files.len()
        invariant
            i <= plan.starter_files.len(),
            strings_view(created@) == files_view(plan.starter_files@).subrange(0, i as int).map_values(
                |p: (Seq<char>, Seq<char>)| p.0,
            ),
        decreases plan.starter_files.len() - i,
    {
        let ghost before = strings_view(created@);
        created.push(plan.starter_files[i].0.clone());
        proof {
            let f = files_view(plan.starter_files@);
            assert(strings_view(created@) == before.push(plan.starter_files@[i as int].0@));
            assert(f[i as int].0 == plan.starter_files@[i as int].0@);
            assert(f.subrange(0, i + 1) == f.subrange(0, i as int).push(f[i as int]));
            assert(f.subrange(0, i + 1).map_values(|p: (Seq<char>, Seq<char>)| p.0) =~= f.subrange(0, i as int).map_values(|p: (Seq<char>, Seq<char>)| p.0).push(f[i as int].0));
        }
        i += 1;
    }
    assert(files_view(plan.starter_files@).subrange(0, plan.starter_files@.len() as int) == files_view(plan.starter_files@));
    InitOutcome { manifest: join_path_of(directory, plan.manifest.as_str()), created_files: created }
}

/// `Path::join` of a relative name onto a directory.
pub open spec fn join_path(dir: Seq<char>, name: Seq<char>) -> Seq<char> {
    if dir.len() == 0 {
        name
    } else if dir.last() == '/' {
        dir + name
    } else {
        dir + seq!['/'] + name
    }
}

pub fn join_path_of(dir: &str, name: &str) -> (r: String)
    ensures
        r@ == join_path(dir@, name@),
{
    let d = chars_of(dir);
    let mut r = String::from_str(dir);
    if d.len() > 0 && d[d.len() - 1] != '/' {
        push_char(&mut r, '/');
    }
    r.append(name);
    r
}

/// The text of a component sequence, with the root as a leading `/`.
pub open spec fn components_text(c: Seq<Seq<char>>) -> Seq<char> {
    if c.len() > 0 && c[0] == seq!['/'] {
        seq!['/'] + join_components(c.drop_first())
    } else {
        join_components(c)
    }
}

/// `Path::parent`.
pub open spec fn parent(p: Seq<char>) -> Option<Seq<char>> {
    let c = norm_components(p);
    if c.len() == 0 || c == seq![seq!['/']] {
        None
    } else {
        Some(components_text(c.drop_last()))
    }
}

/// `Path::ancestors`: the path itself, then each parent in turn.
pub open spec fn ancestors(p: Seq<char>) -> Seq<Seq<char>> {
    let c = norm_components(p);
    let lowest: int = if c.len() > 0 && c[0] == seq!['/'] { 1 } else { 0 };
    seq![p] + Seq::new(
        if c.len() as int - lowest > 0 { (c.len() as int - lowest) as nat } else { 0 },
        |i: int| components_text(c.subrange(0, c.len() - 1 - i)),
    )
}

/// Where `texe` looks for a manifest when started at `start`.
pub open spec fn manifest_search(start: Seq<char>, start_is_file: bool) -> (Seq<char>, Seq<Seq<char>>) {
    let dir = if start_is_file {
        match parent(start) {
            Some(p) => p,
            None => start,
        }
    } else {
        start
    };
    (dir, ancestors(dir).map_values(|d: Seq<char>| join_path(d, MANIFEST_NAME@)))
}

fn components_text_of(c: &Vec<Vec<char>>, n: usize) -> (r: String)
    requires
        n <= c.len(),
    ensures
        r@ == components_text(texts_view(c@).subrange(0, n as int)),
{
    if n > 0 && c[0].len() == 1 && c[0][0] == '/' {
        let mut sub: Vec<Vec<char>> = Vec::new();
        let mut i: usize = 1;
        while i < n
            invariant
                1 <= i <= n <= c.len(),
                texts_view(sub@) == texts_view(c@).subrange(1, i as int),
            decreases n - i,
        {
            sub.push(slice_of(&c[i], 0, c[i].len()));
            assert(c@[i as int]@.subrange(0, c@[i as int]@.len() as int) == c@[i as int]@);
            assert(texts_view(c@).subrange(1, i + 1) == texts_view(c@).subrange(1, i as int).push(c@[i as int]@));
            i += 1;
        }
        let mut r = String::from_str("/");
        let rest = crate::paths::join_components_of(&sub, 0);
        r.append(rest.as_str());
        proof {
            reveal_strlit("/");
            assert(c@[0]@ =~= seq!['/']);
            assert(texts_view(sub@).subrange(0, sub@.len() as int) == texts_view(sub@));
            assert(texts_view(c@).subrange(0, n as int).drop_first() == texts_view(c@).subrange(1, n as int));
        }
        r
    } else {
        let mut sub: Vec<Vec<char>> = Vec::new();
        let mut i: usize = 0;
        while i < n
            invariant
                i <= n <= c.len(),
                texts_view(sub@) == texts_view(c@).subrange(0, i as int),
            decreases n - i,
        {
            sub.push(slice_of(&c[i], 0, c[i].len()));
            assert(c@[i as int]@.subrange(0, c@[i as int]@.len() as int) == c@[i as int]@);
            assert(texts_view(c@).subrange(0, i + 1) == texts_view(c@).subrange(0, i as int).push(c@[i as int]@));
            i += 1;
        }
        proof {
            assert(texts_view(sub@).subrange(0, sub@.len() as int) == texts_view(sub@));
            if n > 0 && c@[0]@ == seq!['/'] {
                assert(c@[0]@.len() == 1 && c@[0]@[0] == c[0][0]);
            }
        }
        crate::paths::join_components_of(&sub, 0)
    }
}

/// `Path::parent`, as text.
pub fn parent_of(p: &str) -> (r: Option<String>)
    ensures
        crate::trace::opt_string_view(r) == parent(p@),
{
    let c = norm_components_of(&chars_of(p));
    let root_only = c.len() == 1 && c[0].len() == 1 && c[0][0] == '/';
    proof {
        let cv = texts_view(c@);
        if root_only {
            assert(c@[0]@ =~= seq!['/']);
            assert(cv[0] == c@[0]@);
            assert(cv =~= seq![seq!['/']]);
        }
        if cv == seq![seq!['/']] {
            assert(cv[0] == c@[0]@);
            assert(c@[0]@.len() == 1 && c@[0]@[0] == c[0][0]);
        }
        if cv.len() > 0 {
            assert(cv.drop_last() == cv.subrange(0, cv.len() - 1));
        }
    }
    if c.len() == 0 || root_only {
        None
    } else {
        Some(components_text_of(&c, c.len() - 1))
    }
}

/// The manifest paths to look for, nearest first, from where `texe` starts.
pub fn manifest_candidates(start: &str, start_is_file: bool) -> (r: (String, Vec<String>))
    ensures
        (r.0@, strings_view(r.1@)) == manifest_search(start@, start_is_file),
{
    let c0 = norm_components_of(&chars_of(start));
    let dir = if start_is_file && c0.len() > 0 && !(c0.len() == 1 && c0[0].len() == 1 && c0[0][0] == '/') {
        components_text_of(&c0, c0.len() - 1)
    } else {
        String::from_str(start)
    };
    proof {
        let c = texts_view(c0@);
        if c0.len() == 1 && c0[0].len() == 1 && c0[0][0] == '/' {
            assert(c0@[0]@ =~= seq!['/']);
            assert(c[0] == c0@[0]@);
            assert(c =~= seq![seq!['/']]);
        }
        if c.len() == 1 && c == seq![seq!['/']] {
            assert(c[0] == c0@[0]@);
            assert(c0@[0]@ == seq!['/']);
            assert(c0@[0]@.len() == 1 && c0@[0]@[0] == c0[0][0]);
        }
        if c.len() > 0 {
            assert(c.drop_last() == c.subrange(0, c.len() - 1));
        }
    }
    let c = norm_components_of(&chars_of(dir.as_str()));
    let absolute = c.len() > 0 && c[0].len() == 1 && c[0][0] == '/';
    proof {
        if absolute {
            assert(c@[0]@ =~= seq!['/']);
        } else if c.len() > 0 && c@[0]@ == seq!['/'] {
            assert(c@[0]@.len() == 1 && c@[0]@[0] == c[0][0]);
        }
    }
    let lowest: usize = if absolute { 1 } else { 0 };
    let mut result: Vec<String> = Vec::new();
    result.push(join_path_of(dir.as_str(), MANIFEST_NAME));
    let ghost all = ancestors(dir@).map_values(|d: Seq<char>| join_path(d, MANIFEST_NAME@));
    let mut k = c.len();
    while k > lowest
        invariant
            lowest <= k <= c.len(),
            lowest == (if c.len() > 0 && texts_view(c@)[0] == seq!['/'] { 1usize } else { 0usize }),
            all == ancestors(dir@).map_values(|d: Seq<char>| join_path(d, MANIFEST_NAME@)),
            texts_view(c@) == norm_components(dir@),
            strings_view(result@) == all.subrange(0, (c.len() - k + 1) as int),
        decreases k,
    {
        let text = components_text_of(&c, k - 1);
        let ghost before = strings_view(result@);
        result.push(join_path_of(text.as_str(), MANIFEST_NAME));
        proof {
            assert(strings_view(result@) == before.push(join_path(text@, MANIFEST_NAME@)));
            let i = (c.len() - k) as int;
            assert(all[i + 1] == join_path(components_text(texts_view(c@).subrange(0, c.len() - 1 - i)), MANIFEST_NAME@));
            assert(all.subrange(0, i + 2) == all.subrange(0, i + 1).push(all[i + 1]));
        }
        k -= 1;
    }
    proof {
        assert(all.len() == c.len() - lowest + 1);
        assert(all.subrange(0, all.len() as int) == all);
    }
    (dir, result)
}

/// Finds the nearest manifest: `found[i]` says whether candidate `i` of
/// [`manifest_candidates`] is a file.
pub fn discover_manifest(start: &str, start_is_file: bool, found: &Vec<bool>) -> (r: Result<String, TexeError>)
    ensures
        ({
            let (dir, candidates) = manifest_search(start@, start_is_file);
            match r {
                Ok(p) => exists|i: int| 0 <= i < candidates.len() && i < found.len() && found[i] && p@
                    == candidates[i] && forall|j: int| 0 <= j < i ==> !found[j],
                Err(TexeError::Manifest(m)) => m@ == "could not find texe.toml from "@ + dir && forall|
                    j: int,
                | 0 <= j < candidates.len() && j < found.len() ==> !found[j],
                Err(_) => false,
            }
        }),
{
    let (dir, candidates) = manifest_candidates(start, start_is_file);
    let mut i: usize = 0;
    while i < candidates.len() && i < found.len()
        invariant
            i <= candidates.len(),
            (dir@, strings_view(candidates@)) == manifest_search(start@, start_is_file),
            forall|j: int| 0 <= j < i ==> !found[j],
        decreases candidates.len() - i,
    {
        if found[i] {
            let p = candidates[i].clone();
            proof {
                let ghost cs = manifest_search(start@, start_is_file).1;
                assert(cs[i as int] == candidates@[i as int]@);
                assert(0 <= i < cs.len() && i < found.len() && found[i as int] && p@ == cs[i as int]
                    && forall|j: int| 0 <= j < i ==> !found[j]);
            }
            return Ok(p);
        }
        i += 1;
    }
    let mut m = String::from_str("could not find ");
    m.append(MANIFEST_NAME);
    m.append(" from ");
    m.append(dir.as_str());
    proof {
        reveal_strlit("could not find ");
        reveal_strlit("texe.toml");
        reveal_strlit(" from ");
        reveal_strlit("could not find texe.toml from ");
        assert("could not find "@ + "texe.toml"@ + " from "@ =~= "could not find texe.toml from "@);
    }
    Err(TexeError::Manifest(m))
}

/// The entry candidates of `texe init`: the `.tex` files that declare a
/// document class where any does, else every `.tex` file found. Each
/// candidate comes with whether its source holds `\documentclass`.
pub open spec fn document_roots_of(candidates: Seq<(Seq<char>, bool)>) -> Seq<Seq<char>> {
    let roots = candidates.filter(|c: (Seq<char>, bool)| c.1).map_values(|c: (Seq<char>, bool)| c.0);
    if roots.len() > 0 {
        roots
    } else {
        candidates.map_values(|c: (Seq<char>, bool)| c.0)
    }
}

pub open spec fn candidates_view(v: Seq<(String, bool)>) -> Seq<(Seq<char>, bool)> {
    v.map_values(|c: (String, bool)| (c.0@, c.1))
}

pub fn document_roots(candidates: &Vec<(String, bool)>) -> (r: Vec<String>)
    ensures
        strings_view(r@) == document_roots_of(candidates_view(candidates@)),
{
    let ghost cv = candidates_view(candidates@);
    let ghost keep = |c: (Seq<char>, bool)| c.1;
    let ghost name = |c: (Seq<char>, bool)| c.0;
    let mut roots: Vec<String> = Vec::new();
    let mut all: Vec<String> = Vec::new();
    let mut i: usize = 0;
    while i < candidates.len()
        invariant
            i <= candidates.len(),
            cv == candidates_view(candidates@),
            keep == (|c: (Seq<char>, bool)| c.1),
            name == (|c: (Seq<char>, bool)| c.0),
            strings_view(roots@) == cv.subrange(0, i as int).filter(keep).map_values(name),
            strings_view(all@) == cv.subrange(0, i as int).map_values(name),
        decreases candidates.len() - i,
    {
        let ghost a = cv.subrange(0, i as int);
        let ghost b = cv.subrange(0, i + 1);
        assert(b.drop_last() =~= a);
        assert(b.last() == cv[i as int]);
        assert(cv[i as int] == (candidates@[i as int].0@, candidates@[i as int].1));
        proof {
            reveal(Seq::filter);
        }
        let ghost before_roots = strings_view(roots@);
        let ghost before_all = strings_view(all@);
        if candidates[i].1 {
            roots.push(String::from_str(candidates[i].0.as_str()));
            assert(b.filter(keep) == a.filter(keep).push(cv[i as int]));
            assert(strings_view(roots@) =~= before_roots.push(cv[i as int].0));
            assert(b.filter(keep).map_values(name) =~= a.filter(keep).map_values(name).push(name(cv[i as int])));
        } else {
            assert(b.filter(keep) == a.filter(keep));
        }
        all.push(String::from_str(candidates[i].0.as_str()));
        assert(strings_view(all@) =~= before_all.push(cv[i as int].0));
        assert(b.map_values(name) =~= a.map_values(name).push(name(cv[i as int])));
        i += 1;
    }
    assert(cv.subrange(0, cv.len() as int) =~= cv);
    if roots.len() > 0 {
        roots
    } else {
        all
    }
}

} // verus!
