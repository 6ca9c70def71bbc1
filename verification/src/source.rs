//! Conservative static TeX command discovery for adoption, never execution:
//! the commands a source uses with their first braced argument, skipping
//! comments and verbatim text.
use vstd::prelude::*;
use crate::order::pairs_view;
use crate::text::{
    char_is_ws, chars_of, find_from, find_in, is_ws, lemma_find_from_bounds, matches_at, occurs_at,
    owned, slice_of, trim, trim_bounds, eq_str, string_of,
};
use crate::setup::strings_view;

verus! {

/// The source without its comments: from an unescaped `%` to the end of
/// its line. The state is the text so far, whether a comment is open, and
/// the previous character.
pub open spec fn uncommented_state(s: Seq<char>) -> (Seq<char>, bool, Option<char>)
    decreases s.len(),
{
    if s.len() == 0 {
        (Seq::empty(), false, None)
    } else {
        let (out, in_comment, previous) = uncommented_state(s.drop_last());
        let c = s.last();
        if c == '\n' {
            (out.push(c), false, Some(c))
        } else if in_comment {
            (out, true, Some(c))
        } else if c == '%' && previous != Some('\\') {
            (out, true, Some(c))
        } else {
            (out.push(c), false, Some(c))
        }
    }
}

pub open spec fn uncommented(s: Seq<char>) -> Seq<char> {
    uncommented_state(s).0
}

pub fn uncommented_source(source: &Vec<char>) -> (r: Vec<char>)
    ensures
        r@ == uncommented(source@),
{
    let mut out: Vec<char> = Vec::new();
    let mut in_comment = false;
    let mut previous: Option<char> = None;
    let mut i: usize = 0;
    while i < source.len()
        invariant
            i <= source.len(),
            (out@, in_comment, previous) == uncommented_state(source@.subrange(0, i as int)),
        decreases source.len() - i,
    {
        let c = source[i];
        proof {
            let t = source@.subrange(0, i + 1);
            assert(t.drop_last() == source@.subrange(0, i as int));
            assert(t.last() == c);
        }
        if c == '\n' {
            out.push(c);
            in_comment = false;
        } else if in_comment {
        } else if c == '%' && previous != Some('\\') {
            in_comment = true;
        } else {
            out.push(c);
        }
        previous = Some(c);
        i += 1;
    }
    assert(source@.subrange(0, source@.len() as int) == source@);
    out
}

pub open spec fn ascii_alpha(c: char) -> bool {
    ('a' <= c && c <= 'z') || ('A' <= c && c <= 'Z')
}

/// The first index at or after `i` that is not an ASCII letter.
pub open spec fn alpha_end(s: Seq<char>, i: int) -> int
    decreases s.len() - i,
{
    if i < 0 || i >= s.len() || !ascii_alpha(s[i]) {
        i
    } else {
        alpha_end(s, i + 1)
    }
}

/// The first index at or after `i` that is not white space.
pub open spec fn ws_end(s: Seq<char>, i: int) -> int
    decreases s.len() - i,
{
    if i < 0 || i >= s.len() || !is_ws(s[i]) {
        i
    } else {
        ws_end(s, i + 1)
    }
}

pub proof fn lemma_alpha_end(s: Seq<char>, i: int)
    requires
        0 <= i <= s.len(),
    ensures
        i <= alpha_end(s, i) <= s.len(),
    decreases s.len() - i,
{
    if i < s.len() && ascii_alpha(s[i]) {
        lemma_alpha_end(s, i + 1);
    }
}

pub proof fn lemma_ws_end(s: Seq<char>, i: int)
    requires
        0 <= i <= s.len(),
    ensures
        i <= ws_end(s, i) <= s.len(),
    decreases s.len() - i,
{
    if i < s.len() && is_ws(s[i]) {
        lemma_ws_end(s, i + 1);
    }
}

/// An environment whose body is verbatim text.
pub open spec fn verbatim_environment(a: Seq<char>) -> bool {
    a == "verbatim"@ || a == "Verbatim"@ || a == "lstlisting"@ || a == "minted"@
}

/// Where the `[...]` option of a command ends, from `q1`, after white
/// space; `None` where the option never closes.
pub open spec fn after_option(s: Seq<char>, q1: int) -> Option<int> {
    if q1 < s.len() && s[q1] == '[' {
        match find_from(s, seq![']'], q1) {
            Some(k) => Some(ws_end(s, k + 1)),
            None => None,
        }
    } else {
        Some(q1)
    }
}

/// The first braced argument at `q`, trimmed, and where scanning resumes.
pub open spec fn braced_argument(s: Seq<char>, q: int) -> (Seq<char>, int) {
    if 0 <= q < s.len() && s[q] == '{' {
        match find_from(s, seq!['}'], q + 1) {
            Some(k) => (trim(s.subrange(q + 1, k)), k + 1),
            None => (Seq::empty(), q),
        }
    } else {
        (Seq::empty(), q)
    }
}

/// One step of the scan at `pos`: the command found (if any) and where
/// the scan resumes (`None` where it stops).
pub open spec fn step(s: Seq<char>, pos: int) -> (Option<(Seq<char>, Seq<char>)>, Option<int>) {
    match find_from(s, seq!['\\'], pos) {
        None => (None, None),
        Some(b) => {
            let p = b + 1;
            let e = alpha_end(s, p);
            if e == p {
                if p >= s.len() {
                    (None, None)
                } else {
                    (None, Some(p + 1))
                }
            } else {
                let name0 = s.subrange(p, e);
                let name = if name0 == "write"@ && occurs_at(s, "18"@, ws_end(s, e)) {
                    "write18"@
                } else {
                    name0
                };
                if name == "verb"@ {
                    let q = if e < s.len() && s[e] == '*' { e + 1 } else { e };
                    if q >= s.len() {
                        (None, None)
                    } else {
                        match find_from(s, seq![s[q]], q + 1) {
                            Some(k) => (None, Some(k + 1)),
                            None => (None, None),
                        }
                    }
                } else {
                    match after_option(s, ws_end(s, e)) {
                        None => (Some((name, Seq::empty())), None),
                        Some(q) => {
                            let (argument, q3) = braced_argument(s, q);
                            if name == "begin"@ && verbatim_environment(argument) {
                                let end = "\\end{"@ + argument + "}"@;
                                match find_from(s, end, q3) {
                                    Some(k) => (Some((name, argument)), Some(k + end.len())),
                                    None => (Some((name, argument)), None),
                                }
                            } else {
                                (Some((name, argument)), Some(q3))
                            }
                        },
                    }
                }
            }
        },
    }
}

pub proof fn lemma_step_advances(s: Seq<char>, pos: int)
    requires
        0 <= pos <= s.len(),
    ensures
        step(s, pos).1 matches Some(q) ==> pos < q <= s.len(),
{
    lemma_find_from_bounds(s, seq!['\\'], pos);
    match find_from(s, seq!['\\'], pos) {
        None => {},
        Some(b) => {
            let p = b + 1;
            lemma_alpha_end(s, p);
            let e = alpha_end(s, p);
            lemma_ws_end(s, e);
            if e != p {
                let q = if e < s.len() && s[e] == '*' { e + 1 } else { e };
                if q < s.len() {
                    lemma_find_from_bounds(s, seq![s[q]], q + 1);
                }
                let q1 = ws_end(s, e);
                if q1 < s.len() && s[q1] == '[' {
                    lemma_find_from_bounds(s, seq![']'], q1);
                    if find_from(s, seq![']'], q1) is Some {
                        lemma_ws_end(s, find_from(s, seq![']'], q1)->0 + 1);
                    }
                }
                match after_option(s, q1) {
                    None => {},
                    Some(q) => {
                        if 0 <= q < s.len() && s[q] == '{' {
                            lemma_find_from_bounds(s, seq!['}'], q + 1);
                        }
                        let (argument, q3) = braced_argument(s, q);
                        let end = "\\end{"@ + argument + "}"@;
                        lemma_find_from_bounds(s, end, q3);
                    },
                }
            }
        },
    }
}

/// The commands from position `pos` on.
pub open spec fn commands_from(s: Seq<char>, pos: int) -> Seq<(Seq<char>, Seq<char>)>
    decreases s.len() + 1 - pos,
{
    if pos < 0 || pos > s.len() {
        Seq::empty()
    } else {
        let (item, next) = step(s, pos);
        let found = match item {
            Some(c) => seq![c],
            None => Seq::empty(),
        };
        match next {
            None => found,
            Some(q) => {
                proof {
                    lemma_step_advances(s, pos);
                }
                found + commands_from(s, q)
            },
        }
    }
}

/// The commands of a source, with their first braced argument.
pub open spec fn commands_of(source: Seq<char>) -> Seq<(Seq<char>, Seq<char>)> {
    commands_from(uncommented(source), 0)
}

fn ws_end_of(s: &Vec<char>, i: usize) -> (r: usize)
    requires
        i <= s.len(),
    ensures
        r as int == ws_end(s@, i as int),
{
    let mut k = i;
    while k < s.len() && char_is_ws(s[k])
        invariant
            i <= k <= s.len(),
            ws_end(s@, i as int) == ws_end(s@, k as int),
        decreases s.len() - k,
    {
        k += 1;
    }
    k
}

fn find_char_from(s: &Vec<char>, c: char, from: usize) -> (r: Option<usize>)
    ensures
        match find_from(s@, seq![c], from as int) {
            Some(k) => r == Some(k as usize),
            None => r is None,
        },
{
    let mut p: Vec<char> = Vec::new();
    p.push(c);
    assert(p@ == seq![c]);
    find_in(s, &p, from)
}

fn next_command(s: &Vec<char>, pos: usize) -> (r: (Option<(Vec<char>, Vec<char>)>, Option<usize>))
    requires
        pos <= s.len(),
    ensures
        (match r.0 {
            Some(c) => Some((c.0@, c.1@)),
            None => None,
        }, match r.1 {
            Some(q) => Some(q as int),
            None => None,
        }) == step(s@, pos as int),
{
    let n = s.len();
    let b = match find_char_from(s, '\\', pos) {
        Some(b) => b,
        None => return (None, None),
    };
    proof {
        lemma_find_from_bounds(s@, seq!['\\'], pos as int);
    }
    let p = b + 1;
    let mut e = p;
    while e < n && (('a' <= s[e] && s[e] <= 'z') || ('A' <= s[e] && s[e] <= 'Z'))
        invariant
            p <= e <= n,
            n == s.len(),
            alpha_end(s@, p as int) == alpha_end(s@, e as int),
        decreases n - e,
    {
        e += 1;
    }
    if e == p {
        if p >= n {
            return (None, None);
        }
        return (None, Some(p + 1));
    }
    let name0 = slice_of(s, p, e);
    let after_name = ws_end_of(s, e);
    let eighteen = chars_of("18");
    let is_write18 = crate::text::eq_str(&name0, "write") && matches_at(s, &eighteen, after_name);
    let name: Vec<char> = if is_write18 {
        chars_of("write18")
    } else {
        name0
    };
    if crate::text::eq_str(&name, "verb") {
        let q = if e < n && s[e] == '*' { e + 1 } else { e };
        if q >= n {
            return (None, None);
        }
        return match find_char_from(s, s[q], q + 1) {
            Some(k) => {
                proof {
                    lemma_find_from_bounds(s@, seq![s@[q as int]], q + 1);
                }
                (None, Some(k + 1))
            },
            None => (None, None),
        };
    }
    let q1 = after_name;
    let q = if q1 < n && s[q1] == '[' {
        match find_char_from(s, ']', q1) {
            Some(k) => {
                proof {
                    lemma_find_from_bounds(s@, seq![']'], q1 as int);
                }
                ws_end_of(s, k + 1)
            },
            None => {
                let empty: Vec<char> = Vec::new();
                return (Some((name, empty)), None);
            },
        }
    } else {
        q1
    };
    proof {
        lemma_ws_end(s@, e as int);
    }
    let mut argument: Vec<char> = Vec::new();
    let mut q3 = q;
    if q < n && s[q] == '{' {
        if let Some(k) = find_char_from(s, '}', q + 1) {
            proof {
                lemma_find_from_bounds(s@, seq!['}'], q + 1);
            }
            let (a, c) = trim_bounds(s, q + 1, k);
            argument = slice_of(s, a, c);
            q3 = k + 1;
        }
    }
    assert((argument@, q3 as int) == braced_argument(s@, q as int));
    let is_begin = crate::text::eq_str(&name, "begin");
    let verbatim = crate::text::eq_str(&argument, "verbatim") || crate::text::eq_str(&argument, "Verbatim")
        || crate::text::eq_str(&argument, "lstlisting") || crate::text::eq_str(&argument, "minted");
    if is_begin && verbatim {
        let mut end = String::from_str("\\end{");
        crate::text::push_all(&mut end, &argument);
        end.append("}");
        let ev = chars_of(end.as_str());
        match find_in(s, &ev, q3) {
            Some(k) => {
                proof {
                    lemma_find_from_bounds(s@, ev@, q3 as int);
                }
                (Some((name, argument)), Some(k + ev.len()))
            },
            None => (Some((name, argument)), None),
        }
    } else {
        (Some((name, argument)), Some(q3))
    }
}

pub fn commands(source: &str) -> (r: Vec<(String, String)>)
    ensures
        pairs_view(r@) == commands_of(source@),
{
    let s = uncommented_source(&chars_of(source));
    let mut result: Vec<(String, String)> = Vec::new();
    let mut pos: usize = 0;
    loop
        invariant
            pos <= s.len(),
            s@ == uncommented(source@),
            commands_from(s@, 0) == pairs_view(result@) + commands_from(s@, pos as int),
        decreases s.len() - pos,
    {
        let (item, next) = next_command(&s, pos);
        let ghost before = pairs_view(result@);
        match item {
            Some((name, argument)) => {
                result.push((owned(&name), owned(&argument)));
                assert(pairs_view(result@) == before.push((name@, argument@)));
            },
            None => {},
        }
        proof {
            lemma_step_advances(s@, pos as int);
        }
        match next {
            Some(q) => {
                assert(pairs_view(result@) + commands_from(s@, q as int) =~= before + commands_from(s@, pos as int));
                pos = q;
            },
            None => {
                assert(pairs_view(result@) =~= before + commands_from(s@, pos as int));
                return result;
            },
        }
    }
}

/// The comma-separated values of `s` from `i` on.
pub open spec fn comma_values_from(s: Seq<char>, i: int) -> Seq<Seq<char>>
    decreases s.len() - i,
{
    if i < 0 || i > s.len() {
        Seq::empty()
    } else {
        match find_from(s, seq![','], i) {
            None => seq![s.subrange(i, s.len() as int)],
            Some(j) => {
                proof {
                    lemma_find_from_bounds(s, seq![','], i);
                }
                seq![s.subrange(i, j)] + comma_values_from(s, j + 1)
            },
        }
    }
}

/// One of the comma-separated values of `argument` is `package`.
pub open spec fn lists_value(argument: Seq<char>, package: Seq<char>) -> bool {
    exists|j: int| 0 <= j < comma_values_from(argument, 0).len() && trim(
        #[trigger] comma_values_from(argument, 0)[j],
    ) == package
}

/// A command that loads `package`.
pub open spec fn loads_via(c: (Seq<char>, Seq<char>), package: Seq<char>) -> bool {
    (c.0 == "usepackage"@ || c.0 == "RequirePackage"@) && lists_value(c.1, package)
}

/// The commands load `package`, by `\usepackage` or `\RequirePackage`.
pub open spec fn loads_package(commands: Seq<(Seq<char>, Seq<char>)>, package: Seq<char>) -> bool {
    exists|i: int| 0 <= i < commands.len() && loads_via(#[trigger] commands[i], package)
}

fn argument_lists(argument: &Vec<char>, package: &Vec<char>) -> (r: bool)
    ensures
        r == lists_value(argument@, package@),
{
    let ghost all = comma_values_from(argument@, 0);
    let ghost mut seen: Seq<Seq<char>> = Seq::empty();
    let mut i: usize = 0;
    loop
        invariant
            i <= argument.len() + 1,
            all == comma_values_from(argument@, 0),
            all == seen + comma_values_from(argument@, i as int),
            forall|j: int| 0 <= j < seen.len() ==> trim(#[trigger] seen[j]) != package@,
        decreases argument.len() + 1 - i,
    {
        if i > argument.len() {
            assert(comma_values_from(argument@, i as int) == Seq::<Seq<char>>::empty());
            assert(all =~= seen);
            return false;
        }
        let j = match find_char_from(argument, ',', i) {
            Some(j) => j,
            None => argument.len(),
        };
        proof {
            lemma_find_from_bounds(argument@, seq![','], i as int);
        }
        let (a, b) = trim_bounds(argument, i, j);
        let value = slice_of(argument, a, b);
        let ghost piece = argument@.subrange(i as int, j as int);
        if crate::text::seq_eq(&value, package) {
            proof {
                assert(comma_values_from(argument@, i as int)[0] == piece);
                assert(all[seen.len() as int] == piece);
            }
            return true;
        }
        proof {
            let rest = comma_values_from(argument@, i as int);
            assert(rest[0] == piece);
            if j < argument.len() {
                assert(rest == seq![piece] + comma_values_from(argument@, j + 1));
            } else {
                assert(rest == seq![piece]);
                assert(comma_values_from(argument@, j + 1) == Seq::<Seq<char>>::empty());
            }
            seen = seen.push(piece);
            assert(all =~= seen + comma_values_from(argument@, j + 1));
        }
        if j >= argument.len() {
            assert(comma_values_from(argument@, j + 1) == Seq::<Seq<char>>::empty());
            assert(all =~= seen);
            return false;
        }
        i = j + 1;
    }
}

pub fn has_package(commands: &Vec<(String, String)>, package: &str) -> (r: bool)
    ensures
        r == loads_package(pairs_view(commands@), package@),
{
    let p = chars_of(package);
    let ghost cv = pairs_view(commands@);
    let mut i: usize = 0;
    while i < commands.len()
        invariant
            i <= commands.len(),
            cv == pairs_view(commands@),
            p@ == package@,
            forall|q: int| 0 <= q < i ==> !loads_via(#[trigger] cv[q], package@),
        decreases commands.len() - i,
    {
        assert(cv[i as int] == (commands@[i as int].0@, commands@[i as int].1@));
        let name = chars_of(commands[i].0.as_str());
        if crate::text::eq_str(&name, "usepackage") || crate::text::eq_str(&name, "RequirePackage") {
            if argument_lists(&chars_of(commands[i].1.as_str()), &p) {
                assert(loads_via(cv[i as int], package@));
                return true;
            }
        }
        i += 1;
    }
    false
}

/// The extension a file named by a command gets where it has none: `tex`
/// for inputs, `sty` for packages, `cls` for classes; `None` for commands
/// that name no file.
pub open spec fn include_extension(name: Seq<char>) -> Option<Seq<char>> {
    if name == "input"@ || name == "include"@ || name == "subfile"@ {
        Some("tex"@)
    } else if name == "usepackage"@ || name == "RequirePackage"@ {
        Some("sty"@)
    } else if name == "documentclass"@ || name == "LoadClass"@ {
        Some("cls"@)
    } else {
        None
    }
}

/// Where the file name of `f[..e]` lies, as `Path::file_name` finds it:
/// its last component, past trailing slashes and `.` components; `None`
/// where there is none (an empty path, the root, a lone leading `.`, or a
/// last `..`).
pub open spec fn name_span(f: Seq<char>, e: int) -> Option<(int, int)>
    decreases e,
{
    if e <= 0 || e > f.len() {
        None
    } else if f[e - 1] == '/' {
        name_span(f, e - 1)
    } else {
        let s = crate::clean::last_slash(f.subrange(0, e)) + 1;
        proof {
            crate::clean::lemma_last_slash_bounds(f.subrange(0, e));
        }
        if f.subrange(s, e) == seq!['.'] {
            if s == 0 {
                None
            } else {
                proof {
                    assert(f.subrange(s, e).len() == 1);
                }
                name_span(f, s)
            }
        } else if f.subrange(s, e) == seq!['.', '.'] {
            None
        } else {
            Some((s, e))
        }
    }
}

/// A file name with an extension: a dot past its first character.
pub open spec fn dotted(f: Seq<char>, s: int, e: int) -> bool {
    exists|k: int| s < k < e && f[k] == '.'
}

/// `file`, given `.ext` where its file name has no extension, as
/// `PathBuf::set_extension` does: the path cut after its file name, then
/// the extension.
pub open spec fn with_default_extension(f: Seq<char>, ext: Seq<char>) -> Seq<char> {
    match name_span(f, f.len() as int) {
        None => f,
        Some((s, e)) => if dotted(f, s, e) {
            f
        } else {
            f.subrange(0, e) + seq!['.'] + ext
        },
    }
}

/// The non-blank values among `vals`, trimmed, each given `ext` where it
/// has no extension.
pub open spec fn value_files(vals: Seq<Seq<char>>, ext: Seq<char>) -> Seq<Seq<char>>
    decreases vals.len(),
{
    if vals.len() == 0 {
        Seq::empty()
    } else {
        value_files(vals.drop_last(), ext) + if trim(vals.last()).len() > 0 {
            seq![with_default_extension(trim(vals.last()), ext)]
        } else {
            Seq::empty()
        }
    }
}

/// The files the commands name, in order: each comma-separated value of
/// an input, include, subfile, package or class command.
pub open spec fn included_files(commands: Seq<(Seq<char>, Seq<char>)>) -> Seq<Seq<char>>
    decreases commands.len(),
{
    if commands.len() == 0 {
        Seq::empty()
    } else {
        included_files(commands.drop_last()) + match include_extension(commands.last().0) {
            Some(ext) => value_files(comma_values_from(commands.last().1, 0), ext),
            None => Seq::empty(),
        }
    }
}

fn comma_values(arg: &Vec<char>) -> (r: Vec<Vec<char>>)
    ensures
        crate::paths::texts_view(r@) == comma_values_from(arg@, 0),
{
    let ghost all = comma_values_from(arg@, 0);
    let mut r: Vec<Vec<char>> = Vec::new();
    let mut i: usize = 0;
    loop
        invariant
            i <= arg.len(),
            all == comma_values_from(arg@, 0),
            all == crate::paths::texts_view(r@) + comma_values_from(arg@, i as int),
        decreases arg.len() - i,
    {
        let j = match find_char_from(arg, ',', i) {
            Some(j) => j,
            None => arg.len(),
        };
        proof {
            lemma_find_from_bounds(arg@, seq![','], i as int);
        }
        let piece = slice_of(arg, i, j);
        let ghost before = crate::paths::texts_view(r@);
        r.push(piece);
        proof {
            let rest = comma_values_from(arg@, i as int);
            assert(crate::paths::texts_view(r@) =~= before.push(arg@.subrange(i as int, j as int)));
            if j < arg.len() {
                assert(rest == seq![arg@.subrange(i as int, j as int)] + comma_values_from(arg@, j + 1));
                assert(all =~= crate::paths::texts_view(r@) + comma_values_from(arg@, j + 1));
            } else {
                assert(rest == seq![arg@.subrange(i as int, j as int)]);
                assert(all =~= crate::paths::texts_view(r@));
            }
        }
        if j >= arg.len() {
            return r;
        }
        i = j + 1;
    }
}

fn file_name_span(f: &Vec<char>) -> (r: Option<(usize, usize)>)
    ensures
        match name_span(f@, f@.len() as int) {
            Some((s, e)) => r matches Some(p) && p.0 == s && p.1 == e && 0 <= s < e <= f@.len(),
            None => r is None,
        },
{
    let mut e: usize = f.len();
    loop
        invariant
            e <= f.len(),
            name_span(f@, f@.len() as int) == name_span(f@, e as int),
        decreases e,
    {
        if e == 0 {
            return None;
        }
        if f[e - 1] == '/' {
            e -= 1;
            continue;
        }
        let mut s: usize = e - 1;
        proof {
            assert(f@.subrange(0, e as int).drop_last() =~= f@.subrange(0, e - 1));
        }
        while s > 0 && f[s - 1] != '/'
            invariant
                s < e <= f.len(),
                f[e - 1] != '/',
                name_span(f@, f@.len() as int) == name_span(f@, e as int),
                crate::clean::last_slash(f@.subrange(0, e as int)) == crate::clean::last_slash(f@.subrange(0, s as int)),
            decreases s,
        {
            assert(f@.subrange(0, s as int).drop_last() =~= f@.subrange(0, s - 1));
            s -= 1;
        }
        proof {
            if s > 0 {
                assert(f@.subrange(0, s as int).last() == '/');
            } else {
                assert(f@.subrange(0, 0) =~= Seq::<char>::empty());
            }
            assert(crate::clean::last_slash(f@.subrange(0, e as int)) + 1 == s);
        }
        let single_dot = e - s == 1 && f[s] == '.';
        let double_dot = e - s == 2 && f[s] == '.' && f[s + 1] == '.';
        proof {
            let seg = f@.subrange(s as int, e as int);
            assert(seg.len() == e - s);
            if e - s == 1 && f[s as int] == '.' {
                assert(seg =~= seq!['.']);
            }
            if e - s == 2 && f[s as int] == '.' && f[s + 1] == '.' {
                assert(seg =~= seq!['.', '.']);
            }
        }
        if single_dot {
            if s == 0 {
                return None;
            }
            e = s;
            continue;
        }
        if double_dot {
            return None;
        }
        proof {
            let seg = f@.subrange(s as int, e as int);
            assert(seg.len() == e - s);
            assert(seg[0] == f@[s as int]);
            let one: Seq<char> = seq!['.'];
            let two: Seq<char> = seq!['.', '.'];
            assert(one.len() == 1 && one[0] == '.');
            assert(two.len() == 2 && two[0] == '.' && two[1] == '.');
            if seg == one {
                assert(e - s == 1 && f@[s as int] == '.');
                assert(single_dot);
            }
            if seg == two {
                assert(seg[1] == f@[s + 1]);
                assert(e - s == 2 && f@[s as int] == '.' && f@[s + 1] == '.');
                assert(double_dot);
            }
            assert(seg != seq!['.']);
            assert(seg != seq!['.', '.']);
            assert(name_span(f@, e as int) == Some((s as int, e as int)));
        }
        return Some((s, e));
    }
}

fn default_extension(f: &Vec<char>, ext: &str) -> (r: String)
    ensures
        r@ == with_default_extension(f@, ext@),
{
    let span = file_name_span(f);
    match span {
        None => owned(f),
        Some((s, e)) => {
            proof {
                match name_span(f@, f@.len() as int) {
                    Some((s0, e0)) => {
                        assert(s0 == s && e0 == e);
                    },
                    None => {},
                }
                assert(name_span(f@, f@.len() as int) == Some((s as int, e as int)));
            }
            let mut k = s + 1;
            while k < e
                invariant
                    name_span(f@, f@.len() as int) == Some((s as int, e as int)),
                    s < e <= f.len(),
                    s + 1 <= k <= e,
                    forall|m: int| s < m < k ==> f@[m] != '.',
                decreases e - k,
            {
                if f[k] == '.' {
                    assert(dotted(f@, s as int, e as int));
                    return owned(f);
                }
                k += 1;
            }
            let mut r = string_of(f, 0, e);
            crate::text::push_char(&mut r, '.');
            r.append(ext);
            r
        },
    }
}

/// The files the commands name, as [`included_files`] gives them, for
/// following a paper's local inputs, packages and classes.
pub fn included_file_names(commands: &Vec<(String, String)>) -> (r: Vec<String>)
    ensures
        strings_view(r@) == included_files(pairs_view(commands@)),
{
    let ghost cv = pairs_view(commands@);
    let mut r: Vec<String> = Vec::new();
    let mut i: usize = 0;
    while i < commands.len()
        invariant
            i <= commands.len(),
            cv == pairs_view(commands@),
            strings_view(r@) == included_files(cv.subrange(0, i as int)),
        decreases commands.len() - i,
    {
        proof {
            assert(cv.subrange(0, i + 1).drop_last() =~= cv.subrange(0, i as int));
            assert(cv[i as int] == (commands@[i as int].0@, commands@[i as int].1@));
        }
        let name = chars_of(commands[i].0.as_str());
        let ext: Option<&str> = if eq_str(&name, "input") || eq_str(&name, "include") || eq_str(&name, "subfile") {
            Some("tex")
        } else if eq_str(&name, "usepackage") || eq_str(&name, "RequirePackage") {
            Some("sty")
        } else if eq_str(&name, "documentclass") || eq_str(&name, "LoadClass") {
            Some("cls")
        } else {
            None
        };
        proof {
            reveal_strlit("tex");
            reveal_strlit("sty");
            reveal_strlit("cls");
        }
        match ext {
            Some(x) => {
                let arg = chars_of(commands[i].1.as_str());
                let vals = comma_values(&arg);
                let ghost vv = crate::paths::texts_view(vals@);
                let ghost base = strings_view(r@);
                let mut j: usize = 0;
                while j < vals.len()
                    invariant
                        j <= vals.len(),
                        vv == crate::paths::texts_view(vals@),
                        strings_view(r@) == base + value_files(vv.subrange(0, j as int), x@),
                    decreases vals.len() - j,
                {
                    proof {
                        assert(vv.subrange(0, j + 1).drop_last() =~= vv.subrange(0, j as int));
                        assert(vv[j as int] == vals@[j as int]@);
                    }
                    let (a, b) = trim_bounds(&vals[j], 0, vals[j].len());
                    assert(vals[j as int]@.subrange(0, vals[j as int]@.len() as int) =~= vals[j as int]@);
                    if a < b {
                        let t = slice_of(&vals[j], a, b);
                        let file = default_extension(&t, x);
                        let ghost before = strings_view(r@);
                        r.push(file);
                        assert(strings_view(r@) =~= before.push(file@));
                    } else {
                        assert(strings_view(r@) =~= strings_view(r@) + Seq::<Seq<char>>::empty());
                    }
                    proof {
                        assert(vv.subrange(0, j + 1).last() == vv[j as int]);
                    }
                    j += 1;
                }
                proof {
                    assert(vv.subrange(0, vv.len() as int) =~= vv);
                    assert(include_extension(cv[i as int].0) == Some(x@));
                }
            },
            None => {
                proof {
                    assert(include_extension(cv[i as int].0) is None);
                    assert(strings_view(r@) =~= strings_view(r@) + Seq::<Seq<char>>::empty());
                }
            },
        }
        i += 1;
    }
    assert(cv.subrange(0, cv.len() as int) =~= cv);
    r
}

} // verus!
