//! What an engine log says is missing: package-shaped file requests that the
//! package manager can be asked for, and font providers that the runtime needs.
use vstd::prelude::*;
use crate::order::{insert_pair, pairs_sorted, pairs_view};
use crate::paths::texts_view;
use crate::text::{
    after_last, after_last_in, all_word_chars, chars_of, contains, contains_str, ends_with,
    ends_with_str, eq_ignore_case_str, eq_str, extension, extension_of, find, find_char,
    find_char_in, find_str, first_word, first_word_of, has_char, last_word, last_word_of,
    lemma_find_from_bounds, lower_seq, occurs_at, lower_vec, matches_at, owned, push_all, rfind_char, rfind_char_in,
    slice_of, starts_with, starts_with_str, trim, trim_bounds, word_chars,
};

verus! {

pub open spec fn opt_view(o: Option<Vec<char>>) -> Option<Seq<char>> {
    match o {
        Some(v) => Some(v@),
        None => None,
    }
}

pub open spec fn opt_string_view(o: Option<String>) -> Option<Seq<char>> {
    match o {
        Some(v) => Some(v@),
        None => None,
    }
}

pub open spec fn opt_pair_view(o: Option<(String, String)>) -> Option<(Seq<char>, Seq<char>)> {
    match o {
        Some(p) => Some((p.0@, p.1@)),
        None => None,
    }
}

/// The text after the first occurrence of `marker`.
pub open spec fn after_marker(line: Seq<char>, marker: Seq<char>) -> Option<Seq<char>> {
    match find(line, marker) {
        Some(i) => Some(line.subrange(i + marker.len(), line.len() as int)),
        None => None,
    }
}

/// The text after `marker` where `line` starts with it.
pub open spec fn strip_prefix(line: Seq<char>, marker: Seq<char>) -> Option<Seq<char>> {
    if starts_with(line, marker) {
        Some(line.subrange(marker.len() as int, line.len() as int))
    } else {
        None
    }
}

/// The text before `marker` where `line` ends with it.
pub open spec fn strip_suffix(line: Seq<char>, marker: Seq<char>) -> Option<Seq<char>> {
    if ends_with(line, marker) {
        Some(line.subrange(0, line.len() - marker.len()))
    } else {
        None
    }
}

/// The text before and from the first `close`.
pub open spec fn split_at_char(tail: Seq<char>, close: char) -> Option<(Seq<char>, Seq<char>)> {
    match find_char(tail, close) {
        Some(end) => Some((tail.subrange(0, end), tail.subrange(end, tail.len() as int))),
        None => None,
    }
}

fn after_marker_in(line: &Vec<char>, marker: &str) -> (r: Option<Vec<char>>)
    ensures
        opt_view(r) == after_marker(line@, marker@),
{
    match find_str(line, marker) {
        Some(i) => {
            let m = chars_of(marker);
            let n = line.len();
            proof {
                lemma_find_from_bounds(line@, marker@, 0);
            }
            assert(i + m.len() <= n);
            Some(slice_of(line, i + m.len(), n))
        },
        None => None,
    }
}

fn strip_prefix_in(line: &Vec<char>, marker: &str) -> (r: Option<Vec<char>>)
    ensures
        opt_view(r) == strip_prefix(line@, marker@),
{
    if starts_with_str(line, marker) {
        let m = chars_of(marker);
        Some(slice_of(line, m.len(), line.len()))
    } else {
        None
    }
}

fn strip_suffix_in(line: &Vec<char>, marker: &str) -> (r: Option<Vec<char>>)
    ensures
        opt_view(r) == strip_suffix(line@, marker@),
{
    if ends_with_str(line, marker) {
        let m = chars_of(marker);
        Some(slice_of(line, 0, line.len() - m.len()))
    } else {
        None
    }
}

fn split_at_char_in(tail: &Vec<char>, close: char) -> (r: Option<(Vec<char>, Vec<char>)>)
    ensures
        r matches Some(p) ==> split_at_char(tail@, close) == Some((p.0@, p.1@)),
        r is None ==> split_at_char(tail@, close) is None,
{
    match find_char_in(tail, close) {
        Some(end) => {
            proof {
                lemma_find_from_bounds(tail@, seq![close], 0);
            }
            Some((slice_of(tail, 0, end), slice_of(tail, end, tail.len())))
        },
        None => None,
    }
}

fn trimmed(s: &Vec<char>) -> (r: Vec<char>)
    ensures
        r@ == trim(s@),
{
    let (a, b) = trim_bounds(s, 0, s.len());
    assert(s@.subrange(0, s@.len() as int) == s@);
    slice_of(s, a, b)
}

fn text(s: &str) -> (r: String)
    ensures
        r@ == s@,
{
    String::from_str(s)
}

fn text_then(v: &Vec<char>, suffix: &str) -> (r: String)
    ensures
        r@ == v@ + suffix@,
{
    let mut r = String::new();
    push_all(&mut r, v);
    r.append(suffix);
    r
}

/// A relative path whose `/`-separated components are all ordinary names:
/// none is empty, `.` or `..`, and no backslash appears.
pub open spec fn safe_request(s: Seq<char>) -> bool {
    &&& s.len() > 0
    &&& s[0] != '/'
    &&& !s.contains('\\')
    &&& forall|i: int| 0 <= i < s.len() ==> #[trigger] component_ok_at(s, i)
}

/// At `i` no empty component ends and no `.` or `..` component starts.
pub open spec fn component_ok_at(s: Seq<char>, i: int) -> bool {
    &&& s[i] == '/' ==> i + 1 < s.len() && s[i + 1] != '/'
    &&& (i == 0 || s[i - 1] == '/') ==> !dot_component_at(s, i)
}

pub open spec fn dot_component_at(s: Seq<char>, i: int) -> bool {
    ||| (s[i] == '.' && (i + 1 == s.len() || s[i + 1] == '/'))
    ||| (s[i] == '.' && i + 1 < s.len() && s[i + 1] == '.' && (i + 2 == s.len() || s[i + 2] == '/'))
}

fn check_component_at(s: &Vec<char>, i: usize) -> (b: bool)
    requires
        i < s.len(),
    ensures
        b == component_ok_at(s@, i as int),
{
    let n = s.len();
    if s[i] == '/' && !(i + 1 < n && s[i + 1] != '/') {
        return false;
    }
    if i == 0 || s[i - 1] == '/' {
        let single = s[i] == '.' && (i + 1 == n || s[i + 1] == '/');
        let double = s[i] == '.' && i + 1 < n && s[i + 1] == '.' && (i + 2 == n || s[i + 2] == '/');
        if single || double {
            return false;
        }
    }
    true
}

/// A request that may be handed to the package registry as a file name.
pub fn is_safe_registry_file_request(requested: &str) -> (b: bool)
    ensures
        b == safe_request(requested@),
{
    let s = chars_of(requested);
    if s.len() == 0 || s[0] == '/' || has_char(&s, '\\') {
        return false;
    }
    let mut i: usize = 0;
    while i < s.len()
        invariant
            i <= s.len(),
            s@ == requested@,
            forall|j: int| 0 <= j < i ==> #[trigger] component_ok_at(s@, j),
        decreases s.len() - i,
    {
        if !check_component_at(&s, i) {
            return false;
        }
        i += 1;
    }
    true
}

fn safe_request_in(s: &Vec<char>) -> (b: bool)
    ensures
        b == safe_request(s@),
{
    let mut r = String::new();
    push_all(&mut r, s);
    assert(r@ == s@);
    is_safe_registry_file_request(r.as_str())
}

/// The package kind of a TeX file request with the given lower-case extension.
pub open spec fn tex_file_kind(ext: Seq<char>) -> Option<Seq<char>> {
    if ext == "sty"@ || ext == "cls"@ || ext == "def"@ || ext == "fd"@ || ext == "cfg"@ || ext
        == "clo"@ || ext == "ldf"@ {
        Some("tex"@)
    } else if ext == "bst"@ {
        Some("bibliography"@)
    } else {
        None
    }
}

fn tex_file_kind_of(ext: &Vec<char>) -> (r: Option<String>)
    ensures
        opt_string_view(r) == tex_file_kind(ext@),
{
    if eq_str(ext, "sty") || eq_str(ext, "cls") || eq_str(ext, "def") || eq_str(ext, "fd")
        || eq_str(ext, "cfg") || eq_str(ext, "clo") || eq_str(ext, "ldf") {
        Some(text("tex"))
    } else if eq_str(ext, "bst") {
        Some(text("bibliography"))
    } else {
        None
    }
}

/// The marker of a LaTeX "File `...' not found" diagnostic in `line`.
pub open spec fn file_marker(line: Seq<char>) -> Option<Seq<char>> {
    if contains(line, "File `"@) {
        Some("File `"@)
    } else if contains(line, "file `"@) {
        Some("file `"@)
    } else {
        None
    }
}

/// A missing file named by a LaTeX or package "File `x' not found" error.
pub open spec fn file_input_in(line: Seq<char>) -> Option<(Seq<char>, Seq<char>)> {
    match file_marker(line) {
        None => None,
        Some(marker) => match after_marker(line, marker) {
            None => None,
            Some(tail) => match split_at_char(tail, '\'') {
                None => None,
                Some((name, rest)) => {
                    let requested = trim(name);
                    if !contains(rest, "not found"@) || !safe_request(requested) {
                        None
                    } else {
                        match extension(requested) {
                            None => None,
                            Some(ext) => {
                                let e = lower_seq(ext);
                                if e == "tex"@ {
                                    Some((requested, "data"@))
                                } else {
                                    match tex_file_kind(e) {
                                        Some(kind) => Some((requested, kind)),
                                        None => None,
                                    }
                                }
                            },
                        }
                    }
                },
            },
        },
    }
}

pub fn missing_file_input(line: &str) -> (r: Option<(String, String)>)
    ensures
        opt_pair_view(r) == file_input_in(line@),
{
    let l = chars_of(line);
    let marker = if contains_str(&l, "File `") {
        "File `"
    } else if contains_str(&l, "file `") {
        "file `"
    } else {
        return None;
    };
    let tail = match after_marker_in(&l, marker) {
        Some(t) => t,
        None => return None,
    };
    let (name, rest) = match split_at_char_in(&tail, '\'') {
        Some(p) => p,
        None => return None,
    };
    let requested = trimmed(&name);
    if !contains_str(&rest, "not found") || !safe_request_in(&requested) {
        return None;
    }
    let ext = match extension_of(&requested) {
        Some(e) => e,
        None => return None,
    };
    let e = lower_vec(&ext);
    let kind = if eq_str(&e, "tex") {
        text("data")
    } else {
        match tex_file_kind_of(&e) {
            Some(k) => k,
            None => return None,
        }
    };
    Some((owned(&requested), kind))
}

/// A missing file named by TeX's own "! I can't find file `x'." error.
pub open spec fn tex_input_in(line: Seq<char>) -> Option<(Seq<char>, Seq<char>)> {
    match strip_prefix(line, "! I can't find file `"@) {
        None => None,
        Some(rest) => match strip_suffix(rest, "'."@) {
            None => None,
            Some(name) => {
                let requested = trim(name);
                if !word_chars(requested, "-_."@) {
                    None
                } else {
                    match extension(requested) {
                        None => None,
                        Some(ext) => match tex_file_kind(lower_seq(ext)) {
                            Some(kind) => Some((requested, kind)),
                            None => None,
                        },
                    }
                }
            },
        },
    }
}

pub fn missing_tex_input(line: &str) -> (r: Option<(String, String)>)
    ensures
        opt_pair_view(r) == tex_input_in(line@),
{
    let l = chars_of(line);
    let rest = match strip_prefix_in(&l, "! I can't find file `") {
        Some(r) => r,
        None => return None,
    };
    let name = match strip_suffix_in(&rest, "'.") {
        Some(n) => n,
        None => return None,
    };
    let requested = trimmed(&name);
    if !all_word_chars(&requested, "-_.") {
        return None;
    }
    let ext = match extension_of(&requested) {
        Some(e) => e,
        None => return None,
    };
    let e = lower_vec(&ext);
    match tex_file_kind_of(&e) {
        Some(kind) => Some((owned(&requested), kind)),
        None => None,
    }
}

/// `s` without its spaces.
pub open spec fn without_spaces(s: Seq<char>) -> Seq<char>
    decreases s.len(),
{
    if s.len() == 0 {
        s
    } else if s.last() == ' ' {
        without_spaces(s.drop_last())
    } else {
        without_spaces(s.drop_last()).push(s.last())
    }
}

/// The style suffix that fontspec names a regular face by, where the family
/// name ends with one of the four styles (case-insensitively).
pub open spec fn style_suffix(compact: Seq<char>) -> Option<Seq<char>> {
    if ends_with(lower_seq(compact), lower_seq("BoldItalic"@)) {
        Some("BoldItalic"@)
    } else if ends_with(lower_seq(compact), lower_seq("Regular"@)) {
        Some("Regular"@)
    } else if ends_with(lower_seq(compact), lower_seq("Italic"@)) {
        Some("Italic"@)
    } else if ends_with(lower_seq(compact), lower_seq("Bold"@)) {
        Some("Bold"@)
    } else {
        None
    }
}

/// The file stem fontspec looks for when a family name is given.
pub open spec fn regular_stem(font: Seq<char>) -> Seq<char> {
    let compact = without_spaces(font);
    if compact.contains('-') {
        compact
    } else {
        match style_suffix(compact) {
            Some(suffix) => compact.subrange(0, compact.len() - suffix.len()) + "-"@ + suffix,
            None => compact + "-Regular"@,
        }
    }
}

fn without_spaces_of(s: &Vec<char>) -> (r: Vec<char>)
    ensures
        r@ == without_spaces(s@),
{
    let mut r: Vec<char> = Vec::new();
    let mut i: usize = 0;
    while i < s.len()
        invariant
            i <= s.len(),
            r@ == without_spaces(s@.subrange(0, i as int)),
        decreases s.len() - i,
    {
        proof {
            let t = s@.subrange(0, i + 1);
            assert(t.drop_last() == s@.subrange(0, i as int));
            assert(t.last() == s@[i as int]);
        }
        if s[i] != ' ' {
            r.push(s[i]);
        }
        i += 1;
    }
    assert(s@.subrange(0, s@.len() as int) == s@);
    r
}

fn ends_with_ignore_case(s: &Vec<char>, suffix: &str) -> (b: bool)
    ensures
        b == ends_with(lower_seq(s@), lower_seq(suffix@)),
{
    let a = lower_vec(s);
    let p = chars_of(suffix);
    let q = lower_vec(&p);
    if q.len() > a.len() {
        return false;
    }
    matches_at(&a, &q, a.len() - q.len())
}

pub fn fontspec_regular_stem(font: &str) -> (r: String)
    ensures
        r@ == regular_stem(font@),
{
    let f = chars_of(font);
    let compact = without_spaces_of(&f);
    if has_char(&compact, '-') {
        return owned(&compact);
    }
    let suffix = if ends_with_ignore_case(&compact, "BoldItalic") {
        "BoldItalic"
    } else if ends_with_ignore_case(&compact, "Regular") {
        "Regular"
    } else if ends_with_ignore_case(&compact, "Italic") {
        "Italic"
    } else if ends_with_ignore_case(&compact, "Bold") {
        "Bold"
    } else {
        return text_then(&compact, "-Regular");
    };
    let sfx = chars_of(suffix);
    proof {
        assert(lower_seq(suffix@).len() == suffix@.len());
        assert(lower_seq(compact@).len() == compact@.len());
    }
    let stem = slice_of(&compact, 0, compact.len() - sfx.len());
    let mut r = text_then(&stem, "-");
    r.append(suffix);
    r
}

/// A font that fontspec reports it cannot find, with its kind.
pub open spec fn fontspec_file_in(line: Seq<char>) -> Option<(Seq<char>, Seq<char>)> {
    match after_marker(line, "The font \""@) {
        None => None,
        Some(tail) => match split_at_char(tail, '"') {
            None => None,
            Some((name, rest)) => {
                let font = trim(name);
                if !contains(rest, "cannot be found"@) || font.len() == 0 || !word_chars(
                    font,
                    "-_. "@,
                ) {
                    None
                } else {
                    match extension(font) {
                        Some(ext) => if lower_seq(ext) == "otf"@ {
                            Some((font, "open-type-font"@))
                        } else if lower_seq(ext) == "ttf"@ {
                            Some((font, "true-type-font"@))
                        } else {
                            None
                        },
                        None => Some((regular_stem(font), "font-family"@)),
                    }
                }
            },
        },
    }
}

pub fn missing_fontspec_file(line: &str) -> (r: Option<(String, String)>)
    ensures
        opt_pair_view(r) == fontspec_file_in(line@),
{
    let l = chars_of(line);
    let tail = match after_marker_in(&l, "The font \"") {
        Some(t) => t,
        None => return None,
    };
    let (name, rest) = match split_at_char_in(&tail, '"') {
        Some(p) => p,
        None => return None,
    };
    let font = trimmed(&name);
    if !contains_str(&rest, "cannot be found") || font.len() == 0 || !all_word_chars(&font, "-_. ") {
        return None;
    }
    match extension_of(&font) {
        Some(ext) => {
            let e = lower_vec(&ext);
            if eq_str(&e, "otf") {
                Some((owned(&font), text("open-type-font")))
            } else if eq_str(&e, "ttf") {
                Some((owned(&font), text("true-type-font")))
            } else {
                None
            }
        },
        None => {
            let f = owned(&font);
            Some((fontspec_regular_stem(f.as_str()), text("font-family")))
        },
    }
}

/// A Type 1 font file that pdfTeX could not open.
pub open spec fn pdftex_type1_file_in(line: Seq<char>) -> Option<Seq<char>> {
    match after_marker(line, "(file "@) {
        None => None,
        Some(tail) => match split_at_char(tail, ')') {
            None => None,
            Some((name, rest)) => {
                let requested = trim(name);
                if !contains(rest, "cannot open Type"@) {
                    None
                } else {
                    match extension(requested) {
                        None => None,
                        Some(ext) => if (lower_seq(ext) == "pfb"@ || lower_seq(ext) == "pfa"@)
                            && safe_request(requested) {
                            Some(requested)
                        } else {
                            None
                        },
                    }
                }
            },
        },
    }
}

pub fn missing_pdftex_type1_file(line: &str) -> (r: Option<String>)
    ensures
        opt_string_view(r) == pdftex_type1_file_in(line@),
{
    let l = chars_of(line);
    let tail = match after_marker_in(&l, "(file ") {
        Some(t) => t,
        None => return None,
    };
    let (name, rest) = match split_at_char_in(&tail, ')') {
        Some(p) => p,
        None => return None,
    };
    let requested = trimmed(&name);
    if !contains_str(&rest, "cannot open Type") {
        return None;
    }
    let ext = match extension_of(&requested) {
        Some(e) => e,
        None => return None,
    };
    let e = lower_vec(&ext);
    if (eq_str(&e, "pfb") || eq_str(&e, "pfa")) && safe_request_in(&requested) {
        Some(owned(&requested))
    } else {
        None
    }
}

/// A font definition file that NFSS reports missing, lower-cased.
pub open spec fn nfss_definition_in(line: Seq<char>) -> Option<Seq<char>> {
    match strip_prefix(line, "No file "@) {
        None => None,
        Some(rest) => match strip_suffix(rest, "."@) {
            None => None,
            Some(name) => {
                let requested = trim(name);
                if !ends_with(lower_seq(requested), ".fd"@) || !word_chars(requested, "-_."@) {
                    None
                } else {
                    Some(lower_seq(requested))
                }
            },
        },
    }
}

pub fn missing_nfss_definition(line: &str) -> (r: Option<String>)
    ensures
        opt_string_view(r) == nfss_definition_in(line@),
{
    let l = chars_of(line);
    let rest = match strip_prefix_in(&l, "No file ") {
        Some(r) => r,
        None => return None,
    };
    let name = match strip_suffix_in(&rest, ".") {
        Some(n) => n,
        None => return None,
    };
    let requested = trimmed(&name);
    let low = lower_vec(&requested);
    if !ends_with_str(&low, ".fd") || !all_word_chars(&requested, "-_.") {
        return None;
    }
    Some(owned(&low))
}

/// The language of a Babel "Unknown option" error, in either log form.
pub open spec fn babel_language_in(line: Seq<char>) -> Option<Seq<char>> {
    match after_marker(line, "Package babel Error: Unknown option '"@) {
        None => None,
        Some(tail) => match split_at_char(tail, '\'') {
            None => None,
            Some((name, _rest)) => {
                let language = trim(name);
                if language.len() == 0 || !word_chars(language, "-"@) {
                    None
                } else {
                    Some(language)
                }
            },
        },
    }
}

pub fn missing_babel_language(line: &str) -> (r: Option<String>)
    ensures
        opt_string_view(r) == babel_language_in(line@),
{
    let l = chars_of(line);
    let tail = match after_marker_in(&l, "Package babel Error: Unknown option '") {
        Some(t) => t,
        None => return None,
    };
    let (name, _rest) = match split_at_char_in(&tail, '\'') {
        Some(p) => p,
        None => return None,
    };
    let language = trimmed(&name);
    if language.len() == 0 || !all_word_chars(&language, "-") {
        return None;
    }
    Some(owned(&language))
}

/// The definition file that a Babel locale descriptor names.
pub open spec fn babel_definition_in(descriptor: Seq<char>) -> Option<Seq<char>> {
    match after_marker(descriptor, "\\BabelDefinitionFile{0}{"@) {
        None => None,
        Some(tail) => match split_at_char(tail, '}') {
            None => None,
            Some((name, _rest)) => {
                let module = trim(name);
                if module.len() == 0 || !word_chars(module, "-_"@) {
                    None
                } else {
                    Some(module + ".ldf"@)
                }
            },
        },
    }
}

/// Babel's language name is not always its definition file name (`russian`
/// is defined by `russianb.ldf`); the locale descriptor records the mapping.
pub fn babel_definition_from_descriptor(descriptor: &str) -> (r: Option<String>)
    ensures
        opt_string_view(r) == babel_definition_in(descriptor@),
{
    let d = chars_of(descriptor);
    let tail = match after_marker_in(&d, "\\BabelDefinitionFile{0}{") {
        Some(t) => t,
        None => return None,
    };
    let (name, _rest) = match split_at_char_in(&tail, '}') {
        Some(p) => p,
        None => return None,
    };
    let module = trimmed(&name);
    if module.len() == 0 || !all_word_chars(&module, "-_") {
        return None;
    }
    Some(text_then(&module, ".ldf"))
}

/// The TikZ library file that a TikZ error reports missing.
pub open spec fn tikz_library_in(line: Seq<char>) -> Option<Seq<char>> {
    match strip_prefix(line, "! Package tikz Error: I did not find the tikz library '"@) {
        None => None,
        Some(tail) => match split_at_char(tail, '\'') {
            None => None,
            Some((name, _rest)) => {
                let library = trim(name);
                if library.len() == 0 || !word_chars(library, "-_"@) {
                    None
                } else {
                    Some("tikzlibrary"@ + library + ".code.tex"@)
                }
            },
        },
    }
}

pub fn missing_tikz_library(line: &str) -> (r: Option<String>)
    ensures
        opt_string_view(r) == tikz_library_in(line@),
{
    let l = chars_of(line);
    let tail = match strip_prefix_in(&l, "! Package tikz Error: I did not find the tikz library '") {
        Some(t) => t,
        None => return None,
    };
    let (name, _rest) = match split_at_char_in(&tail, '\'') {
        Some(p) => p,
        None => return None,
    };
    let library = trimmed(&name);
    if library.len() == 0 || !all_word_chars(&library, "-_") {
        return None;
    }
    let mut r = text("tikzlibrary");
    push_all(&mut r, &library);
    r.append(".code.tex");
    Some(r)
}

/// The biblatex bibliography style file that biblatex reports missing.
pub open spec fn biblatex_style_in(line: Seq<char>) -> Option<Seq<char>> {
    match strip_prefix(line, "! Package biblatex Error: Style '"@) {
        None => None,
        Some(tail) => match split_at_char(tail, '\'') {
            None => None,
            Some((name, rest)) => {
                let style = trim(name);
                if !contains(rest, "not found"@) || style.len() == 0 || !word_chars(style, "-_"@) {
                    None
                } else {
                    Some(style + ".bbx"@)
                }
            },
        },
    }
}

pub fn missing_biblatex_style(line: &str) -> (r: Option<String>)
    ensures
        opt_string_view(r) == biblatex_style_in(line@),
{
    let l = chars_of(line);
    let tail = match strip_prefix_in(&l, "! Package biblatex Error: Style '") {
        Some(t) => t,
        None => return None,
    };
    let (name, rest) = match split_at_char_in(&tail, '\'') {
        Some(p) => p,
        None => return None,
    };
    let style = trimmed(&name);
    if !contains_str(&rest, "not found") || style.len() == 0 || !all_word_chars(&style, "-_") {
        return None;
    }
    Some(text_then(&style, ".bbx"))
}

/// A metric name that names a real font file rather than `nullfont`.
pub open spec fn real_metric(metric: Seq<char>) -> bool {
    &&& lower_seq(metric) != lower_seq("nullfont"@)
    &&& lower_seq(metric) != lower_seq("nullfont.tfm"@)
    &&& metric.len() > 0
    &&& word_chars(metric, "-_."@)
}

/// The metric file name: `.tfm` is added unless already present.
pub open spec fn metric_file(metric: Seq<char>) -> Seq<char> {
    if ends_with(lower_seq(metric), ".tfm"@) {
        metric
    } else {
        metric + ".tfm"@
    }
}

fn real_metric_of(metric: &Vec<char>) -> (b: bool)
    ensures
        b == real_metric(metric@),
{
    !eq_ignore_case_str(metric, "nullfont") && !eq_ignore_case_str(metric, "nullfont.tfm")
        && metric.len() > 0 && all_word_chars(metric, "-_.")
}

fn metric_file_of(metric: &Vec<char>) -> (r: String)
    ensures
        r@ == metric_file(metric@),
{
    let low = lower_vec(metric);
    if ends_with_str(&low, ".tfm") {
        owned(metric)
    } else {
        text_then(metric, ".tfm")
    }
}

/// The TFM file that pdfTeX reports as not loadable.
pub open spec fn font_metric_in(line: Seq<char>) -> Option<Seq<char>> {
    match strip_prefix(line, "! Font "@) {
        None => None,
        Some(rest) => match find_char(rest, '=') {
            None => None,
            Some(k) => match first_word(rest.subrange(k + 1, rest.len() as int)) {
                None => None,
                Some(metric) => if real_metric(metric) && contains(
                    rest,
                    "not loadable: Metric (TFM) file"@,
                ) {
                    Some(metric_file(metric))
                } else {
                    None
                },
            },
        },
    }
}

pub fn missing_font_metric(line: &str) -> (r: Option<String>)
    ensures
        opt_string_view(r) == font_metric_in(line@),
{
    let l = chars_of(line);
    let rest = match strip_prefix_in(&l, "! Font ") {
        Some(r) => r,
        None => return None,
    };
    let k = match find_char_in(&rest, '=') {
        Some(k) => k,
        None => return None,
    };
    let n = rest.len();
    proof {
        lemma_find_from_bounds(rest@, seq!['='], 0);
    }
    assert(k + 1 <= n);
    let after = slice_of(&rest, k + 1, n);
    let metric = match first_word_of(&after) {
        Some(m) => m,
        None => return None,
    };
    if real_metric_of(&metric) && contains_str(&rest, "not loadable: Metric (TFM) file") {
        Some(metric_file_of(&metric))
    } else {
        None
    }
}

/// The metric that LuaTeX reports as not loadable.
pub open spec fn luatex_font_metric_in(line: Seq<char>) -> Option<Seq<char>> {
    match strip_prefix(line, "! Font "@) {
        None => None,
        Some(rest) => match rfind_char(rest, '=') {
            None => None,
            Some(k) => match first_word(rest.subrange(k + 1, rest.len() as int)) {
                None => None,
                Some(metric) => if real_metric(metric) && contains(
                    rest,
                    "not loadable: metric data"@,
                ) {
                    Some(metric_file(metric))
                } else {
                    None
                },
            },
        },
    }
}

pub fn missing_luatex_font_metric(line: &str) -> (r: Option<String>)
    ensures
        opt_string_view(r) == luatex_font_metric_in(line@),
{
    let l = chars_of(line);
    let rest = match strip_prefix_in(&l, "! Font ") {
        Some(r) => r,
        None => return None,
    };
    let k = match rfind_char_in(&rest, '=') {
        Some(k) => k,
        None => return None,
    };
    let after = slice_of(&rest, k + 1, rest.len());
    let metric = match first_word_of(&after) {
        Some(m) => m,
        None => return None,
    };
    if real_metric_of(&metric) && contains_str(&rest, "not loadable: metric data") {
        Some(metric_file_of(&metric))
    } else {
        None
    }
}

/// EC and TC fonts are served by cm-super in the managed runtime.
pub open spec fn ec_or_tc(font: Seq<char>) -> bool {
    starts_with(font, "ec"@) || starts_with(font, "tc"@)
}

/// The provider of a font that pdfTeX failed to open: cm-super for the EC
/// and TC families, nothing for other fonts.
pub open spec fn pdftex_type1_provider_in(line: Seq<char>) -> bool {
    match after_marker(line, "pdftex (file "@) {
        None => false,
        Some(_) => {
            let from = line.subrange(find(line, "pdftex (file "@)->0, line.len() as int);
            match after_marker(from, "(file "@) {
                None => false,
                Some(tail) => match split_at_char(tail, ')') {
                    None => false,
                    Some((name, rest)) => contains(rest, ": Font "@) && ec_or_tc(
                        lower_seq(trim(name)),
                    ),
                },
            }
        },
    }
}

pub fn missing_pdftex_type1_provider(line: &str) -> (r: Option<&'static str>)
    ensures
        r is Some <==> pdftex_type1_provider_in(line@),
        r matches Some(p) ==> p@ == "cm-super"@,
{
    let l = chars_of(line);
    let p = match find_str(&l, "pdftex (file ") {
        Some(p) => p,
        None => return None,
    };
    proof {
        lemma_find_from_bounds(l@, "pdftex (file "@, 0);
    }
    let from = slice_of(&l, p, l.len());
    let tail = match after_marker_in(&from, "(file ") {
        Some(t) => t,
        None => return None,
    };
    let (name, rest) = match split_at_char_in(&tail, ')') {
        Some(p) => p,
        None => return None,
    };
    if !contains_str(&rest, ": Font ") {
        return None;
    }
    let font = lower_vec(&trimmed(&name));
    if starts_with_str(&font, "ec") || starts_with_str(&font, "tc") {
        Some("cm-super")
    } else {
        None
    }
}

/// The provider of a font that `missfont.log` asks mktexpk or mktextfm for.
pub open spec fn mktexpk_provider_in(line: Seq<char>) -> bool {
    let command = match strip_prefix(line, "mktexpk "@) {
        Some(c) => Some(c),
        None => strip_prefix(line, "mktextfm "@),
    };
    match command {
        None => false,
        Some(c) => match last_word(c) {
            None => false,
            Some(font) => ec_or_tc(lower_seq(font)),
        },
    }
}

pub fn missing_mktexpk_provider(line: &str) -> (r: Option<&'static str>)
    ensures
        r is Some <==> mktexpk_provider_in(line@),
        r matches Some(p) ==> p@ == "cm-super"@,
{
    let l = chars_of(line);
    let command = match strip_prefix_in(&l, "mktexpk ") {
        Some(c) => c,
        None => match strip_prefix_in(&l, "mktextfm ") {
            Some(c) => c,
            None => return None,
        },
    };
    let font = match last_word_of(&command) {
        Some(f) => lower_vec(&f),
        None => return None,
    };
    if starts_with_str(&font, "ec") || starts_with_str(&font, "tc") {
        Some("cm-super")
    } else {
        None
    }
}

/// The Lua file of a module that Lua reports it could not find.
pub open spec fn lua_module_in(line: Seq<char>) -> Option<Seq<char>> {
    match after_marker(line, "module '"@) {
        None => None,
        Some(tail) => match split_at_char(tail, '\'') {
            None => None,
            Some((name, rest)) => {
                let leaf = trim(after_last(name, '.'));
                if !contains(rest, "not found"@) || leaf.len() == 0 || leaf.contains('/')
                    || leaf.contains('\\') {
                    None
                } else {
                    Some(leaf + ".lua"@)
                }
            },
        },
    }
}

pub fn missing_lua_module(line: &str) -> (r: Option<String>)
    ensures
        opt_string_view(r) == lua_module_in(line@),
{
    let l = chars_of(line);
    let tail = match after_marker_in(&l, "module '") {
        Some(t) => t,
        None => return None,
    };
    let (name, rest) = match split_at_char_in(&tail, '\'') {
        Some(p) => p,
        None => return None,
    };
    let leaf = trimmed(&after_last_in(&name, '.'));
    if !contains_str(&rest, "not found") || leaf.len() == 0 || has_char(&leaf, '/') || has_char(
        &leaf,
        '\\',
    ) {
        return None;
    }
    Some(text_then(&leaf, ".lua"))
}


/// `s[i..j]` without one trailing carriage return.
pub open spec fn strip_cr(t: Seq<char>) -> Seq<char> {
    if t.len() > 0 && t.last() == '\r' {
        t.drop_last()
    } else {
        t
    }
}

/// The first index at or after `i` that holds a line feed, or the length.
pub open spec fn newline_from(s: Seq<char>, i: int) -> int
    decreases s.len() - i,
{
    if i < 0 || i >= s.len() {
        s.len() as int
    } else if s[i] == '\n' {
        i
    } else {
        newline_from(s, i + 1)
    }
}

pub proof fn lemma_newline_from_bounds(s: Seq<char>, i: int)
    requires
        0 <= i,
    ensures
        i <= s.len() ==> i <= newline_from(s, i) <= s.len(),
    decreases s.len() - i,
{
    if i < s.len() && s[i] != '\n' {
        lemma_newline_from_bounds(s, i + 1);
    }
}

/// The lines of `s` from index `i` on, as `str::lines` yields them.
pub open spec fn lines_from(s: Seq<char>, i: int) -> Seq<Seq<char>>
    decreases s.len() - i,
{
    if i < 0 || i >= s.len() {
        Seq::empty()
    } else {
        let j = newline_from(s, i);
        proof {
            lemma_newline_from_bounds(s, i);
        }
        if j >= s.len() {
            seq![s.subrange(i, s.len() as int)]
        } else {
            seq![strip_cr(s.subrange(i, j))] + lines_from(s, j + 1)
        }
    }
}

pub open spec fn lines(s: Seq<char>) -> Seq<Seq<char>> {
    lines_from(s, 0)
}


/// `str::lines`.
pub fn lines_of(s: &Vec<char>) -> (r: Vec<Vec<char>>)
    ensures
        texts_view(r@) == lines(s@),
{
    let mut r: Vec<Vec<char>> = Vec::new();
    let mut i: usize = 0;
    while i < s.len()
        invariant
            i <= s.len(),
            lines(s@) == texts_view(r@) + lines_from(s@, i as int),
        decreases s.len() - i,
    {
        let mut j = i;
        while j < s.len() && s[j] != '\n'
            invariant
                i <= j <= s.len(),
                newline_from(s@, i as int) == newline_from(s@, j as int),
            decreases s.len() - j,
        {
            j += 1;
        }
        let ghost before = texts_view(r@);
        if j == s.len() {
            let line = slice_of(s, i, s.len());
            r.push(line);
            proof {
                assert(texts_view(r@) == before.push(line@));
                assert(lines_from(s@, i as int) == seq![line@]);
                assert(lines_from(s@, s.len() as int) == Seq::<Seq<char>>::empty());
                assert(lines(s@) == texts_view(r@) + lines_from(s@, j as int));
            }
            i = j;
        } else {
            let mut line = slice_of(s, i, j);
            if line.len() > 0 && line[line.len() - 1] == '\r' {
                line.pop();
            }
            assert(line@ == strip_cr(s@.subrange(i as int, j as int)));
            r.push(line);
            proof {
                assert(texts_view(r@) == before.push(line@));
                assert(lines_from(s@, i as int) == seq![line@] + lines_from(s@, j + 1));
                assert(lines(s@) == texts_view(r@) + lines_from(s@, j + 1));
            }
            i = j + 1;
        }
    }
    r
}


/// The number of bytes that UTF-8 encodes `c` in.
pub open spec fn utf8_width(c: char) -> nat {
    if (c as u32) < 0x80 {
        1
    } else if (c as u32) < 0x800 {
        2
    } else if (c as u32) < 0x10000 {
        3
    } else {
        4
    }
}

/// The length of `t` in UTF-8 bytes, as `str::len` counts it.
pub open spec fn utf8_len(t: Seq<char>) -> nat
    decreases t.len(),
{
    if t.len() == 0 {
        0
    } else {
        utf8_len(t.drop_last()) + utf8_width(t.last())
    }
}

pub proof fn lemma_utf8_len_prefix(t: Seq<char>, i: int, j: int)
    requires
        0 <= i <= j <= t.len(),
    ensures
        utf8_len(t.subrange(0, i)) <= utf8_len(t.subrange(0, j)),
    decreases j - i,
{
    if i < j {
        lemma_utf8_len_prefix(t, i, j - 1);
        assert(t.subrange(0, j).drop_last() == t.subrange(0, j - 1));
    }
}

/// TeX wraps log lines at 79 bytes.
pub fn is_wrapped_line(t: &Vec<char>) -> (b: bool)
    ensures
        b == (utf8_len(t@) == 79),
{
    let mut sum: usize = 0;
    let mut i: usize = 0;
    while i < t.len()
        invariant
            i <= t.len(),
            sum == utf8_len(t@.subrange(0, i as int)),
            sum <= 79,
        decreases t.len() - i,
    {
        let c = t[i];
        let w: usize = if (c as u32) < 0x80 {
            1
        } else if (c as u32) < 0x800 {
            2
        } else if (c as u32) < 0x10000 {
            3
        } else {
            4
        };
        proof {
            assert(t@.subrange(0, i + 1).drop_last() == t@.subrange(0, i as int));
        }
        sum = sum + w;
        i += 1;
        if sum > 79 {
            proof {
                lemma_utf8_len_prefix(t@, i as int, t@.len() as int);
                assert(t@.subrange(0, t@.len() as int) == t@);
            }
            return false;
        }
    }
    assert(t@.subrange(0, t@.len() as int) == t@);
    sum == 79
}

/// The last physical line of the logical line that starts at `i`.
pub open spec fn group_end(ph: Seq<Seq<char>>, i: int) -> int
    decreases ph.len() - i,
{
    if i < 0 || i + 1 >= ph.len() || utf8_len(ph[i]) != 79 {
        i
    } else {
        group_end(ph, i + 1)
    }
}

pub proof fn lemma_group_end_bounds(ph: Seq<Seq<char>>, i: int)
    requires
        0 <= i < ph.len(),
    ensures
        i <= group_end(ph, i) < ph.len(),
    decreases ph.len() - i,
{
    if i + 1 < ph.len() && utf8_len(ph[i]) == 79 {
        lemma_group_end_bounds(ph, i + 1);
    }
}

/// `ph[a] + ... + ph[b - 1]`.
pub open spec fn joined(ph: Seq<Seq<char>>, a: int, b: int) -> Seq<char>
    decreases b - a,
{
    if a >= b {
        Seq::empty()
    } else {
        joined(ph, a, b - 1) + ph[b - 1]
    }
}

/// The logical lines from physical line `i` on: a line of exactly 79 bytes
/// continues on the next one.
pub open spec fn logical_from(ph: Seq<Seq<char>>, i: int) -> Seq<Seq<char>>
    decreases ph.len() - i,
{
    if i < 0 || i >= ph.len() {
        Seq::empty()
    } else {
        let e = group_end(ph, i);
        proof {
            lemma_group_end_bounds(ph, i);
        }
        seq![joined(ph, i, e + 1)] + logical_from(ph, e + 1)
    }
}

/// The logical lines of an engine log.
pub open spec fn logical_lines(log: Seq<char>) -> Seq<Seq<char>> {
    logical_from(lines(log), 0)
}

pub fn logical_log_lines(log: &str) -> (r: Vec<Vec<char>>)
    ensures
        texts_view(r@) == logical_lines(log@),
{
    let chars = chars_of(log);
    let physical = lines_of(&chars);
    let ghost ph = texts_view(physical@);
    let mut r: Vec<Vec<char>> = Vec::new();
    let mut start: usize = 0;
    while start < physical.len()
        invariant
            start <= physical.len(),
            ph == texts_view(physical@),
            logical_from(ph, 0) == texts_view(r@) + logical_from(ph, start as int),
        decreases physical.len() - start,
    {
        let mut end = start;
        while end + 1 < physical.len() && is_wrapped_line(&physical[end])
            invariant
                start <= end < physical.len(),
                ph == texts_view(physical@),
                group_end(ph, start as int) == group_end(ph, end as int),
            decreases physical.len() - end,
        {
            assert(ph[end as int] == physical@[end as int]@);
            end += 1;
        }
        assert(ph[end as int] == physical@[end as int]@);
        assert(group_end(ph, end as int) == end);
        let mut line: Vec<char> = Vec::new();
        let mut k = start;
        while k <= end
            invariant
                start <= k <= end + 1,
                end < physical.len(),
                ph == texts_view(physical@),
                line@ == joined(ph, start as int, k as int),
            decreases end + 1 - k,
        {
            let mut m: usize = 0;
            let ghost before = line@;
            while m < physical[k].len()
                invariant
                    m <= physical@[k as int].len(),
                    k < physical.len(),
                    line@ == before + physical@[k as int]@.subrange(0, m as int),
                decreases physical@[k as int].len() - m,
            {
                line.push(physical[k][m]);
                assert(physical@[k as int]@.subrange(0, m + 1) == physical@[k as int]@.subrange(0, m as int).push(physical@[k as int]@[m as int]));
                m += 1;
            }
            assert(physical@[k as int]@.subrange(0, physical@[k as int]@.len() as int) == physical@[k as int]@);
            assert(ph[k as int] == physical@[k as int]@);
            k += 1;
        }
        let ghost before_r = texts_view(r@);
        r.push(line);
        assert(texts_view(r@) == before_r.push(line@));
        start = end + 1;
    }
    r
}

/// One element or none.
pub open spec fn opt_set<T>(o: Option<T>) -> Set<T> {
    match o {
        Some(x) => set![x],
        None => Set::empty(),
    }
}

/// The definition file of a Babel language: the one the locked locale
/// descriptors name, else `<language>.ldf`.
pub open spec fn babel_definition_for(definitions: Seq<(Seq<char>, Seq<char>)>, language: Seq<char>) -> Seq<char>
    decreases definitions.len(),
{
    if definitions.len() == 0 {
        language + ".ldf"@
    } else if definitions[0].0 == language {
        definitions[0].1
    } else {
        babel_definition_for(definitions.drop_first(), language)
    }
}

pub open spec fn tex_kind(name: Option<Seq<char>>) -> Option<(Seq<char>, Seq<char>)> {
    match name {
        Some(n) => Some((n, "tex"@)),
        None => None,
    }
}

pub open spec fn with_kind(name: Option<Seq<char>>, kind: Seq<char>) -> Option<(Seq<char>, Seq<char>)> {
    match name {
        Some(n) => Some((n, kind)),
        None => None,
    }
}

/// The package-shaped requests that one logical log line reports missing.
pub open spec fn line_findings(line: Seq<char>, definitions: Seq<(Seq<char>, Seq<char>)>) -> Set<(Seq<char>, Seq<char>)> {
    opt_set(file_input_in(line))
        .union(opt_set(tex_input_in(line)))
        .union(opt_set(match babel_language_in(line) {
            Some(language) => Some((babel_definition_for(definitions, language), "tex"@)),
            None => None,
        }))
        .union(opt_set(with_kind(tikz_library_in(line), "tex"@)))
        .union(opt_set(with_kind(biblatex_style_in(line), "bibliography"@)))
        .union(opt_set(with_kind(font_metric_in(line), "font-metric"@)))
        .union(opt_set(with_kind(luatex_font_metric_in(line), "font-metric"@)))
        .union(opt_set(fontspec_file_in(line)))
        .union(opt_set(with_kind(pdftex_type1_file_in(line), "type1-font"@)))
        .union(opt_set(with_kind(nfss_definition_in(line), "tex"@)))
        .union(opt_set(with_kind(lua_module_in(line), "data"@)))
}

/// Everything the first `n` logical lines report missing.
pub open spec fn findings_upto(lines: Seq<Seq<char>>, definitions: Seq<(Seq<char>, Seq<char>)>, n: int) -> Set<(Seq<char>, Seq<char>)>
    decreases n,
{
    if n <= 0 {
        Set::empty()
    } else {
        findings_upto(lines, definitions, n - 1).union(line_findings(lines[n - 1], definitions))
    }
}

/// Everything an engine log reports missing.
pub open spec fn log_findings(log: Seq<char>, definitions: Seq<(Seq<char>, Seq<char>)>) -> Set<(Seq<char>, Seq<char>)> {
    findings_upto(logical_lines(log), definitions, logical_lines(log).len() as int)
}

fn babel_definition_of(definitions: &Vec<(String, String)>, language: &String) -> (r: String)
    ensures
        r@ == babel_definition_for(pairs_view(definitions@), language@),
{
    let mut i: usize = 0;
    assert(pairs_view(definitions@).subrange(0, definitions@.len() as int) == pairs_view(definitions@));
    while i < definitions.len()
        invariant
            i <= definitions.len(),
            babel_definition_for(pairs_view(definitions@), language@) == babel_definition_for(
                pairs_view(definitions@).subrange(i as int, definitions@.len() as int),
                language@,
            ),
        decreases definitions.len() - i,
    {
        proof {
            let d = pairs_view(definitions@).subrange(i as int, definitions@.len() as int);
            assert(d.drop_first() == pairs_view(definitions@).subrange(i + 1, definitions@.len() as int));
            assert(d[0] == (definitions@[i as int].0@, definitions@[i as int].1@));
        }
        if definitions[i].0 == *language {
            return definitions[i].1.clone();
        }
        i += 1;
    }
    let mut r = language.clone();
    r.append(".ldf");
    r
}

fn insert_found(found: &mut Vec<(String, String)>, item: Option<(String, String)>, Ghost(acc): Ghost<Set<(Seq<char>, Seq<char>)>>)
    requires
        pairs_sorted(pairs_view(old(found)@)),
        pairs_view(old(found)@).to_set() == acc,
    ensures
        pairs_sorted(pairs_view(final(found)@)),
        pairs_view(final(found)@).to_set() == acc.union(opt_set(opt_pair_view(item))),
{
    match item {
        Some(p) => {
            insert_pair(found, p);
            assert(acc.insert((p.0@, p.1@)) =~= acc.union(opt_set(opt_pair_view(Some(p)))));
        },
        None => {
            assert(acc =~= acc.union(opt_set(opt_pair_view(item))));
        },
    }
}

fn pair_of(name: Option<String>, kind: &str) -> (r: Option<(String, String)>)
    ensures
        opt_pair_view(r) == with_kind(opt_string_view(name), kind@),
{
    match name {
        Some(n) => Some((n, String::from_str(kind))),
        None => None,
    }
}

/// The package-shaped requests that an engine log reports missing, sorted
/// and without repeats. `definitions` maps Babel language names to the
/// definition files that the locked locale descriptors give them.
pub fn missing_package_inputs(log: &str, definitions: &Vec<(String, String)>) -> (r: Vec<(String, String)>)
    ensures
        pairs_sorted(pairs_view(r@)),
        pairs_view(r@).to_set() == log_findings(log@, pairs_view(definitions@)),
{
    let logical = logical_log_lines(log);
    let ghost ls = texts_view(logical@);
    let ghost defs = pairs_view(definitions@);
    let mut found: Vec<(String, String)> = Vec::new();
    assert(pairs_view(found@).to_set() =~= Set::<(Seq<char>, Seq<char>)>::empty());
    let mut i: usize = 0;
    while i < logical.len()
        invariant
            i <= logical.len(),
            ls == texts_view(logical@),
            ls == logical_lines(log@),
            defs == pairs_view(definitions@),
            pairs_sorted(pairs_view(found@)),
            pairs_view(found@).to_set() == findings_upto(ls, defs, i as int),
        decreases logical.len() - i,
    {
        let line = owned(&logical[i]);
        assert(line@ == ls[i as int]);
        let ghost acc0 = findings_upto(ls, defs, i as int);
        insert_found(&mut found, missing_file_input(line.as_str()), Ghost(acc0));
        let ghost acc1 = acc0.union(opt_set(file_input_in(line@)));
        insert_found(&mut found, missing_tex_input(line.as_str()), Ghost(acc1));
        let ghost acc2 = acc1.union(opt_set(tex_input_in(line@)));
        let babel = match missing_babel_language(line.as_str()) {
            Some(language) => Some((babel_definition_of(definitions, &language), String::from_str("tex"))),
            None => None,
        };
        insert_found(&mut found, babel, Ghost(acc2));
        let ghost acc3 = acc2.union(opt_set(opt_pair_view(babel)));
        insert_found(&mut found, pair_of(missing_tikz_library(line.as_str()), "tex"), Ghost(acc3));
        let ghost acc4 = acc3.union(opt_set(with_kind(tikz_library_in(line@), "tex"@)));
        insert_found(&mut found, pair_of(missing_biblatex_style(line.as_str()), "bibliography"), Ghost(acc4));
        let ghost acc5 = acc4.union(opt_set(with_kind(biblatex_style_in(line@), "bibliography"@)));
        insert_found(&mut found, pair_of(missing_font_metric(line.as_str()), "font-metric"), Ghost(acc5));
        let ghost acc6 = acc5.union(opt_set(with_kind(font_metric_in(line@), "font-metric"@)));
        insert_found(&mut found, pair_of(missing_luatex_font_metric(line.as_str()), "font-metric"), Ghost(acc6));
        let ghost acc7 = acc6.union(opt_set(with_kind(luatex_font_metric_in(line@), "font-metric"@)));
        insert_found(&mut found, missing_fontspec_file(line.as_str()), Ghost(acc7));
        let ghost acc8 = acc7.union(opt_set(fontspec_file_in(line@)));
        insert_found(&mut found, pair_of(missing_pdftex_type1_file(line.as_str()), "type1-font"), Ghost(acc8));
        let ghost acc9 = acc8.union(opt_set(with_kind(pdftex_type1_file_in(line@), "type1-font"@)));
        insert_found(&mut found, pair_of(missing_nfss_definition(line.as_str()), "tex"), Ghost(acc9));
        let ghost acc10 = acc9.union(opt_set(with_kind(nfss_definition_in(line@), "tex"@)));
        insert_found(&mut found, pair_of(missing_lua_module(line.as_str()), "data"), Ghost(acc10));
        proof {
            let f = line_findings(ls[i as int], defs);
            assert(acc10.union(opt_set(with_kind(lua_module_in(line@), "data"@))) =~= acc0.union(f));
        }
        i += 1;
    }
    found
}

/// The font providers that a log and its `missfont.log` show the runtime
/// lacks: cm-super, with the ec metrics it uses, for EC and TC fonts.
pub open spec fn needs_cm_super(log: Seq<char>, missfont: Seq<char>) -> bool {
    ||| exists|i: int| 0 <= i < logical_lines(log).len() && #[trigger] pdftex_type1_provider_in(logical_lines(log)[i])
    ||| exists|i: int| 0 <= i < lines(missfont).len() && #[trigger] mktexpk_provider_in(lines(missfont)[i])
}

pub fn font_provider_requirements(log: &str, missfont: &str) -> (r: Vec<String>)
    ensures
        needs_cm_super(log@, missfont@) ==> r@.len() == 2 && r@[0]@ == "cm-super"@ && r@[1]@ == "ec"@,
        !needs_cm_super(log@, missfont@) ==> r@.len() == 0,
{
    let logical = logical_log_lines(log);
    let mut found = false;
    let mut i: usize = 0;
    while i < logical.len()
        invariant
            i <= logical.len(),
            texts_view(logical@) == logical_lines(log@),
            found <==> exists|j: int| 0 <= j < i && #[trigger] pdftex_type1_provider_in(logical_lines(log@)[j]),
        decreases logical.len() - i,
    {
        let line = owned(&logical[i]);
        assert(line@ == logical_lines(log@)[i as int]);
        if missing_pdftex_type1_provider(line.as_str()).is_some() {
            found = true;
        }
        i += 1;
    }
    let m = chars_of(missfont);
    let physical = lines_of(&m);
    let mut found2 = false;
    let mut k: usize = 0;
    while k < physical.len()
        invariant
            k <= physical.len(),
            texts_view(physical@) == lines(missfont@),
            found2 <==> exists|j: int| 0 <= j < k && #[trigger] mktexpk_provider_in(lines(missfont@)[j]),
        decreases physical.len() - k,
    {
        let line = owned(&physical[k]);
        assert(line@ == lines(missfont@)[k as int]);
        if missing_mktexpk_provider(line.as_str()).is_some() {
            found2 = true;
        }
        k += 1;
    }
    let mut r: Vec<String> = Vec::new();
    if found || found2 {
        r.push(String::from_str("cm-super"));
        r.push(String::from_str("ec"));
    }
    r
}

/// No `/` and no backslash in `s`.
pub open spec fn no_separators(s: Seq<char>) -> bool {
    forall|i: int| 0 <= i < s.len() ==> s[i] != '/' && s[i] != '\\'
}

/// A file name with no directory part that is neither `.` nor `..`.
pub open spec fn plain_name(s: Seq<char>) -> bool {
    &&& s.len() > 0
    &&& no_separators(s)
    &&& s != seq!['.']
    &&& s != seq!['.', '.']
}

/// The kinds of package request the log analysis makes.
pub open spec fn known_kind(k: Seq<char>) -> bool {
    ||| k == "tex"@
    ||| k == "data"@
    ||| k == "bibliography"@
    ||| k == "font-metric"@
    ||| k == "type1-font"@
    ||| k == "open-type-font"@
    ||| k == "true-type-font"@
    ||| k == "font-family"@
}

pub proof fn lemma_plain_name_is_safe(s: Seq<char>)
    requires
        plain_name(s),
    ensures
        safe_request(s),
{
    assert(!s.contains('\\'));
    assert forall|i: int| 0 <= i < s.len() implies #[trigger] component_ok_at(s, i) by {
        if i == 0 {
            if s[0] == '.' && s.len() == 1 {
                assert(s =~= seq!['.']);
            }
            if s[0] == '.' && s.len() == 2 && s[1] == '.' {
                assert(s =~= seq!['.', '.']);
            }
        } else {
            assert(s[i - 1] != '/');
        }
    }
}

pub proof fn lemma_concat_no_separators(a: Seq<char>, b: Seq<char>)
    requires
        no_separators(a),
        no_separators(b),
    ensures
        no_separators(a + b),
{
    assert forall|i: int| 0 <= i < (a + b).len() implies (a + b)[i] != '/' && (a + b)[i] != '\\' by {
        if i < a.len() {
            assert((a + b)[i] == a[i]);
        } else {
            assert((a + b)[i] == b[i - a.len()]);
        }
    }
}

pub proof fn lemma_word_chars_no_separators(x: Seq<char>, extra: Seq<char>)
    requires
        word_chars(x, extra),
        no_separators(extra),
    ensures
        no_separators(x),
{
    assert forall|i: int| 0 <= i < x.len() implies x[i] != '/' && x[i] != '\\' by {
        assert(crate::text::is_ascii_alnum(x[i]) || extra.contains(x[i]));
        if extra.contains(x[i]) {
            let j = choose|j: int| 0 <= j < extra.len() && extra[j] == x[i];
            assert(extra[j] != '/' && extra[j] != '\\');
        }
    }
}

pub proof fn lemma_literals_no_separators()
    ensures
        no_separators("-_"@),
        no_separators("-"@),
        no_separators("-_."@),
        no_separators("-_. "@),
        no_separators(".ldf"@),
        no_separators(".lua"@),
        no_separators(".bbx"@),
        no_separators(".tfm"@),
        no_separators("tikzlibrary"@),
        no_separators(".code.tex"@),
        no_separators("-Regular"@),
        no_separators("BoldItalic"@),
        no_separators("Regular"@),
        no_separators("Italic"@),
        no_separators("Bold"@),
{
    reveal_strlit("-_");
    reveal_strlit("-");
    reveal_strlit("-_.");
    reveal_strlit("-_. ");
    reveal_strlit(".ldf");
    reveal_strlit(".lua");
    reveal_strlit(".bbx");
    reveal_strlit(".tfm");
    reveal_strlit("tikzlibrary");
    reveal_strlit(".code.tex");
    reveal_strlit("-Regular");
    reveal_strlit("BoldItalic");
    reveal_strlit("Regular");
    reveal_strlit("Italic");
    reveal_strlit("Bold");
}

/// A path with an extension is neither empty nor `.` nor `..`.
pub proof fn lemma_extension_not_dots(p: Seq<char>)
    requires
        extension(p) is Some,
    ensures
        p.len() > 0,
        p != seq!['.'],
        p != seq!['.', '.'],
{
    reveal_with_fuel(crate::text::rfind_char_below, 3);
    if p.len() == 0 {
        assert(crate::text::rfind_char(p, '/') is None);
        assert(crate::text::rfind_char(p, '.') is None);
    }
    if p == seq!['.'] {
        assert(crate::text::rfind_char(p, '/') is None);
    }
    if p == seq!['.', '.'] {
        assert(crate::text::rfind_char(p, '/') is None);
    }
}

pub proof fn lemma_lower_no_separators(s: Seq<char>)
    requires
        no_separators(s),
    ensures
        no_separators(lower_seq(s)),
        lower_seq(s).len() == s.len(),
{
    assert forall|i: int| 0 <= i < lower_seq(s).len() implies lower_seq(s)[i] != '/' && lower_seq(s)[i] != '\\' by {
        let c = s[i];
        assert(lower_seq(s)[i] == crate::text::lower(c));
        if crate::text::is_ascii_upper(c) {
            let v = (c as u32) + 32;
            assert(97 <= v <= 122);
            assert(crate::text::lower(c) == v as char);
        }
    }
}

pub proof fn lemma_without_spaces_no_separators(s: Seq<char>)
    requires
        no_separators(s),
    ensures
        no_separators(without_spaces(s)),
    decreases s.len(),
{
    if s.len() > 0 {
        assert(no_separators(s.drop_last()));
        lemma_without_spaces_no_separators(s.drop_last());
        if s.last() != ' ' {
            lemma_concat_no_separators(without_spaces(s.drop_last()), seq![s.last()]);
            assert(without_spaces(s.drop_last()).push(s.last()) =~= without_spaces(s.drop_last()) + seq![s.last()]);
        }
    }
}

/// The name of a font family's regular face is a plain file name.
pub proof fn lemma_regular_stem_plain(font: Seq<char>)
    requires
        no_separators(font),
    ensures
        plain_name(regular_stem(font)),
{
    let compact = without_spaces(font);
    lemma_without_spaces_no_separators(font);
    lemma_literals_no_separators();
    if compact.contains('-') {
        let j = choose|j: int| 0 <= j < compact.len() && compact[j] == '-';
        if compact == seq!['.'] {
            assert(compact[j] == '.');
        }
        if compact == seq!['.', '.'] {
            assert(compact[j] == '.');
        }
    } else {
        match style_suffix(compact) {
            Some(suffix) => {
                let head = compact.subrange(0, compact.len() - suffix.len());
                assert(no_separators(head));
                assert(no_separators(suffix));
                lemma_concat_no_separators(head, "-"@);
                lemma_concat_no_separators(head + "-"@, suffix);
                assert(suffix.len() >= 4) by {
                    reveal_strlit("BoldItalic");
                    reveal_strlit("Regular");
                    reveal_strlit("Italic");
                    reveal_strlit("Bold");
                }
            },
            None => {
                lemma_concat_no_separators(compact, "-Regular"@);
                reveal_strlit("-Regular");
            },
        }
    }
}

/// A TeX file request found in a log line names a plain or safe file of
/// a known kind.
pub proof fn lemma_tex_requests_shape(line: Seq<char>)
    ensures
        file_input_in(line) matches Some(f) ==> safe_request(f.0) && known_kind(f.1),
        tex_input_in(line) matches Some(f) ==> plain_name(f.0) && known_kind(f.1),
        pdftex_type1_file_in(line) matches Some(f) ==> safe_request(f),
{
    lemma_literals_no_separators();
    if let Some(f) = tex_input_in(line) {
        let rest = strip_prefix(line, "! I can't find file `"@)->0;
        let name = strip_suffix(rest, "'."@)->0;
        let requested = trim(name);
        assert(f.0 == requested);
        lemma_word_chars_no_separators(requested, "-_."@);
        lemma_extension_not_dots(requested);
    }
}

/// The files that the package diagnostics in a log line name are plain
/// file names.
pub proof fn lemma_package_requests_shape(line: Seq<char>)
    ensures
        babel_language_in(line) matches Some(l) ==> plain_name(l + ".ldf"@),
        tikz_library_in(line) matches Some(f) ==> plain_name(f),
        biblatex_style_in(line) matches Some(f) ==> plain_name(f),
        nfss_definition_in(line) matches Some(f) ==> plain_name(f),
        lua_module_in(line) matches Some(f) ==> plain_name(f),
{
    lemma_literals_no_separators();
    reveal_strlit(".ldf");
    reveal_strlit(".lua");
    reveal_strlit(".bbx");
    reveal_strlit(".code.tex");
    reveal_strlit(".fd");
    if let Some(l) = babel_language_in(line) {
        lemma_word_chars_no_separators(l, "-"@);
        lemma_concat_no_separators(l, ".ldf"@);
    }
    if let Some(f) = tikz_library_in(line) {
        let tail = strip_prefix(line, "! Package tikz Error: I did not find the tikz library '"@)->0;
        let library = trim((split_at_char(tail, '\'')->0).0);
        assert(f == "tikzlibrary"@ + library + ".code.tex"@);
        lemma_word_chars_no_separators(library, "-_"@);
        lemma_concat_no_separators("tikzlibrary"@, library);
        lemma_concat_no_separators("tikzlibrary"@ + library, ".code.tex"@);
    }
    if let Some(f) = biblatex_style_in(line) {
        let tail = strip_prefix(line, "! Package biblatex Error: Style '"@)->0;
        let style = trim((split_at_char(tail, '\'')->0).0);
        assert(f == style + ".bbx"@);
        lemma_word_chars_no_separators(style, "-_"@);
        lemma_concat_no_separators(style, ".bbx"@);
    }
    if let Some(f) = nfss_definition_in(line) {
        let rest = strip_prefix(line, "No file "@)->0;
        let requested = trim(strip_suffix(rest, "."@)->0);
        assert(f == lower_seq(requested));
        lemma_word_chars_no_separators(requested, "-_."@);
        lemma_lower_no_separators(requested);
    }
    if let Some(f) = lua_module_in(line) {
        let tail = after_marker(line, "module '"@)->0;
        let leaf = trim(after_last((split_at_char(tail, '\'')->0).0, '.'));
        assert(f == leaf + ".lua"@);
        assert(no_separators(leaf));
        lemma_concat_no_separators(leaf, ".lua"@);
    }
}

/// The font files that fontspec and the engines report missing are plain
/// file names of a known kind.
pub proof fn lemma_font_requests_shape(line: Seq<char>)
    ensures
        fontspec_file_in(line) matches Some(f) ==> plain_name(f.0) && known_kind(f.1),
        font_metric_in(line) matches Some(f) ==> plain_name(f),
        luatex_font_metric_in(line) matches Some(f) ==> plain_name(f),
{
    lemma_literals_no_separators();
    reveal_strlit(".tfm");
    if let Some(f) = fontspec_file_in(line) {
        let tail = after_marker(line, "The font \""@)->0;
        let font = trim((split_at_char(tail, '"')->0).0);
        lemma_word_chars_no_separators(font, "-_. "@);
        match extension(font) {
            Some(ext) => {
                lemma_extension_not_dots(font);
            },
            None => {
                assert(f.0 == regular_stem(font));
                lemma_regular_stem_plain(font);
            },
        }
    }
    if let Some(f) = font_metric_in(line) {
        let rest = strip_prefix(line, "! Font "@)->0;
        let k = find_char(rest, '=')->0;
        let metric = first_word(rest.subrange(k + 1, rest.len() as int))->0;
        assert(f == metric_file(metric));
        lemma_word_chars_no_separators(metric, "-_."@);
        lemma_concat_no_separators(metric, ".tfm"@);
        lemma_lower_no_separators(metric);
    }
    if let Some(f) = luatex_font_metric_in(line) {
        let rest = strip_prefix(line, "! Font "@)->0;
        let k = rfind_char(rest, '=')->0;
        let metric = first_word(rest.subrange(k + 1, rest.len() as int))->0;
        assert(f == metric_file(metric));
        lemma_word_chars_no_separators(metric, "-_."@);
        lemma_concat_no_separators(metric, ".tfm"@);
        lemma_lower_no_separators(metric);
    }
}

/// The definition file that a locale descriptor names is a plain file name.
pub proof fn lemma_babel_definition_shape(descriptor: Seq<char>)
    ensures
        babel_definition_in(descriptor) matches Some(f) ==> plain_name(f),
{
    lemma_literals_no_separators();
    reveal_strlit(".ldf");
    if let Some(f) = babel_definition_in(descriptor) {
        let tail = after_marker(descriptor, "\\BabelDefinitionFile{0}{"@)->0;
        let module = trim((split_at_char(tail, '}')->0).0);
        assert(f == module + ".ldf"@);
        lemma_word_chars_no_separators(module, "-_"@);
        lemma_concat_no_separators(module, ".ldf"@);
    }
}

pub proof fn lemma_babel_definition_for_safe(definitions: Seq<(Seq<char>, Seq<char>)>, language: Seq<char>)
    requires
        forall|j: int| 0 <= j < definitions.len() ==> safe_request(#[trigger] definitions[j].1),
        safe_request(language + ".ldf"@),
    ensures
        safe_request(babel_definition_for(definitions, language)),
    decreases definitions.len(),
{
    if definitions.len() > 0 && definitions[0].0 != language {
        let rest = definitions.drop_first();
        assert forall|j: int| 0 <= j < rest.len() implies safe_request(#[trigger] rest[j].1) by {
            assert(rest[j] == definitions[j + 1]);
        }
        lemma_babel_definition_for_safe(rest, language);
    }
}

/// Every request that one log line yields is a safe registry request of a
/// known kind.
pub proof fn lemma_line_findings_shape(line: Seq<char>, definitions: Seq<(Seq<char>, Seq<char>)>)
    requires
        forall|j: int| 0 <= j < definitions.len() ==> safe_request(#[trigger] definitions[j].1),
    ensures
        forall|f: (Seq<char>, Seq<char>)| #[trigger] line_findings(line, definitions).contains(f) ==> safe_request(f.0) && known_kind(f.1),
{
    lemma_tex_requests_shape(line);
    lemma_package_requests_shape(line);
    lemma_font_requests_shape(line);
    if let Some(l) = babel_language_in(line) {
        lemma_plain_name_is_safe(l + ".ldf"@);
        lemma_babel_definition_for_safe(definitions, l);
    }
    if let Some(f) = tex_input_in(line) {
        lemma_plain_name_is_safe(f.0);
    }
    if let Some(f) = tikz_library_in(line) {
        lemma_plain_name_is_safe(f);
    }
    if let Some(f) = biblatex_style_in(line) {
        lemma_plain_name_is_safe(f);
    }
    if let Some(f) = nfss_definition_in(line) {
        lemma_plain_name_is_safe(f);
    }
    if let Some(f) = lua_module_in(line) {
        lemma_plain_name_is_safe(f);
    }
    if let Some(f) = fontspec_file_in(line) {
        lemma_plain_name_is_safe(f.0);
    }
    if let Some(f) = font_metric_in(line) {
        lemma_plain_name_is_safe(f);
    }
    if let Some(f) = luatex_font_metric_in(line) {
        lemma_plain_name_is_safe(f);
    }
    if let Some(f) = file_input_in(line) {
        lemma_file_input_kind(line);
    }
}

pub proof fn lemma_file_input_kind(line: Seq<char>)
    ensures
        file_input_in(line) matches Some(f) ==> known_kind(f.1),
{
}

pub proof fn lemma_findings_upto_shape(lines: Seq<Seq<char>>, definitions: Seq<(Seq<char>, Seq<char>)>, n: int)
    requires
        forall|j: int| 0 <= j < definitions.len() ==> safe_request(#[trigger] definitions[j].1),
        n <= lines.len(),
    ensures
        forall|f: (Seq<char>, Seq<char>)| #[trigger] findings_upto(lines, definitions, n).contains(f) ==> safe_request(f.0) && known_kind(f.1),
    decreases n,
{
    if n > 0 {
        lemma_findings_upto_shape(lines, definitions, n - 1);
        lemma_line_findings_shape(lines[n - 1], definitions);
        let before = findings_upto(lines, definitions, n - 1);
        let here = line_findings(lines[n - 1], definitions);
        assert(findings_upto(lines, definitions, n) == before.union(here));
        assert forall|f: (Seq<char>, Seq<char>)| #[trigger] findings_upto(lines, definitions, n).contains(f) implies safe_request(f.0)
            && known_kind(f.1) by {
            if before.contains(f) {
            } else {
                assert(here.contains(f));
            }
        }
    } else {
        assert(findings_upto(lines, definitions, n) == Set::<(Seq<char>, Seq<char>)>::empty());
    }
}

} // verus!
