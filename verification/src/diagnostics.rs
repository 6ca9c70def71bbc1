//! Deterministic, local translation of TeX diagnostics.
//!
//! The catalog prefers a focused original diagnostic over an uncertain
//! rewrite.
use vstd::prelude::*;
use crate::numbers::{decimal, push_decimal};
use crate::text::{
    chars_of, contains, contains_str, is_ascii_digit, lower_seq, lower_vec, owned, push_all,
    push_char, skip_ws, slice_of, starts_with, starts_with_str, trim, trim_bounds, trim_start,
};
use crate::paths::{norm_components, strip_path_prefix};
use crate::trace::{lines, lines_of};
use crate::paths::texts_view;

verus! {

/// What the catalog says about an error: its family, a one-line message,
/// an explanation and the action to take.
pub struct Classification {
    pub family: String,
    pub message: String,
    pub explanation: String,
    pub action: String,
}

pub open spec fn class_view(c: Classification) -> (Seq<char>, Seq<char>, Seq<char>, Seq<char>) {
    (c.family@, c.message@, c.explanation@, c.action@)
}

fn class_of(family: &str, message: &str, explanation: String, action: &str) -> (r: Classification)
    ensures
        class_view(r) == (family@, message@, explanation@, action@),
{
    Classification {
        family: String::from_str(family),
        message: String::from_str(message),
        explanation,
        action: String::from_str(action),
    }
}

/// The first line of `ls` from `i` on whose start, after white space, is `l.`.
pub open spec fn first_l_line(ls: Seq<Seq<char>>, i: int) -> Option<Seq<char>>
    decreases ls.len() - i,
{
    if i < 0 || i >= ls.len() {
        None
    } else if starts_with(trim_start(ls[i]), "l."@) {
        Some(ls[i])
    } else {
        first_l_line(ls, i + 1)
    }
}

pub open spec fn command_char(c: char) -> bool {
    ('a' <= c && c <= 'z') || ('A' <= c && c <= 'Z') || c == '\\' || c == '@'
}

/// The first index at or after `i` whose character cannot be part of a
/// control-sequence name, or the length.
pub open spec fn command_end(s: Seq<char>, i: int) -> int
    decreases s.len() - i,
{
    if i < 0 || i >= s.len() {
        s.len() as int
    } else if !command_char(s[i]) {
        i
    } else {
        command_end(s, i + 1)
    }
}

/// The control sequence quoted on the `l.` line of a TeX error, if it is
/// longer than the bare backslash.
pub open spec fn command_hint(evidence: Seq<char>) -> Option<Seq<char>> {
    match first_l_line(lines(evidence), 0) {
        None => None,
        Some(line) => match crate::text::find_char(line, '\\') {
            None => None,
            Some(start) => {
                let end = command_end(line, start);
                if end - start > 1 {
                    Some(line.subrange(start, end))
                } else {
                    None
                }
            },
        },
    }
}

fn command_hint_of(evidence: &Vec<char>) -> (r: Option<Vec<char>>)
    ensures
        r matches Some(c) ==> command_hint(evidence@) == Some(c@),
        r is None ==> command_hint(evidence@) is None,
{
    let ls = lines_of(evidence);
    let ghost lv = texts_view(ls@);
    let mut i: usize = 0;
    while i < ls.len()
        invariant
            i <= ls.len(),
            lv == texts_view(ls@),
            lv == lines(evidence@),
            first_l_line(lv, 0) == first_l_line(lv, i as int),
        decreases ls.len() - i,
    {
        let a = skip_ws(&ls[i], 0);
        let t = slice_of(&ls[i], a, ls[i].len());
        proof {
            assert(ls@[i as int]@.subrange(0, ls@[i as int]@.len() as int) == ls@[i as int]@);
            assert(lv[i as int] == ls@[i as int]@);
        }
        if starts_with_str(&t, "l.") {
            let line = &ls[i];
            let start = match crate::text::find_char_in(line, '\\') {
                Some(s) => s,
                None => return None,
            };
            proof {
                crate::text::lemma_find_from_bounds(line@, seq!['\\'], 0);
            }
            let mut end = start;
            while end < line.len() && (('a' <= line[end] && line[end] <= 'z') || ('A' <= line[end]
                && line[end] <= 'Z') || line[end] == '\\' || line[end] == '@')
                invariant
                    start <= end <= line.len(),
                    command_end(line@, start as int) == command_end(line@, end as int),
                decreases line.len() - end,
            {
                end += 1;
            }
            if end - start > 1 {
                return Some(slice_of(line, start, end));
            } else {
                return None;
            }
        }
        i += 1;
    }
    None
}

/// The syntax families of the catalog.
pub open spec fn syntax_class(evidence: Seq<char>, lower: Seq<char>) -> Option<(Seq<char>, Seq<char>, Seq<char>, Seq<char>)> {
    if contains(lower, "undefined control sequence"@) {
        Some(
            (
                "undefined-command"@,
                "LaTeX does not recognize a command near this line."@,
                match command_hint(evidence) {
                    None => "The command may be misspelled or provided by a package that is not loaded."@,
                    Some(command) => "Check the spelling of `"@ + command
                        + "` and the package that defines it."@,
                },
                "correct the command or load its package, then build again"@,
            ),
        )
    } else if contains(lower, "missing }"@) || contains(lower, "extra }"@) || contains(
        lower,
        "runaway argument"@,
    ) || contains(lower, "ended by \\end"@) {
        Some(
            (
                "braces-or-environment"@,
                "LaTeX found unbalanced braces or environments."@,
                "A `{` needs a matching `}`, and every `\\begin{...}` needs the same `\\end{...}`."@,
                "check the braces and begin/end pair around the highlighted line"@,
            ),
        )
    } else if contains(lower, "missing $ inserted"@) || contains(lower, "misplaced alignment tab"@)
        || contains(lower, "extra alignment tab"@) || contains(lower, "math mode"@) {
        Some(
            (
                "math-or-alignment"@,
                "LaTeX found a math-mode or table-alignment mistake."@,
                "Math commands need math delimiters, and `&` may only separate columns in an alignment."@,
                "check `$...$`, equation delimiters, and `&` near this line"@,
            ),
        )
    } else {
        None
    }
}

fn classify_syntax(evidence: &Vec<char>, lower: &Vec<char>) -> (r: Option<Classification>)
    ensures
        r matches Some(c) ==> syntax_class(evidence@, lower@) == Some(class_view(c)),
        r is None ==> syntax_class(evidence@, lower@) is None,
{
    if contains_str(lower, "undefined control sequence") {
        let explanation = match command_hint_of(evidence) {
            None => String::from_str(
                "The command may be misspelled or provided by a package that is not loaded.",
            ),
            Some(command) => {
                let mut e = String::from_str("Check the spelling of `");
                push_all(&mut e, &command);
                e.append("` and the package that defines it.");
                e
            },
        };
        return Some(
            class_of(
                "undefined-command",
                "LaTeX does not recognize a command near this line.",
                explanation,
                "correct the command or load its package, then build again",
            ),
        );
    }
    if contains_str(lower, "missing }") || contains_str(lower, "extra }") || contains_str(
        lower,
        "runaway argument",
    ) || contains_str(lower, "ended by \\end") {
        return Some(
            class_of(
                "braces-or-environment",
                "LaTeX found unbalanced braces or environments.",
                String::from_str(
                    "A `{` needs a matching `}`, and every `\\begin{...}` needs the same `\\end{...}`.",
                ),
                "check the braces and begin/end pair around the highlighted line",
            ),
        );
    }
    if contains_str(lower, "missing $ inserted") || contains_str(lower, "misplaced alignment tab")
        || contains_str(lower, "extra alignment tab") || contains_str(lower, "math mode") {
        return Some(
            class_of(
                "math-or-alignment",
                "LaTeX found a math-mode or table-alignment mistake.",
                String::from_str(
                    "Math commands need math delimiters, and `&` may only separate columns in an alignment.",
                ),
                "check `$...$`, equation delimiters, and `&` near this line",
            ),
        );
    }
    None
}

/// The dependency families of the catalog.
pub open spec fn dependency_class(lower: Seq<char>) -> Option<(Seq<char>, Seq<char>, Seq<char>, Seq<char>)> {
    if ((contains(lower, "file `"@) || contains(lower, "file '"@)) && contains(lower, "not found"@))
        || contains(lower, "i can't find file"@) {
        Some(
            (
                "missing-input"@,
                "LaTeX could not find a required file."@,
                "This may be a package, source file, image, font, or bibliography database."@,
                "check the filename and case; add project-owned directories to `[inputs].roots`"@,
            ),
        )
    } else if (contains(lower, "citation"@) && contains(lower, "undefined"@)) || contains(
        lower,
        "there were undefined references"@,
    ) {
        Some(
            (
                "unresolved-reference"@,
                "A citation or cross-reference could not be resolved."@,
                "Check that the key exists and that the bibliography or label name matches exactly."@,
                "correct the citation/reference key, then build again"@,
            ),
        )
    } else if contains(lower, "unicode character"@) || contains(lower, "inputenc error"@) || contains(
        lower,
        "missing character"@,
    ) {
        Some(
            (
                "unicode-or-character"@,
                "The selected engine or font cannot typeset a character."@,
                "pdfLaTeX may need an encoding/package; LuaLaTeX may be a better fit for broad Unicode."@,
                "check the character and font, or select LuaLaTeX for Unicode-heavy documents"@,
            ),
        )
    } else if contains(lower, "option clash for package"@) {
        Some(
            (
                "package-option-conflict"@,
                "The same package was loaded with conflicting options."@,
                "Pass its options once, before the package is first loaded."@,
                "combine or move the package options, then build again"@,
            ),
        )
    } else {
        None
    }
}

fn classify_dependencies(lower: &Vec<char>) -> (r: Option<Classification>)
    ensures
        r matches Some(c) ==> dependency_class(lower@) == Some(class_view(c)),
        r is None ==> dependency_class(lower@) is None,
{
    if ((contains_str(lower, "file `") || contains_str(lower, "file '")) && contains_str(
        lower,
        "not found",
    )) || contains_str(lower, "i can't find file") {
        return Some(
            class_of(
                "missing-input",
                "LaTeX could not find a required file.",
                String::from_str(
                    "This may be a package, source file, image, font, or bibliography database.",
                ),
                "check the filename and case; add project-owned directories to `[inputs].roots`",
            ),
        );
    }
    if (contains_str(lower, "citation") && contains_str(lower, "undefined")) || contains_str(
        lower,
        "there were undefined references",
    ) {
        return Some(
            class_of(
                "unresolved-reference",
                "A citation or cross-reference could not be resolved.",
                String::from_str(
                    "Check that the key exists and that the bibliography or label name matches exactly.",
                ),
                "correct the citation/reference key, then build again",
            ),
        );
    }
    if contains_str(lower, "unicode character") || contains_str(lower, "inputenc error")
        || contains_str(lower, "missing character") {
        return Some(
            class_of(
                "unicode-or-character",
                "The selected engine or font cannot typeset a character.",
                String::from_str(
                    "pdfLaTeX may need an encoding/package; LuaLaTeX may be a better fit for broad Unicode.",
                ),
                "check the character and font, or select LuaLaTeX for Unicode-heavy documents",
            ),
        );
    }
    if contains_str(lower, "option clash for package") {
        return Some(
            class_of(
                "package-option-conflict",
                "The same package was loaded with conflicting options.",
                String::from_str("Pass its options once, before the package is first loaded."),
                "combine or move the package options, then build again",
            ),
        );
    }
    None
}

/// The environment families of the catalog.
pub open spec fn environment_class(lower: Seq<char>) -> Option<(Seq<char>, Seq<char>, Seq<char>, Seq<char>)> {
    if contains(lower, "shell escape"@) || contains(lower, "shell-escape"@) || contains(
        lower,
        "write18"@,
    ) {
        Some(
            (
                "shell-escape-blocked"@,
                "This document asks LaTeX to run an external command."@,
                "texe keeps shell escape off because external commands are not pinned or isolated."@,
                "review the document; enable `toolchain.shell_escape` only if you trust the command"@,
            ),
        )
    } else if contains(lower, "permission denied"@) {
        Some(
            (
                "permission"@,
                "The build could not read or write a required path."@,
                "The named file or directory is not writable by the current user."@,
                "check ownership and permissions on the named path"@,
            ),
        )
    } else if contains(lower, "no space left"@) || contains(lower, "disk full"@) {
        Some(
            (
                "disk-space"@,
                "The computer ran out of storage during the build."@,
                "The previous PDF and verified cache entries were not replaced."@,
                "free storage, inspect it with `texe storage`, then build again"@,
            ),
        )
    } else {
        None
    }
}

fn classify_environment(lower: &Vec<char>) -> (r: Option<Classification>)
    ensures
        r matches Some(c) ==> environment_class(lower@) == Some(class_view(c)),
        r is None ==> environment_class(lower@) is None,
{
    if contains_str(lower, "shell escape") || contains_str(lower, "shell-escape") || contains_str(
        lower,
        "write18",
    ) {
        return Some(
            class_of(
                "shell-escape-blocked",
                "This document asks LaTeX to run an external command.",
                String::from_str(
                    "texe keeps shell escape off because external commands are not pinned or isolated.",
                ),
                "review the document; enable `toolchain.shell_escape` only if you trust the command",
            ),
        );
    }
    if contains_str(lower, "permission denied") {
        return Some(
            class_of(
                "permission",
                "The build could not read or write a required path.",
                String::from_str("The named file or directory is not writable by the current user."),
                "check ownership and permissions on the named path",
            ),
        );
    }
    if contains_str(lower, "no space left") || contains_str(lower, "disk full") {
        return Some(
            class_of(
                "disk-space",
                "The computer ran out of storage during the build.",
                String::from_str("The previous PDF and verified cache entries were not replaced."),
                "free storage, inspect it with `texe storage`, then build again",
            ),
        );
    }
    None
}

/// The catalog entry for an error: the first family whose evidence appears
/// (case-insensitively), else a generic LaTeX error that quotes `original`.
pub open spec fn classification(evidence: Seq<char>, original: Seq<char>) -> (Seq<char>, Seq<char>, Seq<char>, Seq<char>) {
    let lower = lower_seq(evidence);
    match syntax_class(evidence, lower) {
        Some(c) => c,
        None => match dependency_class(lower) {
            Some(c) => c,
            None => match environment_class(lower) {
                Some(c) => c,
                None => (
                    "latex-error"@,
                    "LaTeX reported an error."@,
                    original,
                    "check the focused engine message and source line, then build again"@,
                ),
            },
        },
    }
}

pub fn classify(evidence: &str, original: &str) -> (r: Classification)
    ensures
        class_view(r) == classification(evidence@, original@),
{
    let e = chars_of(evidence);
    let lower = lower_vec(&e);
    if let Some(c) = classify_syntax(&e, &lower) {
        return c;
    }
    if let Some(c) = classify_dependencies(&lower) {
        return c;
    }
    if let Some(c) = classify_environment(&lower) {
        return c;
    }
    class_of(
        "latex-error",
        "LaTeX reported an error.",
        String::from_str(original),
        "check the focused engine message and source line, then build again",
    )
}


/// The length of the run of ASCII digits that starts `s`.
pub open spec fn digit_run(s: Seq<char>, i: int) -> int
    decreases s.len() - i,
{
    if i < 0 || i >= s.len() || !is_ascii_digit(s[i]) {
        i
    } else {
        digit_run(s, i + 1)
    }
}

pub proof fn lemma_digit_run_bounds(s: Seq<char>, i: int)
    requires
        0 <= i <= s.len(),
    ensures
        i <= digit_run(s, i) <= s.len(),
    decreases s.len() - i,
{
    if i < s.len() && is_ascii_digit(s[i]) {
        lemma_digit_run_bounds(s, i + 1);
    }
}

/// The number that a string of ASCII digits spells.
pub open spec fn digits_value(d: Seq<char>) -> nat
    decreases d.len(),
{
    if d.len() == 0 {
        0
    } else {
        digits_value(d.drop_last()) * 10 + ((d.last() as u32) - 48) as nat
    }
}

/// `d.parse::<usize>()` for a run of ASCII digits: its value, where that
/// value fits.
pub open spec fn parse_digits(d: Seq<char>) -> Option<nat> {
    if d.len() == 0 || digits_value(d) > usize::MAX {
        None
    } else {
        Some(digits_value(d))
    }
}

/// Parses `s[from..to]`, all ASCII digits, as a `usize`.
fn parse_digits_of(s: &Vec<char>, from: usize, to: usize) -> (r: Option<usize>)
    requires
        from <= to <= s.len(),
        forall|i: int| from <= i < to ==> is_ascii_digit(#[trigger] s@[i]),
    ensures
        r matches Some(n) ==> parse_digits(s@.subrange(from as int, to as int)) == Some(n as nat),
        r is None ==> parse_digits(s@.subrange(from as int, to as int)) is None,
{
    if from == to {
        return None;
    }
    let mut value: usize = 0;
    let mut i = from;
    while i < to
        invariant
            from <= i <= to <= s.len(),
            forall|k: int| from <= k < to ==> is_ascii_digit(#[trigger] s@[k]),
            value == digits_value(s@.subrange(from as int, i as int)),
        decreases to - i,
    {
        proof {
            let t = s@.subrange(from as int, i + 1);
            assert(t.drop_last() == s@.subrange(from as int, i as int));
            assert(t.last() == s@[i as int]);
        }
        let d = (s[i] as u32 - 48) as usize;
        if value > (usize::MAX - d) / 10 {
            proof {
                lemma_digits_value_grows(s@.subrange(from as int, to as int), i - from + 1);
                assert(s@.subrange(from as int, to as int).subrange(0, i - from + 1) == s@.subrange(
                    from as int,
                    i + 1,
                ));
                assert(s@.subrange(from as int, to as int).subrange(0, (to - from) as int) == s@.subrange(
                    from as int,
                    to as int,
                ));
                assert(value * 10 + d > usize::MAX) by (nonlinear_arith)
                    requires
                        value > (usize::MAX - d) / 10,
                        d <= 9,
                ;
            }
            return None;
        }
        value = value * 10 + d;
        i += 1;
    }
    Some(value)
}

pub proof fn lemma_digits_value_grows(d: Seq<char>, k: int)
    requires
        0 <= k <= d.len(),
    ensures
        digits_value(d.subrange(0, k)) <= digits_value(d),
    decreases d.len() - k,
{
    if k < d.len() {
        lemma_digits_value_grows(d, k + 1);
        assert(d.subrange(0, k + 1).drop_last() == d.subrange(0, k));
    } else {
        assert(d.subrange(0, k) == d);
    }
}

/// `s` with every leading `./` removed.
pub open spec fn strip_dot_slashes(s: Seq<char>) -> Seq<char>
    decreases s.len(),
{
    if s.len() >= 2 && s[0] == '.' && s[1] == '/' {
        strip_dot_slashes(s.subrange(2, s.len() as int))
    } else {
        s
    }
}

/// The `file:line:` location at the first colon, from index `k` on, that is
/// followed by digits and another colon after a non-empty file name.
pub open spec fn file_line_from(line: Seq<char>, k: int) -> Option<(Seq<char>, nat)>
    decreases line.len() - k,
{
    if k < 0 || k >= line.len() {
        None
    } else if line[k] != ':' {
        file_line_from(line, k + 1)
    } else {
        let end = digit_run(line, k + 1);
        let file = strip_dot_slashes(trim(line.subrange(0, k)));
        if end == k + 1 || !(end < line.len() && line[end] == ':') || file.len() == 0 {
            file_line_from(line, k + 1)
        } else {
            match parse_digits(line.subrange(k + 1, end)) {
                Some(n) => Some((file, n)),
                None => None,
            }
        }
    }
}

/// The location that a `-file-line-error` diagnostic line names.
pub open spec fn file_line_location(line: Seq<char>) -> Option<(Seq<char>, nat)> {
    file_line_from(line, 0)
}

fn strip_dot_slashes_of(s: &Vec<char>) -> (r: Vec<char>)
    ensures
        r@ == strip_dot_slashes(s@),
{
    let mut a: usize = 0;
    assert(s@.subrange(0, s@.len() as int) == s@);
    while a < s.len() && s.len() - a >= 2 && s[a] == '.' && s[a + 1] == '/'
        invariant
            a <= s.len(),
            strip_dot_slashes(s@) == strip_dot_slashes(s@.subrange(a as int, s.len() as int)),
        decreases s.len() - a,
    {
        proof {
            let t = s@.subrange(a as int, s.len() as int);
            assert(t.subrange(2, t.len() as int) == s@.subrange(a + 2, s.len() as int));
        }
        a += 2;
    }
    proof {
        let t = s@.subrange(a as int, s.len() as int);
        if a < s.len() && s.len() - a >= 2 {
            assert(t[0] == s@[a as int]);
            assert(t[1] == s@[a + 1]);
        }
    }
    slice_of(s, a, s.len())
}

pub fn file_line_location_of(line: &Vec<char>) -> (r: Option<(String, usize)>)
    ensures
        r matches Some(p) ==> file_line_location(line@) == Some((p.0@, p.1 as nat)),
        r is None ==> file_line_location(line@) is None,
{
    let mut k: usize = 0;
    while k < line.len()
        invariant
            k <= line.len(),
            file_line_location(line@) == file_line_from(line@, k as int),
        decreases line.len() - k,
    {
        if line[k] == ':' {
            let mut end = k + 1;
            while end < line.len() && '0' <= line[end] && line[end] <= '9'
                invariant
                    k + 1 <= end <= line.len(),
                    digit_run(line@, k + 1) == digit_run(line@, end as int),
                    forall|i: int| k + 1 <= i < end ==> is_ascii_digit(#[trigger] line@[i]),
                decreases line.len() - end,
            {
                end += 1;
            }
            let (a, b) = trim_bounds(line, 0, k);
            let trimmed = slice_of(line, a, b);
            let file = strip_dot_slashes_of(&trimmed);
            if !(end == k + 1 || !(end < line.len() && line[end] == ':') || file.len() == 0) {
                return match parse_digits_of(line, k + 1, end) {
                    Some(n) => Some((owned(&file), n)),
                    None => None,
                };
            }
        }
        k += 1;
    }
    None
}

/// The first `l.<digits>` line whose number parses, from index `i` on.
pub open spec fn l_number_from(ls: Seq<Seq<char>>, i: int) -> Option<nat>
    decreases ls.len() - i,
{
    if i < 0 || i >= ls.len() {
        None
    } else {
        let t = trim_start(ls[i]);
        if starts_with(t, "l."@) {
            match parse_digits(t.subrange(2, digit_run(t, 2))) {
                Some(n) => Some(n),
                None => l_number_from(ls, i + 1),
            }
        } else {
            l_number_from(ls, i + 1)
        }
    }
}

/// The first line from `i` on that names a `file:line:` location.
pub open spec fn file_line_in_lines(ls: Seq<Seq<char>>, i: int) -> Option<(Seq<char>, nat)>
    decreases ls.len() - i,
{
    if i < 0 || i >= ls.len() {
        None
    } else {
        match file_line_location(ls[i]) {
            Some(p) => Some(p),
            None => file_line_in_lines(ls, i + 1),
        }
    }
}

/// Where a log says the error is: a `file:line:` location, else the line of
/// TeX's `l.<n>` context in the entry file.
pub open spec fn location_in_log(log: Seq<char>, entry: Seq<char>) -> Option<(Seq<char>, nat)> {
    match file_line_in_lines(lines(log), 0) {
        Some(p) => Some(p),
        None => match l_number_from(lines(log), 0) {
            Some(n) => Some((entry, n)),
            None => None,
        },
    }
}

pub fn locate(log: &str, entry: &str) -> (r: Option<(String, usize)>)
    ensures
        r matches Some(p) ==> location_in_log(log@, entry@) == Some((p.0@, p.1 as nat)),
        r is None ==> location_in_log(log@, entry@) is None,
{
    let ls = lines_of(&chars_of(log));
    let ghost lv = texts_view(ls@);
    let mut i: usize = 0;
    while i < ls.len()
        invariant
            i <= ls.len(),
            lv == texts_view(ls@),
            lv == lines(log@),
            file_line_in_lines(lv, 0) == file_line_in_lines(lv, i as int),
        decreases ls.len() - i,
    {
        assert(lv[i as int] == ls@[i as int]@);
        if let Some(p) = file_line_location_of(&ls[i]) {
            return Some(p);
        }
        i += 1;
    }
    let mut j: usize = 0;
    while j < ls.len()
        invariant
            j <= ls.len(),
            lv == texts_view(ls@),
            lv == lines(log@),
            file_line_in_lines(lv, 0) is None,
            l_number_from(lv, 0) == l_number_from(lv, j as int),
        decreases ls.len() - j,
    {
        assert(lv[j as int] == ls@[j as int]@);
        let a = skip_ws(&ls[j], 0);
        let t = slice_of(&ls[j], a, ls[j].len());
        assert(ls@[j as int]@.subrange(0, ls@[j as int]@.len() as int) == ls@[j as int]@);
        if starts_with_str(&t, "l.") {
            proof {
                reveal_strlit("l.");
            }
            let mut end: usize = 2;
            while end < t.len() && '0' <= t[end] && t[end] <= '9'
                invariant
                    2 <= end <= t.len(),
                    digit_run(t@, 2) == digit_run(t@, end as int),
                    forall|i: int| 2 <= i < end ==> is_ascii_digit(#[trigger] t@[i]),
                decreases t.len() - end,
            {
                end += 1;
            }
            if let Some(n) = parse_digits_of(&t, 2, end) {
                return Some((String::from_str(entry), n));
            }
        }
        j += 1;
    }
    None
}

/// The first line from `i` on that is TeX's own error line (`!`, but not
/// the `!  ==>` trace of `\show`).
pub open spec fn bang_line(ls: Seq<Seq<char>>, i: int) -> Option<Seq<char>>
    decreases ls.len() - i,
{
    if i < 0 || i >= ls.len() {
        None
    } else if starts_with(ls[i], "!"@) && !starts_with(ls[i], "!  ==>"@) {
        Some(ls[i])
    } else {
        bang_line(ls, i + 1)
    }
}

/// The first line from `i` on that is not blank.
pub open spec fn nonblank_line(ls: Seq<Seq<char>>, i: int) -> Option<Seq<char>>
    decreases ls.len() - i,
{
    if i < 0 || i >= ls.len() {
        None
    } else if trim(ls[i]).len() > 0 {
        Some(ls[i])
    } else {
        nonblank_line(ls, i + 1)
    }
}

/// `s` without its leading `!` characters.
pub open spec fn strip_bangs(s: Seq<char>) -> Seq<char>
    decreases s.len(),
{
    if s.len() > 0 && s[0] == '!' {
        strip_bangs(s.drop_first())
    } else {
        s
    }
}

/// The message that best states what stopped the engine: TeX's own `!`
/// line, else the first non-blank line of stderr, stdout or the log.
pub open spec fn primary_original_of(log: Seq<char>, stdout: Seq<char>, stderr: Seq<char>) -> Seq<char> {
    match bang_line(lines(log), 0) {
        Some(line) => trim(strip_bangs(line)),
        None => match nonblank_line(lines(stderr), 0) {
            Some(line) => trim(line),
            None => match nonblank_line(lines(stdout), 0) {
                Some(line) => trim(line),
                None => match nonblank_line(lines(log), 0) {
                    Some(line) => trim(line),
                    None => "The engine stopped without a detailed message."@,
                },
            },
        },
    }
}

fn trimmed_string(s: &Vec<char>, from: usize) -> (r: String)
    requires
        from <= s.len(),
    ensures
        r@ == trim(s@.subrange(from as int, s.len() as int)),
{
    let (a, b) = trim_bounds(s, from, s.len());
    owned(&slice_of(s, a, b))
}

fn first_nonblank(text: &str) -> (r: Option<String>)
    ensures
        r matches Some(t) ==> nonblank_line(lines(text@), 0) is Some && t@ == trim(nonblank_line(lines(text@), 0)->0),
        r is None ==> nonblank_line(lines(text@), 0) is None,
{
    let ls = lines_of(&chars_of(text));
    let ghost lv = texts_view(ls@);
    let mut i: usize = 0;
    while i < ls.len()
        invariant
            i <= ls.len(),
            lv == texts_view(ls@),
            lv == lines(text@),
            nonblank_line(lv, 0) == nonblank_line(lv, i as int),
        decreases ls.len() - i,
    {
        assert(lv[i as int] == ls@[i as int]@);
        assert(ls@[i as int]@.subrange(0, ls@[i as int]@.len() as int) == ls@[i as int]@);
        let t = trimmed_string(&ls[i], 0);
        if t.as_str().unicode_len() > 0 {
            return Some(t);
        }
        i += 1;
    }
    None
}

pub fn primary_original(log: &str, stdout: &str, stderr: &str) -> (r: String)
    ensures
        r@ == primary_original_of(log@, stdout@, stderr@),
{
    let ls = lines_of(&chars_of(log));
    let ghost lv = texts_view(ls@);
    let mut i: usize = 0;
    while i < ls.len()
        invariant
            i <= ls.len(),
            lv == texts_view(ls@),
            lv == lines(log@),
            bang_line(lv, 0) == bang_line(lv, i as int),
        decreases ls.len() - i,
    {
        assert(lv[i as int] == ls@[i as int]@);
        if starts_with_str(&ls[i], "!") && !starts_with_str(&ls[i], "!  ==>") {
            let line = &ls[i];
            let mut a: usize = 0;
            assert(line@.subrange(0, line@.len() as int) == line@);
            while a < line.len() && line[a] == '!'
                invariant
                    a <= line.len(),
                    strip_bangs(line@) == strip_bangs(line@.subrange(a as int, line.len() as int)),
                decreases line.len() - a,
            {
                proof {
                    let t = line@.subrange(a as int, line.len() as int);
                    assert(t.drop_first() == line@.subrange(a + 1, line.len() as int));
                }
                a += 1;
            }
            proof {
                let t = line@.subrange(a as int, line.len() as int);
                if a < line.len() {
                    assert(t[0] == line@[a as int]);
                }
                assert(line@.subrange(0, line@.len() as int) == line@);
            }
            return trimmed_string(line, a);
        }
        i += 1;
    }
    if let Some(t) = first_nonblank(stderr) {
        return t;
    }
    if let Some(t) = first_nonblank(stdout) {
        return t;
    }
    if let Some(t) = first_nonblank(log) {
        return t;
    }
    String::from_str("The engine stopped without a detailed message.")
}

/// A reported file, made relative to the project, where it stays inside it
/// with only ordinary components.
pub open spec fn confined(project_root: Seq<char>, file: Seq<char>) -> Option<Seq<char>> {
    let relative = if file.len() > 0 && file[0] == '/' {
        strip_path_prefix(file, project_root)
    } else {
        Some(file)
    };
    match relative {
        None => None,
        Some(rel) => if ordinary_components(norm_components(rel)) {
            Some(rel)
        } else {
            None
        },
    }
}

/// No component is the root, `.` or `..`.
pub open spec fn ordinary_components(c: Seq<Seq<char>>) -> bool {
    forall|i: int| 0 <= i < c.len() ==> #[trigger] c[i] != seq!['/'] && c[i] != seq!['.'] && c[i]
        != seq!['.', '.']
}

fn all_ordinary(c: &Vec<Vec<char>>) -> (b: bool)
    ensures
        b == ordinary_components(texts_view(c@)),
{
    let mut i: usize = 0;
    while i < c.len()
        invariant
            i <= c.len(),
            forall|j: int| 0 <= j < i ==> #[trigger] texts_view(c@)[j] != seq!['/']
                && texts_view(c@)[j] != seq!['.'] && texts_view(c@)[j]
                != seq!['.', '.'],
        decreases c.len() - i,
    {
        let x = &c[i];
        let special = (x.len() == 1 && (x[0] == '/' || x[0] == '.')) || (x.len() == 2 && x[0] == '.'
            && x[1] == '.');
        proof {
            assert(texts_view(c@)[i as int] == x@);
            if x.len() == 1 && x[0] == '/' {
                assert(x@ =~= seq!['/']);
            }
            if x.len() == 1 && x[0] == '.' {
                assert(x@ =~= seq!['.']);
            }
            if x.len() == 2 && x[0] == '.' && x[1] == '.' {
                assert(x@ =~= seq!['.', '.']);
            }
            if !special {
                if x@ == seq!['/'] || x@ == seq!['.'] {
                    assert(x@.len() == 1);
                    assert(x@[0] == x[0]);
                }
                if x@ == seq!['.', '.'] {
                    assert(x@.len() == 2);
                    assert(x@[0] == x[0]);
                    assert(x@[1] == x[1]);
                }
            }
        }
        if special {
            return false;
        }
        i += 1;
    }
    true
}

pub fn confined_file(project_root: &str, file: &str) -> (r: Option<String>)
    ensures
        r matches Some(t) ==> confined(project_root@, file@) == Some(t@),
        r is None ==> confined(project_root@, file@) is None,
{
    let f = chars_of(file);
    let relative = if f.len() > 0 && f[0] == '/' {
        match crate::paths::strip_path_prefix_of(file, project_root) {
            Some(rel) => rel,
            None => return None,
        }
    } else {
        String::from_str(file)
    };
    let comps = crate::paths::norm_components_of(&chars_of(relative.as_str()));
    if all_ordinary(&comps) {
        Some(relative)
    } else {
        None
    }
}


/// Where the build stopped: a project file, a line, and that line's text
/// when the file could be read.
#[derive(Debug, Clone)]
pub struct SourceLocation {
    pub file: String,
    pub line: usize,
    pub source: Option<String>,
}

/// The PDF of the previous successful build, and whether it is still there.
#[derive(Debug, Clone)]
pub struct ArtifactStatus {
    pub path: String,
    pub retained: bool,
}

/// A build failure, translated for the author.
#[derive(Debug, Clone)]
pub struct Diagnostic {
    pub schema: String,
    pub family: String,
    pub message: String,
    pub explanation: String,
    pub action: String,
    pub location: Option<SourceLocation>,
    pub original: String,
    pub log: String,
    pub previous_artifact: ArtifactStatus,
    pub technical_details: String,
}

/// The file that a diagnostic's location names, made safe: the located
/// file where it stays inside the project, else the entry.
pub open spec fn located_file(project_root: Seq<char>, entry: Seq<char>, log: Seq<char>) -> Option<(Seq<char>, nat)> {
    match location_in_log(log, entry) {
        None => None,
        Some((file, line)) => Some(
            (
                match confined(project_root, file) {
                    Some(f) => f,
                    None => entry,
                },
                line,
            ),
        ),
    }
}

/// The project file and line where the log places the error; the caller
/// reads that file's line for the diagnostic.
pub fn source_location(project_root: &str, entry: &str, log: &str) -> (r: Option<(String, usize)>)
    ensures
        r matches Some(p) ==> located_file(project_root@, entry@, log@) == Some((p.0@, p.1 as nat)),
        r is None ==> located_file(project_root@, entry@, log@) is None,
{
    match locate(log, entry) {
        None => None,
        Some((file, line)) => {
            let safe = match confined_file(project_root, file.as_str()) {
                Some(f) => f,
                None => String::from_str(entry),
            };
            Some((safe, line))
        },
    }
}

/// Line `n` (counted from one) of `text`; line zero reads as the first.
pub open spec fn nth_line(text: Seq<char>, n: nat) -> Option<Seq<char>> {
    let k = if n == 0 {
        0
    } else {
        n - 1
    };
    if k < lines(text).len() {
        Some(lines(text)[k as int])
    } else {
        None
    }
}

pub fn nth_line_of(text: &str, n: usize) -> (r: Option<String>)
    ensures
        r matches Some(t) ==> nth_line(text@, n as nat) == Some(t@),
        r is None ==> nth_line(text@, n as nat) is None,
{
    let ls = lines_of(&chars_of(text));
    let k = if n == 0 {
        0
    } else {
        n - 1
    };
    if k < ls.len() {
        assert(texts_view(ls@)[k as int] == ls@[k as int]@);
        Some(owned(&ls[k]))
    } else {
        None
    }
}

/// The name of the PDF that building `entry` writes next to the project.
pub open spec fn artifact_name(entry: Seq<char>) -> Seq<char> {
    let last = crate::text::after_last(entry, '/');
    let name = if last.len() == 0 || last == seq!['.'] || last == seq!['.', '.'] {
        "main.tex"@
    } else {
        last
    };
    match crate::text::extension(name) {
        Some(ext) => name.subrange(0, name.len() - ext.len() - 1) + ".pdf"@,
        None => name + ".pdf"@,
    }
}

pub fn previous_artifact_path(entry: &str) -> (r: String)
    ensures
        r@ == artifact_name(entry@),
{
    let last = crate::text::after_last_in(&chars_of(entry), '/');
    let is_dot = last.len() == 1 && last[0] == '.';
    let is_dots = last.len() == 2 && last[0] == '.' && last[1] == '.';
    proof {
        if is_dot {
            assert(last@ =~= seq!['.']);
        } else if last@ == seq!['.'] {
            assert(last@[0] == '.');
        }
        if is_dots {
            assert(last@ =~= seq!['.', '.']);
        } else if last@ == seq!['.', '.'] {
            assert(last@[0] == '.' && last@[1] == '.');
        }
    }
    let name = if last.len() == 0 || is_dot || is_dots {
        chars_of("main.tex")
    } else {
        last
    };
    match crate::text::extension_of(&name) {
        Some(ext) => {
            proof {
                crate::text::lemma_extension_len(name@);
            }
            let mut r = owned(&slice_of(&name, 0, name.len() - ext.len() - 1));
            r.append(".pdf");
            r
        },
        None => {
            let mut r = owned(&name);
            r.append(".pdf");
            r
        },
    }
}


/// The parts that are not blank.
pub open spec fn nonblank_parts(parts: Seq<Seq<char>>) -> Seq<Seq<char>>
    decreases parts.len(),
{
    if parts.len() == 0 {
        parts
    } else if trim(parts.last()).len() == 0 {
        nonblank_parts(parts.drop_last())
    } else {
        nonblank_parts(parts.drop_last()).push(parts.last())
    }
}

/// `parts.join(sep)`.
pub open spec fn join_with(parts: Seq<Seq<char>>, sep: Seq<char>) -> Seq<char>
    decreases parts.len(),
{
    if parts.len() == 0 {
        Seq::empty()
    } else if parts.len() == 1 {
        parts[0]
    } else {
        join_with(parts.drop_last(), sep) + sep + parts.last()
    }
}

/// `parts.join(sep)`.
pub fn join_strings(parts: &Vec<String>, sep: &str) -> (r: String)
    ensures
        r@ == join_with(parts@.map_values(|s: String| s@), sep@),
{
    let ghost pv = parts@.map_values(|s: String| s@);
    let mut r = String::new();
    let mut i: usize = 0;
    while i < parts.len()
        invariant
            i <= parts.len(),
            pv == parts@.map_values(|s: String| s@),
            r@ == join_with(pv.subrange(0, i as int), sep@),
        decreases parts.len() - i,
    {
        proof {
            let t = pv.subrange(0, i + 1);
            assert(t.drop_last() == pv.subrange(0, i as int));
            assert(t.last() == parts@[i as int]@);
            if i == 0 {
                assert(t.len() == 1);
                assert(t[0] == parts@[0]@);
            }
        }
        if i > 0 {
            r.append(sep);
        }
        r.append(parts[i].as_str());
        i += 1;
    }
    assert(pv.subrange(0, pv.len() as int) == pv);
    r
}

/// The engine output kept for `--verbose`: the log, stdout and stderr that
/// are not blank, separated by blank lines.
pub open spec fn technical_details_of(log: Seq<char>, stdout: Seq<char>, stderr: Seq<char>) -> Seq<char> {
    join_with(nonblank_parts(seq![log, stdout, stderr]), "\n\n"@)
}

fn is_blank(t: &str) -> (b: bool)
    ensures
        b == (trim(t@).len() == 0),
{
    let v = chars_of(t);
    let (a, c) = trim_bounds(&v, 0, v.len());
    assert(v@.subrange(0, v@.len() as int) == v@);
    a == c
}

fn technical_details_text(log: &str, stdout: &str, stderr: &str) -> (r: String)
    ensures
        r@ == technical_details_of(log@, stdout@, stderr@),
{
    let ghost parts = seq![log@, stdout@, stderr@];
    assert(parts.subrange(0, 1).drop_last() =~= Seq::<Seq<char>>::empty());
    assert(parts.subrange(0, 2).drop_last() =~= parts.subrange(0, 1));
    assert(parts.subrange(0, 3).drop_last() =~= parts.subrange(0, 2));
    assert(parts.subrange(0, 3) =~= parts);
    let mut r = String::new();
    let mut any = false;
    if !is_blank(log) {
        r.append(log);
        any = true;
    }
    proof {
        assert(parts.subrange(0, 1).last() == log@);
        assert(nonblank_parts(Seq::<Seq<char>>::empty()) =~= Seq::<Seq<char>>::empty());
        assert(r@ == join_with(nonblank_parts(parts.subrange(0, 1)), "\n\n"@));
        assert(any == (nonblank_parts(parts.subrange(0, 1)).len() > 0));
    }
    let ghost k1 = nonblank_parts(parts.subrange(0, 1));
    if !is_blank(stdout) {
        if any {
            r.append("\n\n");
        }
        r.append(stdout);
        any = true;
    }
    proof {
        assert(parts.subrange(0, 2).last() == stdout@);
        let k2 = nonblank_parts(parts.subrange(0, 2));
        if trim(stdout@).len() > 0 {
            assert(k2 == k1.push(stdout@));
            assert(k2.drop_last() == k1);
        }
        assert(r@ == join_with(k2, "\n\n"@));
        assert(any == (k2.len() > 0));
    }
    let ghost k2 = nonblank_parts(parts.subrange(0, 2));
    if !is_blank(stderr) {
        if any {
            r.append("\n\n");
        }
        r.append(stderr);
    }
    proof {
        assert(parts.subrange(0, 3).last() == stderr@);
        let k3 = nonblank_parts(parts.subrange(0, 3));
        if trim(stderr@).len() > 0 {
            assert(k3 == k2.push(stderr@));
            assert(k3.drop_last() == k2);
        }
    }
    r
}

/// Translates an engine failure into a diagnostic. `source_text` is the
/// contents of the file that [`source_location`] names, where it could be
/// read; `artifact_retained` says whether [`previous_artifact_path`] still
/// holds a PDF.
pub fn from_engine_log(
    project_root: &str,
    entry: &str,
    log_path: &str,
    log: &str,
    process_stdout: &str,
    process_stderr: &str,
    source_text: Option<String>,
    artifact_retained: bool,
) -> (d: Diagnostic)
    ensures
        d.schema@ == "texe.diagnostic/v1"@,
        d.original@ == primary_original_of(log@, process_stdout@, process_stderr@),
        (d.family@, d.message@, d.explanation@, d.action@) == classification(
            d.original@ + "\n"@ + log@,
            d.original@,
        ),
        match located_file(project_root@, entry@, log@) {
            None => d.location is None,
            Some((file, line)) => d.location matches Some(l) && l.file@ == file && l.line == line
                && match source_text {
                None => l.source is None,
                Some(text) => match nth_line(text@, line) {
                    None => l.source is None,
                    Some(t) => l.source matches Some(src) && src@ == t,
                },
            },
        },
        d.log@ == crate::paths::relative_or_original(project_root@, log_path@),
        d.previous_artifact.path@ == artifact_name(entry@),
        d.previous_artifact.retained == artifact_retained,
        d.technical_details@ == technical_details_of(log@, process_stdout@, process_stderr@),
{
    let original = primary_original(log, process_stdout, process_stderr);
    let mut evidence = original.clone();
    evidence.append("\n");
    evidence.append(log);
    let class = classify(evidence.as_str(), original.as_str());
    let location = match source_location(project_root, entry, log) {
        None => None,
        Some((file, line)) => {
            let source = match &source_text {
                None => None,
                Some(text) => nth_line_of(text.as_str(), line),
            };
            Some(SourceLocation { file, line, source })
        },
    };
    Diagnostic {
        schema: String::from_str("texe.diagnostic/v1"),
        family: class.family,
        message: class.message,
        explanation: class.explanation,
        action: class.action,
        location,
        original,
        log: crate::paths::relative_or_original_of(project_root, log_path),
        previous_artifact: ArtifactStatus {
            path: previous_artifact_path(entry),
            retained: artifact_retained,
        },
        technical_details: technical_details_text(log, process_stdout, process_stderr),
    }
}

/// The number of leading white-space characters of `s`.
pub open spec fn leading_ws(s: Seq<char>) -> nat
    decreases s.len(),
{
    if s.len() > 0 && crate::text::is_ws(s[0]) {
        1 + leading_ws(s.drop_first())
    } else {
        0
    }
}

pub proof fn lemma_leading_ws(s: Seq<char>)
    ensures
        leading_ws(s) <= s.len(),
        trim_start(s) == s.subrange(leading_ws(s) as int, s.len() as int),
    decreases s.len(),
{
    if s.len() > 0 && crate::text::is_ws(s[0]) {
        lemma_leading_ws(s.drop_first());
        assert(s.drop_first().subrange(leading_ws(s.drop_first()) as int, s.drop_first().len() as int)
            == s.subrange(leading_ws(s) as int, s.len() as int));
    } else {
        assert(s.subrange(0, s.len() as int) == s);
    }
}

/// `n` copies of `c`.
pub open spec fn repeat(c: char, n: nat) -> Seq<char> {
    Seq::new(n, |i: int| c)
}

/// `n` right-aligned in four columns, as `{:>4}` renders it.
pub open spec fn right4(n: nat) -> Seq<char> {
    let d = decimal(n);
    if d.len() < 4 {
        repeat(' ', (4 - d.len()) as nat) + d
    } else {
        d
    }
}

/// The caret underline: as many carets as the trimmed line has characters,
/// at least one and at most 72.
pub open spec fn caret_count(source: Seq<char>) -> nat {
    let n = trim(source).len();
    if n < 1 {
        1
    } else if n > 72 {
        72
    } else {
        n
    }
}

/// The source excerpt: the numbered line and a caret underline indented by
/// the line's leading white space (counted in bytes, as the terminal shows
/// them for ASCII indentation).
pub open spec fn excerpt(line: nat, source: Seq<char>) -> Seq<char> {
    "\n"@ + right4(line) + " │ "@ + source + "\n"@ + "     │ "@ + repeat(
        ' ',
        crate::trace::utf8_len(source.subrange(0, leading_ws(source) as int)),
    ) + repeat('^', caret_count(source)) + "\n"@
}

/// The diagnostic as the terminal shows it.
pub open spec fn human_text(d: Diagnostic, include_artifact_status: bool) -> Seq<char> {
    let head = match d.location {
        Some(l) => "Build stopped in "@ + l.file@ + " at line "@ + decimal(l.line as nat) + "\n"@,
        None => "Build stopped\n"@,
    };
    let source = match d.location {
        Some(l) => match l.source {
            Some(src) => excerpt(l.line as nat, src@),
            None => Seq::empty(),
        },
        None => Seq::empty(),
    };
    let status = if include_artifact_status {
        if d.previous_artifact.retained {
            "Build failed. The previous "@ + d.previous_artifact.path@ + " was kept.\n"@
        } else {
            "Build failed. No previous PDF was available.\n"@
        }
    } else {
        Seq::empty()
    };
    head + "\n"@ + d.message@ + "\n"@ + d.explanation@ + "\n"@ + source + "\n"@ + status
        + "Technical details: "@ + d.log@ + " (or run `texe build --verbose`)"@
}

fn push_repeat(s: &mut String, c: char, n: u128)
    ensures
        final(s)@ == old(s)@ + repeat(c, n as nat),
{
    let mut i: u128 = 0;
    while i < n
        invariant
            i <= n,
            s@ == old(s)@ + repeat(c, i as nat),
        decreases n - i,
    {
        push_char(s, c);
        assert(repeat(c, (i + 1) as nat) == repeat(c, i as nat).push(c));
        i += 1;
    }
}

fn excerpt_text(line: usize, source: &String) -> (r: String)
    ensures
        r@ == excerpt(line as nat, source@),
{
    let mut r = String::from_str("\n");
    let digits = crate::numbers::decimal_string(line as u64);
    let dl = digits.as_str().unicode_len();
    if dl < 4 {
        push_repeat(&mut r, ' ', (4 - dl) as u128);
    }
    r.append(digits.as_str());
    r.append(" │ ");
    r.append(source.as_str());
    r.append("\n");
    r.append("     │ ");
    let v = chars_of(source.as_str());
    let a = skip_ws(&v, 0);
    proof {
        lemma_leading_ws(v@);
        assert(v@.subrange(0, v@.len() as int) == v@);
        assert(v@.subrange(a as int, v@.len() as int).len() == v@.len() - a);
    }
    let mut width: u128 = 0;
    let mut i: usize = 0;
    while i < a
        invariant
            i <= a <= v.len(),
            width == crate::trace::utf8_len(v@.subrange(0, i as int)),
            width <= 4 * i,
        decreases a - i,
    {
        let c = v[i];
        let w: u128 = if (c as u32) < 0x80 {
            1
        } else if (c as u32) < 0x800 {
            2
        } else if (c as u32) < 0x10000 {
            3
        } else {
            4
        };
        assert(v@.subrange(0, i + 1).drop_last() == v@.subrange(0, i as int));
        width = width + w;
        i += 1;
    }
    push_repeat(&mut r, ' ', width);
    let (ta, tb) = trim_bounds(&v, 0, v.len());
    let n = tb - ta;
    let carets: u128 = if n < 1 {
        1
    } else if n > 72 {
        72
    } else {
        n as u128
    };
    push_repeat(&mut r, '^', carets);
    r.append("\n");
    r
}

impl Diagnostic {
    /// The diagnostic as the terminal shows it; watch mode leaves out the
    /// status of the previous PDF.
    pub fn render_human(&self, include_artifact_status: bool) -> (r: String)
        ensures
            r@ == human_text(*self, include_artifact_status),
    {
        let mut r = String::new();
        match &self.location {
            Some(l) => {
                r.append("Build stopped in ");
                r.append(l.file.as_str());
                r.append(" at line ");
                crate::numbers::push_decimal(&mut r, l.line as u64);
                r.append("\n");
            },
            None => {
                r.append("Build stopped\n");
            },
        }
        r.append("\n");
        r.append(self.message.as_str());
        r.append("\n");
        r.append(self.explanation.as_str());
        r.append("\n");
        if let Some(l) = &self.location {
            if let Some(src) = &l.source {
                let e = excerpt_text(l.line, src);
                r.append(e.as_str());
            }
        }
        r.append("\n");
        if include_artifact_status {
            if self.previous_artifact.retained {
                r.append("Build failed. The previous ");
                r.append(self.previous_artifact.path.as_str());
                r.append(" was kept.\n");
            } else {
                r.append("Build failed. No previous PDF was available.\n");
            }
        }
        r.append("Technical details: ");
        r.append(self.log.as_str());
        r.append(" (or run `texe build --verbose`)");
        r
    }

    /// The engine output kept for `--verbose`.
    pub fn technical_details(&self) -> (r: &String)
        ensures
            r@ == self.technical_details@,
    {
        &self.technical_details
    }
}

} // verus!
