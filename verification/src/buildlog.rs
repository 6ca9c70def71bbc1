//! What a build reports from the engine's output, and the build timestamp
//! it renders with.
use vstd::prelude::*;
use crate::diagnostics::join_with;
use crate::paths::texts_view;
use crate::text::{chars_of, owned, starts_with, starts_with_str, trim, trim_bounds, slice_of};
use crate::trace::{lines, lines_of};

verus! {

/// The build timestamp this run hands to the engine, and the one its lock
/// keeps afterwards.
#[derive(Debug, Clone, Copy, PartialEq, Eq, Structural)]
pub struct BuildTimestamp {
    /// Passed to the engine as `SOURCE_DATE_EPOCH`.
    pub effective: u64,
    /// Written back to `texe.lock`.
    pub locked: u64,
}

/// Chooses both timestamps: an inherited `SOURCE_DATE_EPOCH` wins for this
/// build, else the project's pinned value, else the current time. Only an
/// unlocked project pins a new value; an override never reaches the lock.
pub fn build_timestamp<F: FnOnce() -> u64>(pinned: Option<u64>, inherited: Option<u64>, now: F) -> (r: BuildTimestamp)
    requires
        inherited is None && pinned is None ==> call_requires(now, ()),
    ensures
        match inherited {
            Some(i) => r.effective == i,
            None => match pinned {
                Some(p) => r.effective == p,
                None => call_ensures(now, (), r.effective),
            },
        },
        r.locked == match pinned {
            Some(p) => p,
            None => r.effective,
        },
{
    let effective = match inherited {
        Some(i) => i,
        None => match pinned {
            Some(p) => p,
            None => now(),
        },
    };
    BuildTimestamp {
        effective,
        locked: match pinned {
            Some(p) => p,
            None => effective,
        },
    }
}

/// The value of a decimal digit string, where it fits in a `u64`.
pub open spec fn decimal_value(d: Seq<char>) -> nat
    decreases d.len(),
{
    if d.len() == 0 {
        0
    } else {
        decimal_value(d.drop_last()) * 10 + ((d.last() as u32) - 48) as nat
    }
}

pub open spec fn all_digits(d: Seq<char>) -> bool {
    forall|i: int| 0 <= i < d.len() ==> crate::text::is_ascii_digit(#[trigger] d[i])
}

/// `u64::from_str` on already-trimmed text: an optional `+`, then at least
/// one digit, and a value that fits.
pub open spec fn parse_u64_text(t: Seq<char>) -> Option<nat> {
    let d = if t.len() > 0 && t[0] == '+' { t.drop_first() } else { t };
    if d.len() > 0 && all_digits(d) && decimal_value(d) <= u64::MAX {
        Some(decimal_value(d))
    } else {
        None
    }
}

pub proof fn lemma_decimal_value_prefix(d: Seq<char>, k: int)
    requires
        0 <= k <= d.len(),
    ensures
        decimal_value(d.subrange(0, k)) <= decimal_value(d),
    decreases d.len() - k,
{
    if k < d.len() {
        lemma_decimal_value_prefix(d, k + 1);
        assert(d.subrange(0, k + 1).drop_last() == d.subrange(0, k));
    } else {
        assert(d.subrange(0, k) == d);
    }
}

/// `SOURCE_DATE_EPOCH` as the build reads it: trimmed, then a `u64`.
pub fn parse_source_date_epoch(value: &str) -> (r: Option<u64>)
    ensures
        match parse_u64_text(trim(value@)) {
            Some(n) => r == Some(n as u64),
            None => r is None,
        },
{
    let v = chars_of(value);
    let (a, b) = trim_bounds(&v, 0, v.len());
    assert(v@.subrange(0, v@.len() as int) == v@);
    let t = slice_of(&v, a, b);
    let start: usize = if t.len() > 0 && t[0] == '+' { 1 } else { 0 };
    let ghost d = if t@.len() > 0 && t@[0] == '+' { t@.drop_first() } else { t@ };
    assert(d == t@.subrange(start as int, t@.len() as int));
    if start == t.len() {
        return None;
    }
    let mut acc: u64 = 0;
    let mut i = start;
    while i < t.len()
        invariant
            start <= i <= t.len(),
            t@ == trim(value@),
            d == (if t@.len() > 0 && t@[0] == '+' { t@.drop_first() } else { t@ }),
            d == t@.subrange(start as int, t@.len() as int),
            acc == decimal_value(t@.subrange(start as int, i as int)),
            forall|k: int| start <= k < i ==> crate::text::is_ascii_digit(#[trigger] t@[k]),
        decreases t.len() - i,
    {
        let c = t[i];
        if !('0' <= c && c <= '9') {
            assert(d[i - start] == c);
            return None;
        }
        proof {
            let s = t@.subrange(start as int, i + 1);
            assert(s.drop_last() == t@.subrange(start as int, i as int));
            assert(s.last() == c);
        }
        let digit: u64 = (c as u32 - 48) as u64;
        if acc > (u64::MAX - digit) / 10 {
            proof {
                assert(acc * 10 + digit > u64::MAX) by (nonlinear_arith)
                    requires
                        acc > (u64::MAX - digit) / 10,
                        digit <= 9,
                ;
                lemma_decimal_value_prefix(d, i - start + 1);
                assert(d.subrange(0, i - start + 1) == t@.subrange(start as int, i + 1));
            }
            return None;
        }
        acc = acc * 10 + digit;
        i += 1;
    }
    assert(t@.subrange(start as int, t@.len() as int) == d);
    assert forall|k: int| 0 <= k < d.len() implies crate::text::is_ascii_digit(#[trigger] d[k]) by {
        assert(d[k] == t@[start + k]);
    }
    Some(acc)
}

/// The number of log lines an engine failure is allowed to print.
pub const LOG_EXCERPT_LINES: usize = 30;

/// The log lines kept before line `n`: the memory statistics TeX prints at
/// the end of a run are dropped, but a `!` verdict or an `Output written`
/// note after them is kept. The flag says whether the statistics block is
/// still open.
pub open spec fn kept_lines(ls: Seq<Seq<char>>, n: int) -> (Seq<Seq<char>>, bool)
    decreases n,
{
    if n <= 0 || n > ls.len() {
        (Seq::empty(), false)
    } else {
        let (kept, in_statistics) = kept_lines(ls, n - 1);
        let line = ls[n - 1];
        if starts_with(line, "Here is how much of TeX's memory you used"@) {
            (kept, true)
        } else if in_statistics && !(starts_with(line, "!"@) || starts_with(line, "Output written"@)) {
            (kept, true)
        } else {
            (kept.push(line), false)
        }
    }
}

/// The lines without their trailing blank ones.
pub open spec fn without_blank_tail(ls: Seq<Seq<char>>) -> Seq<Seq<char>>
    decreases ls.len(),
{
    if ls.len() > 0 && trim(ls.last()).len() == 0 {
        without_blank_tail(ls.drop_last())
    } else {
        ls
    }
}

/// The last line below `j` that is a TeX error rather than the fatal verdict.
pub open spec fn last_error_below(ls: Seq<Seq<char>>, j: int) -> Option<int>
    decreases j,
{
    if j <= 0 || j > ls.len() {
        None
    } else if starts_with(ls[j - 1], "!"@) && !starts_with(ls[j - 1], "!  ==>"@) {
        Some(j - 1)
    } else {
        last_error_below(ls, j - 1)
    }
}

/// The part of an engine log a reader needs: from the last error on (or
/// the last thirty lines where there is none), at most thirty lines.
pub open spec fn log_excerpt(log: Seq<char>) -> Seq<char> {
    let ls = without_blank_tail(kept_lines(lines(log), lines(log).len() as int).0);
    let start = match last_error_below(ls, ls.len() as int) {
        Some(e) => e,
        None => if ls.len() > 30 {
            ls.len() - 30
        } else {
            0
        },
    };
    let end = if start + 30 < ls.len() {
        start + 30
    } else {
        ls.len() as int
    };
    join_with(ls.subrange(start, end), "\n"@)
}

pub proof fn lemma_last_error_bounds(ls: Seq<Seq<char>>, j: int)
    ensures
        last_error_below(ls, j) matches Some(e) ==> 0 <= e < j && e < ls.len(),
    decreases j,
{
    if j > 0 && j <= ls.len() && !(starts_with(ls[j - 1], "!"@) && !starts_with(ls[j - 1], "!  ==>"@)) {
        lemma_last_error_bounds(ls, j - 1);
    }
}

fn join_lines(ls: &Vec<Vec<char>>, start: usize, end: usize) -> (r: String)
    requires
        start <= end <= ls.len(),
    ensures
        r@ == join_with(texts_view(ls@).subrange(start as int, end as int), "\n"@),
{
    let mut r = String::new();
    let mut i = start;
    while i < end
        invariant
            start <= i <= end <= ls.len(),
            r@ == join_with(texts_view(ls@).subrange(start as int, i as int), "\n"@),
        decreases end - i,
    {
        proof {
            let t = texts_view(ls@).subrange(start as int, i + 1);
            assert(t.drop_last() == texts_view(ls@).subrange(start as int, i as int));
            assert(t.last() == ls@[i as int]@);
            if i == start {
                assert(t.len() == 1 && t[0] == ls@[i as int]@);
            }
        }
        if i > start {
            r.append("\n");
        }
        crate::text::push_all(&mut r, &ls[i]);
        i += 1;
    }
    r
}

pub fn engine_log_excerpt(log: &str) -> (r: String)
    ensures
        r@ == log_excerpt(log@),
{
    let physical = lines_of(&chars_of(log));
    let ghost ph = texts_view(physical@);
    let mut kept: Vec<Vec<char>> = Vec::new();
    let mut in_statistics = false;
    let mut i: usize = 0;
    while i < physical.len()
        invariant
            i <= physical.len(),
            ph == texts_view(physical@),
            ph == lines(log@),
            (texts_view(kept@), in_statistics) == kept_lines(ph, i as int),
        decreases physical.len() - i,
    {
        let line = &physical[i];
        assert(ph[i as int] == line@);
        if starts_with_str(line, "Here is how much of TeX's memory you used") {
            in_statistics = true;
        } else if in_statistics && !(starts_with_str(line, "!") || starts_with_str(line, "Output written")) {
        } else {
            let ghost before = texts_view(kept@);
            kept.push(slice_of(line, 0, line.len()));
            assert(line@.subrange(0, line@.len() as int) == line@);
            assert(texts_view(kept@) == before.push(line@));
            in_statistics = false;
        }
        i += 1;
    }
    while kept.len() > 0 && crate::config::is_blank(&owned(&kept[kept.len() - 1]))
        invariant
            without_blank_tail(kept_lines(ph, ph.len() as int).0) == without_blank_tail(texts_view(kept@)),
        decreases kept.len(),
    {
        proof {
            let t = texts_view(kept@);
            assert(t.last() == kept@[kept.len() - 1]@);
            assert(t.drop_last() == texts_view(kept@.drop_last()));
        }
        kept.pop();
    }
    let ghost ls = texts_view(kept@);
    proof {
        if kept.len() > 0 {
            assert(ls.last() == kept@[kept.len() - 1]@);
        }
        assert(without_blank_tail(ls) == ls);
    }
    let mut j = kept.len();
    while j > 0 && !(starts_with_str(&kept[j - 1], "!") && !starts_with_str(&kept[j - 1], "!  ==>"))
        invariant
            j <= kept.len(),
            ls == texts_view(kept@),
            last_error_below(ls, ls.len() as int) == last_error_below(ls, j as int),
        decreases j,
    {
        assert(ls[j - 1] == kept@[j - 1]@);
        j -= 1;
    }
    let start = if j > 0 {
        assert(ls[j - 1] == kept@[j - 1]@);
        j - 1
    } else if kept.len() > LOG_EXCERPT_LINES {
        kept.len() - LOG_EXCERPT_LINES
    } else {
        0
    };
    let end = if kept.len() - start > LOG_EXCERPT_LINES {
        start + LOG_EXCERPT_LINES
    } else {
        kept.len()
    };
    join_lines(&kept, start, end)
}

/// The last thirty lines of `text`, joined.
pub open spec fn tail_lines(text: Seq<char>) -> Seq<char> {
    let ls = lines(text);
    let start = if ls.len() > 30 {
        ls.len() - 30
    } else {
        0
    };
    join_with(ls.subrange(start, ls.len() as int), "\n"@)
}

/// What an engine failure prints: the log excerpt with the engine's own
/// stderr (a PDF driver's fatal error appears only there), or stdout and
/// stderr where the log says nothing.
pub open spec fn failure_detail(log: Seq<char>, stdout: Seq<char>, stderr: Seq<char>) -> Seq<char> {
    let excerpt = log_excerpt(log);
    if excerpt.len() == 0 {
        trim(stdout) + "\n"@ + trim(stderr)
    } else if trim(stderr).len() == 0 {
        excerpt
    } else {
        excerpt + "\n\nengine process stderr:\n"@ + trim(tail_lines(stderr))
    }
}

pub(crate) fn trimmed_text(s: &String) -> (r: String)
    ensures
        r@ == trim(s@),
{
    let v = chars_of(s.as_str());
    let (a, b) = trim_bounds(&v, 0, v.len());
    assert(v@.subrange(0, v@.len() as int) == v@);
    owned(&slice_of(&v, a, b))
}

pub fn engine_failure_detail(log: &str, process_stdout: &str, process_stderr: &str) -> (r: String)
    ensures
        r@ == failure_detail(log@, process_stdout@, process_stderr@),
{
    let excerpt = engine_log_excerpt(log);
    let stderr = String::from_str(process_stderr);
    if excerpt.as_str().unicode_len() == 0 {
        let mut r = trimmed_text(&String::from_str(process_stdout));
        r.append("\n");
        r.append(trimmed_text(&stderr).as_str());
        return r;
    }
    if crate::config::is_blank(&stderr) {
        return excerpt;
    }
    let ls = lines_of(&chars_of(process_stderr));
    let start = if ls.len() > LOG_EXCERPT_LINES {
        ls.len() - LOG_EXCERPT_LINES
    } else {
        0
    };
    let tail = join_lines(&ls, start, ls.len());
    let mut r = excerpt;
    r.append("\n\nengine process stderr:\n");
    r.append(trimmed_text(&tail).as_str());
    r
}

/// The files a successful build leaves in the project root.
#[derive(Debug, Clone)]
pub struct PublishedBuild {
    pub artifact: String,
    pub synctex: Option<String>,
}

impl PublishedBuild {
    /// The PDF, then its SyncTeX file where there is one.
    pub fn paths(&self) -> (r: Vec<String>)
        ensures
            crate::setup::strings_view(r@) == match self.synctex {
                Some(s) => seq![self.artifact@, s@],
                None => seq![self.artifact@],
            },
    {
        let mut paths = vec![self.artifact.clone()];
        if let Some(s) = &self.synctex {
            paths.push(s.clone());
        }
        assert(crate::setup::strings_view(paths@) =~= match self.synctex {
            Some(s) => seq![self.artifact@, s@],
            None => seq![self.artifact@],
        });
        paths
    }
}

} // verus!
