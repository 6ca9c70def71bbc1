//! How the engine's recorder spells paths on Windows: TeX Live can record
//! an 8.3 short name, or a `?` for a character the code page lacks, where
//! texe knows the long path.
use vstd::prelude::*;
use crate::text::{chars_of, is_ascii, lower, owned, push_char, slice_of, starts_with, starts_with_str};

verus! {

/// A Windows path without its verbatim prefix, written with `/`.
pub open spec fn portable_text(path: Seq<char>) -> Seq<char> {
    let unc = "\\\\?\\UNC\\"@;
    let verbatim = "\\\\?\\"@;
    let plain = if starts_with(path, unc) {
        "\\\\"@ + path.subrange(unc.len() as int, path.len() as int)
    } else if starts_with(path, verbatim) {
        path.subrange(verbatim.len() as int, path.len() as int)
    } else {
        path
    };
    plain.map_values(|c: char| if c == '\\' { '/' } else { c })
}

pub fn portable_windows_path(path: &str) -> (r: String)
    ensures
        r@ == portable_text(path@),
{
    let p = chars_of(path);
    let plain: Vec<char> = if starts_with_str(&p, "\\\\?\\UNC\\") {
        let u = chars_of("\\\\?\\UNC\\");
        let mut v = chars_of("\\\\");
        let rest = slice_of(&p, u.len(), p.len());
        let mut k: usize = 0;
        let ghost head = v@;
        while k < rest.len()
            invariant
                k <= rest.len(),
                v@ == head + rest@.subrange(0, k as int),
            decreases rest.len() - k,
        {
            v.push(rest[k]);
            assert(rest@.subrange(0, k + 1) == rest@.subrange(0, k as int).push(rest@[k as int]));
            k += 1;
        }
        assert(rest@.subrange(0, rest@.len() as int) == rest@);
        v
    } else if starts_with_str(&p, "\\\\?\\") {
        let u = chars_of("\\\\?\\");
        slice_of(&p, u.len(), p.len())
    } else {
        p
    };
    let mut r = String::new();
    let mut i: usize = 0;
    while i < plain.len()
        invariant
            i <= plain.len(),
            r@ == plain@.subrange(0, i as int).map_values(|c: char| if c == '\\' { '/' } else { c }),
        decreases plain.len() - i,
    {
        push_char(&mut r, if plain[i] == '\\' { '/' } else { plain[i] });
        assert(plain@.subrange(0, i + 1) == plain@.subrange(0, i as int).push(plain@[i as int]));
        i += 1;
    }
    assert(plain@.subrange(0, plain@.len() as int) == plain@);
    r
}

/// A recorded character agrees with the one texe expected: the same, the
/// same ASCII letter in another case, or `?` standing for a non-ASCII one.
pub open spec fn spelling_agrees(observed: char, actual: char) -> bool {
    (observed == '?' && !is_ascii(actual)) || observed == actual || (is_ascii(observed) && is_ascii(
        actual,
    ) && lower(observed) == lower(actual))
}

/// The recorder's spelling of the working directory is texe's own, up to
/// case and code-page substitution.
pub open spec fn spelling_matches(recorded: Seq<char>, expected: Seq<char>) -> bool {
    let r = portable_text(recorded);
    let e = portable_text(expected);
    r.len() == e.len() && forall|i: int| 0 <= i < r.len() ==> #[trigger] spelling_agrees(r[i], e[i])
}

pub fn recorder_spelling_matches(recorded: &str, expected: &str) -> (b: bool)
    ensures
        b == spelling_matches(recorded@, expected@),
{
    let r = chars_of(portable_windows_path(recorded).as_str());
    let e = chars_of(portable_windows_path(expected).as_str());
    if r.len() != e.len() {
        return false;
    }
    let mut i: usize = 0;
    while i < r.len()
        invariant
            i <= r.len(),
            r.len() == e.len(),
            r@ == portable_text(recorded@),
            e@ == portable_text(expected@),
            forall|k: int| 0 <= k < i ==> #[trigger] spelling_agrees(r@[k], e@[k]),
        decreases r.len() - i,
    {
        let o = r[i];
        let a = e[i];
        let agrees = (o == '?' && !crate::text::char_is_ascii(a)) || o == a || (crate::text::char_is_ascii(o)
            && crate::text::char_is_ascii(a) && crate::text::char_lower(o) == crate::text::char_lower(a));
        if !agrees {
            assert(!spelling_agrees(r@[i as int], e@[i as int]));
            return false;
        }
        i += 1;
    }
    true
}

pub open spec fn is_separator(c: char) -> bool {
    c == '\\' || c == '/'
}

/// The first separator at or after `i`, or the length.
pub open spec fn separator_from(s: Seq<char>, i: int) -> int
    decreases s.len() - i,
{
    if i < 0 || i >= s.len() || is_separator(s[i]) {
        i
    } else {
        separator_from(s, i + 1)
    }
}

pub proof fn lemma_separator_from(s: Seq<char>, i: int)
    requires
        0 <= i <= s.len(),
    ensures
        i <= separator_from(s, i) <= s.len(),
    decreases s.len() - i,
{
    if i < s.len() && !is_separator(s[i]) {
        lemma_separator_from(s, i + 1);
    }
}

/// Where each non-empty component of a Windows path begins and ends, from
/// index `i` on.
pub open spec fn pieces_from(s: Seq<char>, i: int) -> Seq<(int, int)>
    decreases s.len() - i,
{
    if i < 0 || i >= s.len() {
        Seq::empty()
    } else if is_separator(s[i]) {
        pieces_from(s, i + 1)
    } else {
        let j = separator_from(s, i);
        proof {
            lemma_separator_from(s, i + 1);
            assert(separator_from(s, i) == separator_from(s, i + 1));
        }
        seq![(i, j)] + pieces_from(s, j)
    }
}

pub open spec fn piece_texts(s: Seq<char>, p: Seq<(int, int)>) -> Seq<Seq<char>> {
    p.map_values(|b: (int, int)| s.subrange(b.0, b.1))
}

/// The components of a Windows path.
pub open spec fn win_components(s: Seq<char>) -> Seq<Seq<char>> {
    piece_texts(s, pieces_from(s, 0))
}

/// The spelling of the root as the recorder wrote it: the recorded path
/// with as many trailing components removed as the canonical path has
/// below the canonical root.
pub open spec fn root_alias(recorded: Seq<char>, canonical_recorded: Seq<char>, canonical_root: Seq<char>) -> Option<Seq<char>> {
    let a = win_components(canonical_recorded);
    let b = win_components(canonical_root);
    if !(b.is_prefix_of(a)) {
        None
    } else {
        let k = a.len() - b.len();
        let p = pieces_from(recorded, 0);
        if k == 0 {
            Some(recorded)
        } else if p.len() > k {
            Some(recorded.subrange(0, p[p.len() - 1 - k].1))
        } else {
            None
        }
    }
}

pub proof fn lemma_pieces_bounds(s: Seq<char>, i: int)
    requires
        0 <= i <= s.len(),
    ensures
        forall|k: int| 0 <= k < pieces_from(s, i).len() ==> i <= #[trigger] pieces_from(s, i)[k].0 <= pieces_from(s, i)[k].1 <= s.len(),
    decreases s.len() - i,
{
    if i < s.len() {
        if is_separator(s[i]) {
            lemma_pieces_bounds(s, i + 1);
            assert(pieces_from(s, i) == pieces_from(s, i + 1));
        } else {
            lemma_separator_from(s, i + 1);
            assert(separator_from(s, i) == separator_from(s, i + 1));
            let j = separator_from(s, i);
            lemma_pieces_bounds(s, j);
            let rest = pieces_from(s, j);
            assert(pieces_from(s, i) == seq![(i, j)] + rest);
            assert forall|k: int| 0 <= k < pieces_from(s, i).len() implies i <= #[trigger] pieces_from(s, i)[k].0 <= pieces_from(s, i)[k].1 <= s.len() by {
                if k > 0 {
                    assert(pieces_from(s, i)[k] == rest[k - 1]);
                }
            }
        }
    }
}

fn pieces_of(s: &Vec<char>) -> (r: Vec<(usize, usize)>)
    ensures
        r@.map_values(|b: (usize, usize)| (b.0 as int, b.1 as int)) == pieces_from(s@, 0),
{
    let mut r: Vec<(usize, usize)> = Vec::new();
    let mut i: usize = 0;
    while i < s.len()
        invariant
            i <= s.len(),
            pieces_from(s@, 0) == r@.map_values(|b: (usize, usize)| (b.0 as int, b.1 as int)) + pieces_from(s@, i as int),
        decreases s.len() - i,
    {
        if s[i] == '\\' || s[i] == '/' {
            i += 1;
        } else {
            let mut j = i;
            while j < s.len() && !(s[j] == '\\' || s[j] == '/')
                invariant
                    i <= j <= s.len(),
                    separator_from(s@, i as int) == separator_from(s@, j as int),
                decreases s.len() - j,
            {
                j += 1;
            }
            let ghost before = r@.map_values(|b: (usize, usize)| (b.0 as int, b.1 as int));
            r.push((i, j));
            assert(r@.map_values(|b: (usize, usize)| (b.0 as int, b.1 as int)) == before.push((i as int, j as int)));
            i = j;
        }
    }
    assert(pieces_from(s@, i as int) == Seq::<(int, int)>::empty());
    r
}

fn components_prefix(s: &Vec<char>, sp: &Vec<(usize, usize)>, t: &Vec<char>, tp: &Vec<(usize, usize)>) -> (r: bool)
    requires
        sp@.map_values(|b: (usize, usize)| (b.0 as int, b.1 as int)) == pieces_from(s@, 0),
        tp@.map_values(|b: (usize, usize)| (b.0 as int, b.1 as int)) == pieces_from(t@, 0),
    ensures
        r == win_components(t@).is_prefix_of(win_components(s@)),
{
    proof {
        lemma_pieces_bounds(s@, 0);
        lemma_pieces_bounds(t@, 0);
    }
    let ghost a = win_components(s@);
    let ghost b = win_components(t@);
    if tp.len() > sp.len() {
        return false;
    }
    let mut k: usize = 0;
    while k < tp.len()
        invariant
            k <= tp.len() <= sp.len(),
            sp@.map_values(|b: (usize, usize)| (b.0 as int, b.1 as int)) == pieces_from(s@, 0),
            tp@.map_values(|b: (usize, usize)| (b.0 as int, b.1 as int)) == pieces_from(t@, 0),
            forall|q: int| 0 <= q < pieces_from(s@, 0).len() ==> 0 <= #[trigger] pieces_from(s@, 0)[q].0 <= pieces_from(s@, 0)[q].1 <= s@.len(),
            forall|q: int| 0 <= q < pieces_from(t@, 0).len() ==> 0 <= #[trigger] pieces_from(t@, 0)[q].0 <= pieces_from(t@, 0)[q].1 <= t@.len(),
            a == win_components(s@),
            b == win_components(t@),
            forall|q: int| 0 <= q < k ==> a[q] == b[q],
        decreases tp.len() - k,
    {
        assert(pieces_from(s@, 0)[k as int] == (sp@[k as int].0 as int, sp@[k as int].1 as int));
        assert(pieces_from(t@, 0)[k as int] == (tp@[k as int].0 as int, tp@[k as int].1 as int));
        let x = slice_of(s, sp[k].0, sp[k].1);
        let y = slice_of(t, tp[k].0, tp[k].1);
        if !crate::text::seq_eq(&x, &y) {
            assert(a[k as int] != b[k as int]);
            return false;
        }
        k += 1;
    }
    assert(b =~= a.subrange(0, b.len() as int));
    true
}

pub fn equivalent_root_alias(recorded: &str, canonical_recorded: &str, canonical_root: &str) -> (r: Option<String>)
    ensures
        crate::trace::opt_string_view(r) == root_alias(recorded@, canonical_recorded@, canonical_root@),
{
    let rec = chars_of(recorded);
    let a = chars_of(canonical_recorded);
    let b = chars_of(canonical_root);
    let ap = pieces_of(&a);
    let bp = pieces_of(&b);
    if !components_prefix(&a, &ap, &b, &bp) {
        return None;
    }
    let k = ap.len() - bp.len();
    let p = pieces_of(&rec);
    proof {
        lemma_pieces_bounds(rec@, 0);
    }
    if k == 0 {
        return Some(String::from_str(recorded));
    }
    if p.len() > k {
        let idx = p.len() - 1 - k;
        assert(pieces_from(rec@, 0)[idx as int] == (p@[idx as int].0 as int, p@[idx as int].1 as int));
        Some(owned(&slice_of(&rec, 0, p[idx].1)))
    } else {
        None
    }
}

} // verus!
