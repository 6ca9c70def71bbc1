//! Naming a new project in guided setup: the folder name the user gives,
//! and the paper title made from it.
use vstd::prelude::*;
use crate::diagnostics::{join_strings, join_with};
use crate::paths::norm_components;
use crate::setup::strings_view;
use crate::text::{chars_of, push_char, trim};

verus! {

/// Why a folder name cannot hold a new project, if it cannot: it is blank,
/// it is not exactly one plain folder name, or the folder exists.
pub open spec fn project_name_problem_of(name: Seq<char>, destination: Seq<char>, exists: bool) -> Option<Seq<char>> {
    let c = norm_components(name);
    if trim(name).len() == 0 {
        Some("enter a project folder name"@)
    } else if c.len() != 1 || c[0] == seq!['/'] || c[0] == seq!['.'] || c[0] == seq!['.', '.'] {
        Some("use one folder name without `/`, `\\`, `.` or `..`; texe creates it here"@)
    } else if exists {
        Some(destination + " already exists; choose a new name, or run `texe init` inside that folder"@)
    } else {
        None
    }
}

pub fn project_name_problem(name: &str, destination: &str, exists: bool) -> (r: Option<String>)
    ensures
        crate::trace::opt_string_view(r) == project_name_problem_of(name@, destination@, exists),
{
    if crate::config::is_blank(&String::from_str(name)) {
        return Some(String::from_str("enter a project folder name"));
    }
    let c = crate::paths::norm_components_of(&chars_of(name));
    proof {
        assert(crate::paths::texts_view(c@) == norm_components(name@));
    }
    let mut plain = c.len() == 1;
    if plain {
        let only = &c[0];
        assert(crate::paths::texts_view(c@)[0] == only@);
        let root = only.len() == 1 && only[0] == '/';
        let dot = only.len() == 1 && only[0] == '.';
        let dots = only.len() == 2 && only[0] == '.' && only[1] == '.';
        proof {
            if root {
                assert(only@ =~= seq!['/']);
            }
            if dot {
                assert(only@ =~= seq!['.']);
            }
            if dots {
                assert(only@ =~= seq!['.', '.']);
            }
            if only@ == seq!['/'] || only@ == seq!['.'] {
                assert(only@[0] == only[0]);
            }
            if only@ == seq!['.', '.'] {
                assert(only@[0] == only[0] && only@[1] == only[1]);
            }
        }
        plain = !(root || dot || dots);
    }
    if !plain {
        return Some(String::from_str("use one folder name without `/`, `\\`, `.` or `..`; texe creates it here"));
    }
    if exists {
        let mut m = String::from_str(destination);
        m.append(" already exists; choose a new name, or run `texe init` inside that folder");
        return Some(m);
    }
    None
}

/// What `char::to_uppercase` gives for a character.
pub uninterp spec fn char_uppercase(c: char) -> Seq<char>;

/// `char::to_uppercase`, collected into a `String`: the uppercase mapping
/// of Unicode, which may be more than one character. Of ASCII letters it
/// is their capital, of other ASCII characters the character itself.
#[verifier::external_body]
fn uppercase(c: char) -> (r: String)
    ensures
        r@ == char_uppercase(c),
        'a' <= c <= 'z' ==> r@ == seq![((c as u8) - 32) as char],
        ('\0' <= c <= '\x7f' && !('a' <= c <= 'z')) ==> r@ == seq![c],
{
    c.to_uppercase().collect::<String>()
}

/// The words of a name: the runs between `-` and `_`, empty ones left out.
pub open spec fn name_words(s: Seq<char>) -> Seq<Seq<char>>
    decreases s.len(),
{
    if s.len() == 0 {
        Seq::empty()
    } else {
        let rest = name_words(s.drop_last());
        let c = s.last();
        if c == '-' || c == '_' {
            rest
        } else if s.len() >= 2 && !(s[s.len() - 2] == '-' || s[s.len() - 2] == '_') && rest.len() > 0 {
            rest.update(rest.len() - 1, rest.last().push(c))
        } else {
            rest.push(seq![c])
        }
    }
}

/// A word with its first character in uppercase.
pub open spec fn capitalized(w: Seq<char>) -> Seq<char> {
    if w.len() == 0 {
        w
    } else {
        char_uppercase(w[0]) + w.drop_first()
    }
}

/// The paper title a project name suggests: its words capitalized and
/// joined by spaces, or "Untitled Paper" for a name without words.
pub open spec fn title_of(name: Seq<char>) -> Seq<char> {
    let words = name_words(name);
    if words.len() == 0 {
        "Untitled Paper"@
    } else {
        join_with(words.map_values(|w: Seq<char>| capitalized(w)), " "@)
    }
}

proof fn lemma_name_words_nonempty(s: Seq<char>)
    ensures
        forall|i: int| 0 <= i < name_words(s).len() ==> (#[trigger] name_words(s)[i]).len() > 0,
    decreases s.len(),
{
    if s.len() > 0 {
        lemma_name_words_nonempty(s.drop_last());
        let rest = name_words(s.drop_last());
        let c = s.last();
        if !(c == '-' || c == '_') {
            if s.len() >= 2 && !(s[s.len() - 2] == '-' || s[s.len() - 2] == '_') && rest.len() > 0 {
                let u = rest.update(rest.len() - 1, rest.last().push(c));
                assert forall|i: int| 0 <= i < u.len() implies (#[trigger] u[i]).len() > 0 by {
                    if i < rest.len() - 1 {
                        assert(u[i] == rest[i]);
                    }
                }
            } else {
                let u = rest.push(seq![c]);
                assert forall|i: int| 0 <= i < u.len() implies (#[trigger] u[i]).len() > 0 by {
                    if i < rest.len() {
                        assert(u[i] == rest[i]);
                    }
                }
            }
        }
    }
}

pub fn title_from_project_name(name: &str) -> (r: String)
    ensures
        r@ == title_of(name@),
{
    let s = chars_of(name);
    let mut words: Vec<Vec<char>> = Vec::new();
    let mut i: usize = 0;
    while i < s.len()
        invariant
            i <= s.len(),
            crate::paths::texts_view(words@) == name_words(s@.subrange(0, i as int)),
        decreases s.len() - i,
    {
        let c = s[i];
        let ghost prefix = s@.subrange(0, i + 1);
        assert(prefix.drop_last() =~= s@.subrange(0, i as int));
        assert(prefix.last() == c);
        if !(c == '-' || c == '_') {
            let continues = i >= 1 && !(s[i - 1] == '-' || s[i - 1] == '_') && words.len() > 0;
            assert(i >= 1 ==> prefix[prefix.len() - 2] == s@[i - 1]);
            if continues {
                let n = words.len() - 1;
                let ghost before = crate::paths::texts_view(words@);
                let mut last = words[n].clone();
                assert(last@ == words@[n as int]@);
                last.push(c);
                words.set(n, last);
                assert(crate::paths::texts_view(words@) =~= before.update(n as int, before.last().push(c)));
            } else {
                let ghost before = crate::paths::texts_view(words@);
                let mut w: Vec<char> = Vec::new();
                w.push(c);
                words.push(w);
                assert(crate::paths::texts_view(words@) =~= before.push(seq![c]));
            }
        }
        i += 1;
    }
    assert(s@.subrange(0, s@.len() as int) =~= s@);
    if words.len() == 0 {
        return String::from_str("Untitled Paper");
    }
    proof {
        lemma_name_words_nonempty(s@);
    }
    let ghost wv = crate::paths::texts_view(words@);
    let mut parts: Vec<String> = Vec::new();
    let mut k: usize = 0;
    while k < words.len()
        invariant
            k <= words.len(),
            wv == crate::paths::texts_view(words@),
            wv == name_words(s@),
            forall|q: int| 0 <= q < wv.len() ==> (#[trigger] wv[q]).len() > 0,
            strings_view(parts@) == wv.subrange(0, k as int).map_values(|w: Seq<char>| capitalized(w)),
        decreases words.len() - k,
    {
        let w = &words[k];
        assert(wv[k as int] == w@);
        let mut part = uppercase(w[0]);
        let mut j: usize = 1;
        while j < w.len()
            invariant
                1 <= j <= w.len(),
                part@ == char_uppercase(w@[0]) + w@.subrange(1, j as int),
            decreases w.len() - j,
        {
            push_char(&mut part, w[j]);
            assert(w@.subrange(1, j + 1) =~= w@.subrange(1, j as int).push(w@[j as int]));
            j += 1;
        }
        assert(w@.subrange(1, w@.len() as int) =~= w@.drop_first());
        let ghost before = strings_view(parts@);
        parts.push(part);
        proof {
            let f = |x: Seq<char>| capitalized(x);
            assert(strings_view(parts@) =~= before.push(capitalized(w@)));
            assert(wv.subrange(0, k + 1) =~= wv.subrange(0, k as int).push(wv[k as int]));
            assert(wv.subrange(0, k + 1).map_values(f) =~= wv.subrange(0, k as int).map_values(f).push(f(wv[k as int])));
        }
        k += 1;
    }
    assert(wv.subrange(0, wv.len() as int) =~= wv);
    assert(parts@.map_values(|x: String| x@) =~= strings_view(parts@));
    join_strings(&parts, " ")
}

} // verus!
