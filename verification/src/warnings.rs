//! The warnings a build reports from the engine log: deduplicated, and
//! those a scientist acts on first.
use vstd::prelude::*;
use crate::order::{insert_pair, pair_lt, pairs_sorted, pairs_view};
use crate::paths::texts_view;
use crate::text::{chars_of, contains, contains_str, lower_seq, lower_vec, owned, starts_with, starts_with_str, trim};
use crate::trace::{lines, lines_of};

verus! {

/// A warning from the engine log: its kind and the log line.
#[derive(Debug, Clone)]
pub struct BuildWarning {
    pub kind: String,
    pub message: String,
}

/// The kind of a (trimmed) log line that is a warning worth reporting.
pub open spec fn warning_kind(line: Seq<char>) -> Option<Seq<char>> {
    let lower = lower_seq(line);
    if contains(lower, "citation"@) && contains(lower, "undefined"@) {
        Some("unresolved-citation"@)
    } else if contains(lower, "reference"@) && contains(lower, "undefined"@) {
        Some("unresolved-reference"@)
    } else if starts_with(lower, "missing character:"@) {
        Some("missing-character"@)
    } else if starts_with(lower, "overfull"@) || starts_with(lower, "underfull"@) {
        Some("layout"@)
    } else if contains(lower, "warning:"@) {
        Some("latex"@)
    } else {
        None
    }
}

/// Where a kind of warning comes in the report.
pub open spec fn warning_rank(kind: Seq<char>) -> nat {
    if kind == "unresolved-citation"@ {
        0
    } else if kind == "unresolved-reference"@ {
        1
    } else if kind == "missing-character"@ {
        2
    } else if kind == "latex"@ {
        3
    } else {
        4
    }
}

pub fn rank(kind: &str) -> (r: u8)
    ensures
        r as nat == warning_rank(kind@),
{
    let k = chars_of(kind);
    if crate::text::eq_str(&k, "unresolved-citation") {
        0
    } else if crate::text::eq_str(&k, "unresolved-reference") {
        1
    } else if crate::text::eq_str(&k, "missing-character") {
        2
    } else if crate::text::eq_str(&k, "latex") {
        3
    } else {
        4
    }
}

/// A one-digit key that sorts kinds by their rank.
pub open spec fn rank_key(kind: Seq<char>) -> Seq<char> {
    seq![crate::numbers::digit(warning_rank(kind))]
}

/// The warnings of a log, each once, keyed by rank: a warning is a
/// trimmed line of the log together with its kind.
pub open spec fn warning_keys(log: Seq<char>) -> Set<(Seq<char>, Seq<char>)> {
    Set::new(
        |w: (Seq<char>, Seq<char>)|
            exists|i: int|
                0 <= i < lines(log).len() && #[trigger] warning_kind(trim(lines(log)[i])) is Some && w == (
                    rank_key(warning_kind(trim(lines(log)[i]))->0),
                    trim(lines(log)[i]),
                ),
    )
}

/// The warnings of a report keyed by the rank of their kind.
pub open spec fn keyed(v: Seq<BuildWarning>) -> Seq<(Seq<char>, Seq<char>)> {
    v.map_values(|w: BuildWarning| (rank_key(w.kind@), w.message@))
}

/// The kind that a rank key stands for.
pub open spec fn kind_of_key(key: Seq<char>) -> Seq<char> {
    if key == seq!['0'] {
        "unresolved-citation"@
    } else if key == seq!['1'] {
        "unresolved-reference"@
    } else if key == seq!['2'] {
        "missing-character"@
    } else if key == seq!['3'] {
        "latex"@
    } else {
        "layout"@
    }
}

fn kind_of(line: &Vec<char>) -> (r: Option<String>)
    ensures
        crate::trace::opt_string_view(r) == warning_kind(line@),
{
    let lower = lower_vec(line);
    if contains_str(&lower, "citation") && contains_str(&lower, "undefined") {
        Some(String::from_str("unresolved-citation"))
    } else if contains_str(&lower, "reference") && contains_str(&lower, "undefined") {
        Some(String::from_str("unresolved-reference"))
    } else if starts_with_str(&lower, "missing character:") {
        Some(String::from_str("missing-character"))
    } else if starts_with_str(&lower, "overfull") || starts_with_str(&lower, "underfull") {
        Some(String::from_str("layout"))
    } else if contains_str(&lower, "warning:") {
        Some(String::from_str("latex"))
    } else {
        None
    }
}

fn key_of(kind: &str) -> (r: String)
    ensures
        r@ == rank_key(kind@),
{
    let n = rank(kind);
    let mut r = String::new();
    crate::numbers::push_decimal(&mut r, n as u64);
    r
}

fn kind_from_key(key: &String) -> (r: String)
    ensures
        r@ == kind_of_key(key@),
{
    let k = chars_of(key.as_str());
    proof {
        reveal_strlit("0");
        reveal_strlit("1");
        reveal_strlit("2");
        reveal_strlit("3");
        assert("0"@ =~= seq!['0']);
        assert("1"@ =~= seq!['1']);
        assert("2"@ =~= seq!['2']);
        assert("3"@ =~= seq!['3']);
    }
    if crate::text::eq_str(&k, "0") {
        String::from_str("unresolved-citation")
    } else if crate::text::eq_str(&k, "1") {
        String::from_str("unresolved-reference")
    } else if crate::text::eq_str(&k, "2") {
        String::from_str("missing-character")
    } else if crate::text::eq_str(&k, "3") {
        String::from_str("latex")
    } else {
        String::from_str("layout")
    }
}

/// The warnings of an engine log, each once, ordered by the rank of their
/// kind and then by text.
pub fn collect_warnings(log: &str) -> (r: Vec<BuildWarning>)
    ensures
        pairs_sorted(keyed(r@)),
        keyed(r@).to_set() == warning_keys(log@),
{
    let ls = lines_of(&chars_of(log));
    let ghost lv = texts_view(ls@);
    let mut found: Vec<(String, String)> = Vec::new();
    let mut i: usize = 0;
    while i < ls.len()
        invariant
            i <= ls.len(),
            lv == texts_view(ls@),
            lv == lines(log@),
            pairs_sorted(pairs_view(found@)),
            pairs_view(found@).to_set() == Set::new(
                |w: (Seq<char>, Seq<char>)|
                    exists|j: int|
                        0 <= j < i && #[trigger] warning_kind(trim(lv[j])) is Some && w == (
                            rank_key(warning_kind(trim(lv[j]))->0),
                            trim(lv[j]),
                        ),
            ),
        decreases ls.len() - i,
    {
        let (a, b) = crate::text::trim_bounds(&ls[i], 0, ls[i].len());
        assert(ls@[i as int]@.subrange(0, ls@[i as int]@.len() as int) == ls@[i as int]@);
        let line = crate::text::slice_of(&ls[i], a, b);
        assert(lv[i as int] == ls@[i as int]@);
        let ghost before = pairs_view(found@).to_set();
        match kind_of(&line) {
            Some(kind) => {
                let key = key_of(kind.as_str());
                insert_pair(&mut found, (key, owned(&line)));
                proof {
                    let item = (rank_key(warning_kind(trim(lv[i as int]))->0), trim(lv[i as int]));
                    assert(pairs_view(found@).to_set() =~= Set::new(
                        |w: (Seq<char>, Seq<char>)|
                            exists|j: int|
                                0 <= j < i + 1 && #[trigger] warning_kind(trim(lv[j])) is Some && w == (
                                    rank_key(warning_kind(trim(lv[j]))->0),
                                    trim(lv[j]),
                                ),
                    )) by {
                        assert forall|w: (Seq<char>, Seq<char>)| before.insert(item).contains(w) == (exists|j: int|
                            0 <= j < i + 1 && #[trigger] warning_kind(trim(lv[j])) is Some && w == (
                                rank_key(warning_kind(trim(lv[j]))->0),
                                trim(lv[j]),
                            )) by {
                            if w == item {
                                assert(warning_kind(trim(lv[i as int])) is Some);
                            }
                        }
                    }
                }
            },
            None => {
                proof {
                    assert(pairs_view(found@).to_set() =~= Set::new(
                        |w: (Seq<char>, Seq<char>)|
                            exists|j: int|
                                0 <= j < i + 1 && #[trigger] warning_kind(trim(lv[j])) is Some && w == (
                                    rank_key(warning_kind(trim(lv[j]))->0),
                                    trim(lv[j]),
                                ),
                    )) by {
                        assert forall|w: (Seq<char>, Seq<char>)| before.contains(w) == (exists|j: int|
                            0 <= j < i + 1 && #[trigger] warning_kind(trim(lv[j])) is Some && w == (
                                rank_key(warning_kind(trim(lv[j]))->0),
                                trim(lv[j]),
                            )) by {
                            if exists|j: int|
                                0 <= j < i + 1 && #[trigger] warning_kind(trim(lv[j])) is Some && w == (
                                    rank_key(warning_kind(trim(lv[j]))->0),
                                    trim(lv[j]),
                                ) {
                                let j = choose|j: int|
                                    0 <= j < i + 1 && #[trigger] warning_kind(trim(lv[j])) is Some && w == (
                                        rank_key(warning_kind(trim(lv[j]))->0),
                                        trim(lv[j]),
                                    );
                                assert(j != i);
                            }
                        }
                    }
                }
            },
        }
        i += 1;
    }
    assert(pairs_view(found@).to_set() =~= warning_keys(log@));
    proof {
        assert forall|q: int| 0 <= q < found@.len() implies #[trigger] pairs_view(found@)[q].0.len() == 1 && (pairs_view(found@)[q].0[0] == '0'
            || pairs_view(found@)[q].0[0] == '1' || pairs_view(found@)[q].0[0] == '2' || pairs_view(found@)[q].0[0] == '3'
            || pairs_view(found@)[q].0[0] == '4') by {
            let w = pairs_view(found@)[q];
            assert(pairs_view(found@).to_set().contains(w));
            assert(warning_keys(log@).contains(w));
            let j = choose|j: int|
                0 <= j < lines(log@).len() && #[trigger] warning_kind(trim(lines(log@)[j])) is Some && w == (
                    rank_key(warning_kind(trim(lines(log@)[j]))->0),
                    trim(lines(log@)[j]),
                );
            let kk = warning_kind(trim(lines(log@)[j]))->0;
            assert(warning_rank(kk) <= 4);
            assert(w.0 == seq![crate::numbers::digit(warning_rank(kk))]);
        }
    }
    let mut r: Vec<BuildWarning> = Vec::new();
    let mut k: usize = 0;
    while k < found.len()
        invariant
            k <= found.len(),
            pairs_sorted(pairs_view(found@)),
            forall|q: int| 0 <= q < found@.len() ==> #[trigger] pairs_view(found@)[q].0.len() == 1 && (pairs_view(found@)[q].0[0] == '0'
                || pairs_view(found@)[q].0[0] == '1' || pairs_view(found@)[q].0[0] == '2' || pairs_view(found@)[q].0[0] == '3'
                || pairs_view(found@)[q].0[0] == '4'),
            keyed(r@) == pairs_view(found@).subrange(0, k as int),
        decreases found.len() - k,
    {
        let kind = kind_from_key(&found[k].0);
        let ghost before = keyed(r@);
        r.push(BuildWarning { kind, message: String::from_str(found[k].1.as_str()) });
        proof {
            let p = pairs_view(found@)[k as int];
            assert(p == (found@[k as int].0@, found@[k as int].1@));
            assert(rank_key(kind_of_key(p.0)) == p.0) by {
                reveal_strlit("unresolved-citation");
                reveal_strlit("unresolved-reference");
                reveal_strlit("missing-character");
                reveal_strlit("latex");
                reveal_strlit("layout");
                assert(p.0 =~= seq![p.0[0]]);
                assert(crate::numbers::digit(0) == '0');
                assert(crate::numbers::digit(1) == '1');
                assert(crate::numbers::digit(2) == '2');
                assert(crate::numbers::digit(3) == '3');
                assert(crate::numbers::digit(4) == '4');
                assert("layout"@.len() == 6);
                assert("latex"@.len() == 5);
                assert("missing-character"@.len() == 17);
                assert("unresolved-reference"@.len() == 20);
                assert("unresolved-citation"@.len() == 19);
                assert("unresolved-citation"@[11] == 'c' && "unresolved-reference"@[11] == 'r');
                assert(warning_rank("layout"@) == 4);
                assert(warning_rank("latex"@) == 3);
                assert(warning_rank("missing-character"@) == 2);
                assert(warning_rank("unresolved-reference"@) == 1);
            }
            assert(keyed(r@) =~= before.push(p));
            assert(pairs_view(found@).subrange(0, k + 1) =~= pairs_view(found@).subrange(0, k as int).push(p));
        }
        k += 1;
    }
    assert(pairs_view(found@).subrange(0, found@.len() as int) =~= pairs_view(found@));
    r
}

} // verus!
