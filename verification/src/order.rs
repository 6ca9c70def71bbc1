//! The order of text that `String`'s `Ord` gives (code point order), and
//! sorted, duplicate-free collections kept in that order.
use vstd::prelude::*;
use crate::text::chars_of;

verus! {

/// `a < b` in the lexicographic order of code points.
pub open spec fn seq_lt(a: Seq<char>, b: Seq<char>) -> bool
    decreases a.len(),
{
    if a.len() == 0 {
        b.len() > 0
    } else if b.len() == 0 {
        false
    } else if a[0] < b[0] {
        true
    } else if a[0] > b[0] {
        false
    } else {
        seq_lt(a.drop_first(), b.drop_first())
    }
}

pub proof fn lemma_seq_lt_irreflexive(a: Seq<char>)
    ensures
        !seq_lt(a, a),
    decreases a.len(),
{
    if a.len() > 0 {
        lemma_seq_lt_irreflexive(a.drop_first());
    }
}

pub proof fn lemma_seq_lt_transitive(a: Seq<char>, b: Seq<char>, c: Seq<char>)
    requires
        seq_lt(a, b),
        seq_lt(b, c),
    ensures
        seq_lt(a, c),
    decreases a.len(),
{
    if a.len() > 0 && b.len() > 0 && c.len() > 0 {
        if a[0] == b[0] && b[0] == c[0] {
            lemma_seq_lt_transitive(a.drop_first(), b.drop_first(), c.drop_first());
        }
    }
}

pub proof fn lemma_seq_lt_total(a: Seq<char>, b: Seq<char>)
    ensures
        a == b || seq_lt(a, b) || seq_lt(b, a),
    decreases a.len(),
{
    if a.len() > 0 && b.len() > 0 {
        if a[0] == b[0] {
            lemma_seq_lt_total(a.drop_first(), b.drop_first());
            if a.drop_first() == b.drop_first() {
                assert(a[0] == b[0]);
                assert(a == seq![a[0]] + a.drop_first());
                assert(b == seq![b[0]] + b.drop_first());
            }
        }
    } else if a.len() == 0 && b.len() == 0 {
        assert(a == b);
    }
}

pub proof fn lemma_seq_lt_asymmetric(a: Seq<char>, b: Seq<char>)
    requires
        seq_lt(a, b),
    ensures
        !seq_lt(b, a),
{
    if seq_lt(b, a) {
        lemma_seq_lt_transitive(a, b, a);
        lemma_seq_lt_irreflexive(a);
    }
}

/// `a < b` for two texts.
pub fn text_lt(a: &Vec<char>, b: &Vec<char>) -> (r: bool)
    ensures
        r == seq_lt(a@, b@),
{
    let mut i: usize = 0;
    assert(a@.subrange(0, a.len() as int) == a@);
    assert(b@.subrange(0, b.len() as int) == b@);
    while i < a.len() && i < b.len() && a[i] == b[i]
        invariant
            i <= a.len(),
            i <= b.len(),
            seq_lt(a@, b@) == seq_lt(a@.subrange(i as int, a.len() as int), b@.subrange(i as int, b.len() as int)),
        decreases a.len() - i,
    {
        proof {
            let x = a@.subrange(i as int, a.len() as int);
            let y = b@.subrange(i as int, b.len() as int);
            assert(x.drop_first() == a@.subrange(i + 1, a.len() as int));
            assert(y.drop_first() == b@.subrange(i + 1, b.len() as int));
            assert(x[0] == a@[i as int]);
            assert(y[0] == b@[i as int]);
        }
        i += 1;
    }
    proof {
        let x = a@.subrange(i as int, a.len() as int);
        let y = b@.subrange(i as int, b.len() as int);
        if i < a.len() && i < b.len() {
            assert(x[0] == a@[i as int]);
            assert(y[0] == b@[i as int]);
        }
    }
    if i == a.len() {
        i < b.len()
    } else if i == b.len() {
        false
    } else {
        a[i] < b[i]
    }
}

/// `a < b` for two strings.
pub fn string_lt(a: &String, b: &String) -> (r: bool)
    ensures
        r == seq_lt(a@, b@),
{
    let x = chars_of(a.as_str());
    let y = chars_of(b.as_str());
    text_lt(&x, &y)
}

/// The order of pairs of texts: by the first, then by the second.
pub open spec fn pair_lt(a: (Seq<char>, Seq<char>), b: (Seq<char>, Seq<char>)) -> bool {
    seq_lt(a.0, b.0) || (a.0 == b.0 && seq_lt(a.1, b.1))
}

pub proof fn lemma_pair_lt_facts(a: (Seq<char>, Seq<char>), b: (Seq<char>, Seq<char>), c: (Seq<char>, Seq<char>))
    ensures
        !pair_lt(a, a),
        pair_lt(a, b) && pair_lt(b, c) ==> pair_lt(a, c),
        a == b || pair_lt(a, b) || pair_lt(b, a),
{
    lemma_seq_lt_irreflexive(a.0);
    lemma_seq_lt_irreflexive(a.1);
    lemma_seq_lt_total(a.0, b.0);
    lemma_seq_lt_total(a.1, b.1);
    if pair_lt(a, b) && pair_lt(b, c) {
        if seq_lt(a.0, b.0) && seq_lt(b.0, c.0) {
            lemma_seq_lt_transitive(a.0, b.0, c.0);
        }
        if a.0 == b.0 && b.0 == c.0 {
            lemma_seq_lt_transitive(a.1, b.1, c.1);
        }
    }
}

/// The view of a list of string pairs.
pub open spec fn pairs_view(v: Seq<(String, String)>) -> Seq<(Seq<char>, Seq<char>)> {
    v.map_values(|p: (String, String)| (p.0@, p.1@))
}

/// Strictly increasing under `pair_lt`.
pub open spec fn pairs_sorted(s: Seq<(Seq<char>, Seq<char>)>) -> bool {
    forall|i: int, j: int| 0 <= i < j < s.len() ==> pair_lt(#[trigger] s[i], #[trigger] s[j])
}

/// Inserts `item` into a sorted list of pairs unless it is already there.
pub fn insert_pair(v: &mut Vec<(String, String)>, item: (String, String))
    requires
        pairs_sorted(pairs_view(old(v)@)),
    ensures
        pairs_sorted(pairs_view(final(v)@)),
        pairs_view(final(v)@).to_set() == pairs_view(old(v)@).to_set().insert((item.0@, item.1@)),
{
    let ghost old_v = pairs_view(v@);
    let ghost it = (item.0@, item.1@);
    let mut p: usize = 0;
    while p < v.len()
        invariant
            p <= v.len(),
            old_v == pairs_view(v@),
            it == (item.0@, item.1@),
            forall|i: int| 0 <= i < p ==> pair_lt(#[trigger] old_v[i], it),
        ensures
            p <= v.len(),
            old_v == pairs_view(v@),
            forall|i: int| 0 <= i < p ==> pair_lt(#[trigger] old_v[i], it),
            p < v.len() ==> !pair_lt(old_v[p as int], it),
        decreases v.len() - p,
    {
        assert(old_v[p as int] == (v@[p as int].0@, v@[p as int].1@));
        let first_lt = string_lt(&v[p].0, &item.0);
        let first_eq = v[p].0 == item.0;
        let second_lt = string_lt(&v[p].1, &item.1);
        if !(first_lt || (first_eq && second_lt)) {
            break;
        }
        assert(old_v[p as int] == (v@[p as int].0@, v@[p as int].1@));
        p += 1;
    }
    if p < v.len() && v[p].0 == item.0 && v[p].1 == item.1 {
        proof {
            assert(old_v[p as int] == (v@[p as int].0@, v@[p as int].1@));
            assert(old_v[p as int] == it);
            assert(old_v.to_set().insert(it) =~= old_v.to_set());
        }
        return;
    }
    proof {
        if p < v.len() {
            assert(old_v[p as int] == (v@[p as int].0@, v@[p as int].1@));
            lemma_pair_lt_facts(old_v[p as int], it, it);
            assert(pair_lt(it, old_v[p as int]));
        }
    }
    v.insert(p, item);
    proof {
        let nv = pairs_view(v@);
        assert(nv == old_v.insert(p as int, it));
        assert forall|i: int, j: int| 0 <= i < j < nv.len() implies pair_lt(#[trigger] nv[i], #[trigger] nv[j]) by {
            if j < p {
            } else if j == p {
            } else if i < p {
                lemma_pair_lt_facts(old_v[i], it, old_v[j - 1]);
                if p < j - 1 {
                    lemma_pair_lt_facts(it, old_v[p as int], old_v[j - 1]);
                }
            } else if i == p {
                if p < j - 1 {
                    lemma_pair_lt_facts(it, old_v[p as int], old_v[j - 1]);
                }
            } else {
            }
        }
        assert forall|x| nv.to_set().contains(x) <==> old_v.to_set().insert(it).contains(x) by {
            if nv.contains(x) {
                let k = choose|k: int| 0 <= k < nv.len() && nv[k] == x;
                if k < p {
                    assert(old_v[k] == x);
                } else if k > p {
                    assert(old_v[k - 1] == x);
                }
            }
            if old_v.contains(x) {
                let k = choose|k: int| 0 <= k < old_v.len() && old_v[k] == x;
                if k < p {
                    assert(nv[k] == x);
                } else {
                    assert(nv[k + 1] == x);
                }
            }
            if x == it {
                assert(nv[p as int] == x);
            }
        }
        assert(nv.to_set() =~= old_v.to_set().insert(it));
    }
}

/// The views of a list of strings.
pub open spec fn texts_of(v: Seq<String>) -> Seq<Seq<char>> {
    v.map_values(|s: String| s@)
}

/// Strictly increasing in code point order.
pub open spec fn texts_sorted(s: Seq<Seq<char>>) -> bool {
    forall|i: int, j: int| 0 <= i < j < s.len() ==> seq_lt(#[trigger] s[i], #[trigger] s[j])
}

/// Inserts `item` into a sorted list of strings unless it is already there,
/// as a `BTreeSet<String>` would hold it.
pub fn insert_text(v: &mut Vec<String>, item: String)
    requires
        texts_sorted(texts_of(old(v)@)),
    ensures
        texts_sorted(texts_of(final(v)@)),
        texts_of(final(v)@).to_set() == texts_of(old(v)@).to_set().insert(item@),
{
    let ghost old_v = texts_of(v@);
    let ghost it = item@;
    let mut p: usize = 0;
    while p < v.len()
        invariant
            p <= v.len(),
            old_v == texts_of(v@),
            it == item@,
            forall|i: int| 0 <= i < p ==> seq_lt(#[trigger] old_v[i], it),
        ensures
            p <= v.len(),
            old_v == texts_of(v@),
            forall|i: int| 0 <= i < p ==> seq_lt(#[trigger] old_v[i], it),
            p < v.len() ==> !seq_lt(old_v[p as int], it),
        decreases v.len() - p,
    {
        assert(old_v[p as int] == v@[p as int]@);
        if !string_lt(&v[p], &item) {
            break;
        }
        p += 1;
    }
    if p < v.len() {
        assert(old_v[p as int] == v@[p as int]@);
        if !string_lt(&item, &v[p]) {
            proof {
                lemma_seq_lt_total(old_v[p as int], it);
                assert(old_v[p as int] == it);
                assert(old_v.to_set().insert(it) =~= old_v.to_set());
            }
            return;
        }
    }
    assert(p < old_v.len() ==> seq_lt(it, old_v[p as int]));
    v.insert(p, item);
    proof {
        let nv = texts_of(v@);
        assert(nv == old_v.insert(p as int, it));
        assert forall|i: int, j: int| 0 <= i < j < nv.len() implies seq_lt(#[trigger] nv[i], #[trigger] nv[j]) by {
            if j < p {
            } else if j == p {
            } else if i < p {
                if p < j - 1 {
                    lemma_seq_lt_transitive(it, old_v[p as int], old_v[j - 1]);
                }
                lemma_seq_lt_transitive(old_v[i], it, old_v[j - 1]);
            } else if i == p {
                if p < j - 1 {
                    lemma_seq_lt_transitive(it, old_v[p as int], old_v[j - 1]);
                }
            } else {
            }
        }
        assert forall|x| nv.to_set().contains(x) <==> old_v.to_set().insert(it).contains(x) by {
            if nv.contains(x) {
                let k = choose|k: int| 0 <= k < nv.len() && nv[k] == x;
                if k < p {
                    assert(old_v[k] == x);
                } else if k > p {
                    assert(old_v[k - 1] == x);
                }
            }
            if old_v.contains(x) {
                let k = choose|k: int| 0 <= k < old_v.len() && old_v[k] == x;
                if k < p {
                    assert(nv[k] == x);
                } else {
                    assert(nv[k + 1] == x);
                }
            }
            if x == it {
                assert(nv[p as int] == x);
            }
        }
        assert(nv.to_set() =~= old_v.to_set().insert(it));
    }
}

} // verus!
