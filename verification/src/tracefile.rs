//! The input trace a build hands pqty: how the recorder adapter is called,
//! and how inputs the engine's log says are missing join the traced ones.
use vstd::prelude::*;
use vstd::multiset::Multiset;
use crate::environment::ResolvedToolchain;
use crate::order::{lemma_seq_lt_irreflexive, lemma_seq_lt_total, lemma_seq_lt_transitive, seq_lt, string_lt};
use crate::paths::same_path;
use crate::setup::strings_view;
use crate::text::{chars_of, eq_str};
use crate::trace::opt_string_view;

verus! {

pub const TRACE_SCHEMA: &'static str = "pqty.trace/v1";

/// One traced input.
#[derive(Debug, Clone)]
pub struct TraceInput {
    pub requested: String,
    pub resolved: Option<String>,
    pub scope: String,
    pub kind: Option<String>,
}

/// An input as text: scope, requested, resolved, kind.
pub type InputView = (Seq<char>, Seq<char>, Option<Seq<char>>, Option<Seq<char>>);

pub open spec fn input_view(t: TraceInput) -> InputView {
    (t.scope@, t.requested@, opt_string_view(t.resolved), opt_string_view(t.kind))
}

pub open spec fn inputs_view(v: Seq<TraceInput>) -> Seq<InputView> {
    v.map_values(|t: TraceInput| input_view(t))
}

/// `None` first, then by text.
pub open spec fn opt_lt(a: Option<Seq<char>>, b: Option<Seq<char>>) -> bool {
    match (a, b) {
        (None, Some(_)) => true,
        (Some(x), Some(y)) => seq_lt(x, y),
        _ => false,
    }
}

/// The order of the trace: by scope, then requested, then resolved.
pub open spec fn key_lt(a: InputView, b: InputView) -> bool {
    seq_lt(a.0, b.0) || (a.0 == b.0 && (seq_lt(a.1, b.1) || (a.1 == b.1 && opt_lt(a.2, b.2))))
}

pub proof fn lemma_key_lt_facts(a: InputView, b: InputView, c: InputView)
    ensures
        !key_lt(a, a),
        key_lt(a, b) && key_lt(b, c) ==> key_lt(a, c),
        key_lt(a, b) ==> !key_lt(b, a),
{
    lemma_seq_lt_irreflexive(a.0);
    lemma_seq_lt_irreflexive(a.1);
    if let Some(x) = a.2 {
        lemma_seq_lt_irreflexive(x);
    }
    if key_lt(a, b) && key_lt(b, c) {
        if seq_lt(a.0, b.0) && seq_lt(b.0, c.0) {
            lemma_seq_lt_transitive(a.0, b.0, c.0);
        }
        if a.0 == b.0 && b.0 == c.0 {
            if seq_lt(a.1, b.1) && seq_lt(b.1, c.1) {
                lemma_seq_lt_transitive(a.1, b.1, c.1);
            }
            if a.1 == b.1 && b.1 == c.1 {
                if let (Some(x), Some(y), Some(z)) = (a.2, b.2, c.2) {
                    if seq_lt(x, y) && seq_lt(y, z) {
                        lemma_seq_lt_transitive(x, y, z);
                    }
                }
            }
        }
    }
    if key_lt(a, b) && key_lt(b, a) {
        if seq_lt(a.0, b.0) && seq_lt(b.0, a.0) {
            lemma_seq_lt_transitive(a.0, b.0, a.0);
        }
        if a.0 == b.0 {
            if seq_lt(a.1, b.1) && seq_lt(b.1, a.1) {
                lemma_seq_lt_transitive(a.1, b.1, a.1);
            }
            if a.1 == b.1 {
                if let (Some(x), Some(y)) = (a.2, b.2) {
                    if seq_lt(x, y) && seq_lt(y, x) {
                        lemma_seq_lt_transitive(x, y, x);
                    }
                }
            }
        }
    }
}

/// In trace order, equal keys in any order.
pub open spec fn inputs_sorted(s: Seq<InputView>) -> bool {
    forall|i: int, j: int| 0 <= i < j < s.len() ==> !key_lt(#[trigger] s[j], #[trigger] s[i])
}

/// No input follows an identical one.
pub open spec fn no_repeats(s: Seq<InputView>) -> bool {
    forall|i: int| 0 <= i < s.len() - 1 ==> #[trigger] s[i] != s[i + 1]
}

fn opt_text_lt(a: &Option<String>, b: &Option<String>) -> (r: bool)
    ensures
        r == opt_lt(opt_string_view(*a), opt_string_view(*b)),
{
    match (a, b) {
        (None, Some(_)) => true,
        (Some(x), Some(y)) => string_lt(x, y),
        _ => false,
    }
}

fn opt_text_eq(a: &Option<String>, b: &Option<String>) -> (r: bool)
    ensures
        r == (opt_string_view(*a) == opt_string_view(*b)),
{
    match (a, b) {
        (None, None) => true,
        (Some(x), Some(y)) => eq_str(&chars_of(x.as_str()), y.as_str()),
        _ => false,
    }
}

fn text_eq(a: &String, b: &String) -> (r: bool)
    ensures
        r == (a@ == b@),
{
    eq_str(&chars_of(a.as_str()), b.as_str())
}

fn input_lt(a: &TraceInput, b: &TraceInput) -> (r: bool)
    ensures
        r == key_lt(input_view(*a), input_view(*b)),
{
    string_lt(&a.scope, &b.scope) || (text_eq(&a.scope, &b.scope) && (string_lt(&a.requested, &b.requested) || (text_eq(
        &a.requested,
        &b.requested,
    ) && opt_text_lt(&a.resolved, &b.resolved))))
}

fn input_eq(a: &TraceInput, b: &TraceInput) -> (r: bool)
    ensures
        r == (input_view(*a) == input_view(*b)),
{
    text_eq(&a.scope, &b.scope) && text_eq(&a.requested, &b.requested) && opt_text_eq(&a.resolved, &b.resolved)
        && opt_text_eq(&a.kind, &b.kind)
}

fn copy_opt(o: &Option<String>) -> (r: Option<String>)
    ensures
        opt_string_view(r) == opt_string_view(*o),
{
    match o {
        Some(s) => Some(String::from_str(s.as_str())),
        None => None,
    }
}

fn copy_input(t: &TraceInput) -> (r: TraceInput)
    ensures
        input_view(r) == input_view(*t),
{
    TraceInput {
        requested: String::from_str(t.requested.as_str()),
        resolved: copy_opt(&t.resolved),
        scope: String::from_str(t.scope.as_str()),
        kind: copy_opt(&t.kind),
    }
}

/// Inserts `x` after every input that does not come after it.
fn insert_sorted(v: &mut Vec<TraceInput>, x: TraceInput)
    requires
        inputs_sorted(inputs_view(old(v)@)),
    ensures
        inputs_sorted(inputs_view(final(v)@)),
        inputs_view(final(v)@).to_multiset() == inputs_view(old(v)@).to_multiset().insert(input_view(x)),
{
    let ghost s = inputs_view(v@);
    let ghost xv = input_view(x);
    let mut p: usize = 0;
    while p < v.len() && !input_lt(&x, &v[p])
        invariant
            p <= v.len(),
            s == inputs_view(v@),
            xv == input_view(x),
            inputs_sorted(s),
            forall|i: int| 0 <= i < p ==> !key_lt(xv, #[trigger] s[i]),
        decreases v.len() - p,
    {
        assert(s[p as int] == input_view(v@[p as int]));
        p += 1;
    }
    if p < v.len() {
        assert(s[p as int] == input_view(v@[p as int]));
        assert(key_lt(xv, s[p as int]));
    }
    v.insert(p, x);
    proof {
        let t = inputs_view(v@);
        assert(t =~= s.insert(p as int, xv));
        assert forall|i: int, j: int| 0 <= i < j < t.len() implies !key_lt(#[trigger] t[j], #[trigger] t[i]) by {
            if i < p && j < p {
                assert(t[i] == s[i] && t[j] == s[j]);
            } else if i < p && j == p {
                assert(t[i] == s[i] && t[j] == xv);
            } else if i < p && j > p {
                assert(t[i] == s[i] && t[j] == s[j - 1]);
            } else if i == p {
                assert(t[i] == xv && t[j] == s[j - 1]);
                assert(key_lt(xv, s[p as int]));
                assert(!key_lt(s[j - 1], s[p as int]) || j - 1 == p);
                lemma_key_lt_facts(s[j - 1], xv, s[p as int]);
                lemma_key_lt_facts(s[p as int], s[p as int], s[p as int]);
            } else {
                assert(t[i] == s[i - 1] && t[j] == s[j - 1]);
            }
        }
        s.to_multiset_ensures();
        t.to_multiset_ensures();
        vstd::seq_lib::to_multiset_insert(s, p as int, xv);
    }
}

proof fn lemma_push_to_set<A>(s: Seq<A>, y: A)
    ensures
        s.push(y).to_set() == s.to_set().insert(y),
{
    let t = s.push(y);
    assert forall|x: A| t.contains(x) <==> s.contains(x) || x == y by {
        if s.contains(x) {
            let i = choose|i: int| 0 <= i < s.len() && s[i] == x;
            assert(t[i] == s[i]);
        }
        if x == y {
            assert(t[s.len() as int] == y);
        }
        if t.contains(x) {
            let i = choose|i: int| 0 <= i < t.len() && t[i] == x;
            if i < s.len() {
                assert(s[i] == x);
            }
        }
    }
    assert(t.to_set() =~= s.to_set().insert(y));
}

/// The inputs the engine's log says are missing, as package inputs, for
/// each request the trace does not already hold.
pub open spec fn added_inputs(existing: Seq<InputView>, missing: Seq<(Seq<char>, Seq<char>)>) -> Seq<InputView>
    decreases missing.len(),
{
    if missing.len() == 0 {
        Seq::empty()
    } else {
        let m = missing.last();
        let rest = added_inputs(existing, missing.drop_last());
        if exists|j: int| 0 <= j < existing.len() && (#[trigger] existing[j]).1 == m.0 {
            rest
        } else {
            rest.push(("package"@, m.0, None, Some(m.1)))
        }
    }
}

fn requested_before(inputs: &Vec<TraceInput>, requested: &String) -> (r: bool)
    ensures
        r == exists|j: int| 0 <= j < inputs@.len() && (#[trigger] inputs_view(inputs@)[j]).1 == requested@,
{
    let ghost s = inputs_view(inputs@);
    let mut j: usize = 0;
    while j < inputs.len()
        invariant
            j <= inputs.len(),
            s == inputs_view(inputs@),
            forall|q: int| 0 <= q < j ==> (#[trigger] s[q]).1 != requested@,
        decreases inputs.len() - j,
    {
        assert(s[j as int] == input_view(inputs@[j as int]));
        if text_eq(&inputs[j].requested, requested) {
            return true;
        }
        j += 1;
    }
    false
}

/// The inputs of the trace texe writes: the traced inputs and the missing
/// ones the log names, in trace order, without an input repeated right
/// after itself.
pub fn merge_trace_inputs(inputs: &Vec<TraceInput>, missing: &Vec<(String, String)>) -> (r: Vec<TraceInput>)
    ensures
        inputs_sorted(inputs_view(r@)),
        no_repeats(inputs_view(r@)),
        inputs_view(r@).to_set() == inputs_view(inputs@).to_set() + added_inputs(
            inputs_view(inputs@),
            crate::order::pairs_view(missing@),
        ).to_set(),
{
    let ghost existing = inputs_view(inputs@);
    let ghost mv = crate::order::pairs_view(missing@);
    let mut sorted: Vec<TraceInput> = Vec::new();
    let mut i: usize = 0;
    assert(inputs_view(sorted@) =~= existing.subrange(0, 0));
    while i < inputs.len()
        invariant
            i <= inputs.len(),
            existing == inputs_view(inputs@),
            inputs_sorted(inputs_view(sorted@)),
            inputs_view(sorted@).to_multiset() == existing.subrange(0, i as int).to_multiset(),
        decreases inputs.len() - i,
    {
        insert_sorted(&mut sorted, copy_input(&inputs[i]));
        proof {
            let a = existing.subrange(0, i as int);
            assert(existing.subrange(0, i + 1) =~= a.push(existing[i as int]));
            a.to_multiset_ensures();
        }
        i += 1;
    }
    assert(existing.subrange(0, existing.len() as int) =~= existing);
    proof {
        broadcast use vstd::multiset::group_multiset_axioms;
        assert(added_inputs(existing, mv.subrange(0, 0)) =~= Seq::<InputView>::empty());
        Seq::<InputView>::empty().to_multiset_ensures();
        assert(Seq::<InputView>::empty().to_multiset() =~= Multiset::<InputView>::empty());
        assert(existing.to_multiset().add(Multiset::<InputView>::empty()) =~= existing.to_multiset());
    }
    let mut k: usize = 0;
    while k < missing.len()
        invariant
            k <= missing.len(),
            existing == inputs_view(inputs@),
            mv == crate::order::pairs_view(missing@),
            inputs_sorted(inputs_view(sorted@)),
            inputs_view(sorted@).to_multiset() == existing.to_multiset().add(
                added_inputs(existing, mv.subrange(0, k as int)).to_multiset(),
            ),
        decreases missing.len() - k,
    {
        let ghost prefix = mv.subrange(0, k as int);
        assert(mv.subrange(0, k + 1).drop_last() =~= prefix);
        assert(mv.subrange(0, k + 1).last() == mv[k as int]);
        assert(mv[k as int] == (missing@[k as int].0@, missing@[k as int].1@));
        if !requested_before(inputs, &missing[k].0) {
            let t = TraceInput {
                requested: String::from_str(missing[k].0.as_str()),
                resolved: None,
                scope: String::from_str("package"),
                kind: Some(String::from_str(missing[k].1.as_str())),
            };
            proof {
                reveal_strlit("package");
            }
            assert(input_view(t) == ("package"@, mv[k as int].0, None::<Seq<char>>, Some(mv[k as int].1)));
            insert_sorted(&mut sorted, t);
            proof {
                broadcast use vstd::multiset::group_multiset_axioms;
                let before = added_inputs(existing, prefix);
                assert(added_inputs(existing, mv.subrange(0, k + 1)) == before.push(input_view(t)));
                before.to_multiset_ensures();
                assert(existing.to_multiset().add(before.to_multiset()).insert(input_view(t)) =~= existing.to_multiset().add(
                    before.push(input_view(t)).to_multiset(),
                ));
            }
        }
        k += 1;
    }
    assert(mv.subrange(0, mv.len() as int) =~= mv);
    let ghost all = inputs_view(sorted@);
    let mut r: Vec<TraceInput> = Vec::new();
    let mut q: usize = 0;
    while q < sorted.len()
        invariant
            q <= sorted.len(),
            all == inputs_view(sorted@),
            inputs_sorted(all),
            inputs_sorted(inputs_view(r@)),
            no_repeats(inputs_view(r@)),
            inputs_view(r@).to_set() == all.subrange(0, q as int).to_set(),
            q > 0 ==> r@.len() > 0 && inputs_view(r@).last() == all[q - 1],
            q == 0 ==> r@.len() == 0,
            forall|i: int| 0 <= i < r@.len() ==> exists|j: int| 0 <= j < q && #[trigger] inputs_view(r@)[i] == all[j],
        decreases sorted.len() - q,
    {
        let ghost rv = inputs_view(r@);
        assert(all[q as int] == input_view(sorted@[q as int]));
        let repeat = r.len() > 0 && input_eq(&r[r.len() - 1], &sorted[q]);
        proof {
            if r.len() > 0 {
                assert(rv.last() == input_view(r@[r@.len() - 1]));
            }
            assert(all.subrange(0, q + 1) =~= all.subrange(0, q as int).push(all[q as int]));
        }
        if !repeat {
            r.push(copy_input(&sorted[q]));
            proof {
                let nv = inputs_view(r@);
                assert(nv =~= rv.push(all[q as int]));
                assert forall|i: int, j: int| 0 <= i < j < nv.len() implies !key_lt(#[trigger] nv[j], #[trigger] nv[i]) by {
                    if j == nv.len() - 1 {
                        let w = choose|w: int| 0 <= w < q && rv[i] == all[w];
                        assert(!key_lt(all[q as int], all[w]));
                    } else {
                        assert(nv[i] == rv[i] && nv[j] == rv[j]);
                    }
                }
                assert forall|i: int| 0 <= i < nv.len() - 1 implies #[trigger] nv[i] != nv[i + 1] by {
                    if i + 1 == nv.len() - 1 {
                        assert(nv[i] == rv.last());
                    } else {
                        assert(nv[i] == rv[i] && nv[i + 1] == rv[i + 1]);
                    }
                }
                assert forall|i: int| 0 <= i < nv.len() implies exists|j: int| 0 <= j < q + 1 && #[trigger] nv[i] == all[j] by {
                    if i == nv.len() - 1 {
                        assert(nv[i] == all[q as int]);
                    } else {
                        assert(nv[i] == rv[i]);
                    }
                }
                lemma_push_to_set(rv, all[q as int]);
                lemma_push_to_set(all.subrange(0, q as int), all[q as int]);
            }
        } else {
            proof {
                lemma_push_to_set(all.subrange(0, q as int), all[q as int]);
                assert(rv[rv.len() - 1] == rv.last());
                assert(rv.contains(rv.last()));
                assert(rv.to_set().insert(all[q as int]) =~= rv.to_set());
                assert forall|i: int| 0 <= i < rv.len() implies exists|j: int| 0 <= j < q + 1 && #[trigger] rv[i] == all[j] by {
                    let w = choose|w: int| 0 <= w < q && rv[i] == all[w];
                }
            }
        }
        q += 1;
    }
    proof {
        broadcast use vstd::multiset::group_multiset_axioms;
        assert(all.subrange(0, all.len() as int) =~= all);
        let added = added_inputs(existing, mv);
        existing.to_multiset_ensures();
        added.to_multiset_ensures();
        all.to_multiset_ensures();
        assert forall|x: InputView| all.to_set().contains(x) <==> (existing.to_set() + added.to_set()).contains(x) by {
            assert(all.to_set().contains(x) <==> all.contains(x));
            assert(all.contains(x) <==> all.to_multiset().count(x) > 0);
            assert(existing.contains(x) <==> existing.to_multiset().count(x) > 0);
            assert(added.contains(x) <==> added.to_multiset().count(x) > 0);
        }
        assert(all.to_set() =~= existing.to_set() + added.to_set());
    }
    r
}

/// The roots the recorder adapter classifies paths under, in order: the
/// project, the output directory, the package tree, for a discovery run
/// of a system toolchain its distribution, the engine's own roots and a
/// managed format's root.
pub open spec fn classification_root_paths_of(
    project_root: Seq<char>,
    output_dir: Seq<char>,
    texmf: Seq<char>,
    t: ResolvedToolchain,
    discovery: bool,
    format_root: Option<Seq<char>>,
) -> Seq<(Seq<char>, Seq<char>)> {
    seq![("--project-root"@, project_root), ("--output-root"@, output_dir), ("--package-root"@, texmf)] + (if discovery
        && t.managed is None {
        seq![("--package-root"@, t.texmf_dist@)]
    } else {
        Seq::empty()
    }) + strings_view(t.engine_roots@).map_values(|r: Seq<char>| ("--engine-root"@, r)) + match format_root {
        Some(f) => seq![("--engine-root"@, f)],
        None => Seq::empty(),
    }
}

pub fn classification_root_paths(
    project_root: &str,
    output_dir: &str,
    texmf: &str,
    toolchain: &ResolvedToolchain,
    discovery: bool,
    format_root: &Option<String>,
) -> (r: Vec<(String, String)>)
    ensures
        crate::order::pairs_view(r@) == classification_root_paths_of(
            project_root@,
            output_dir@,
            texmf@,
            *toolchain,
            discovery,
            opt_string_view(*format_root),
        ),
{
    let mut r: Vec<(String, String)> = Vec::new();
    crate::environment::push_pair(&mut r, "--project-root", String::from_str(project_root));
    crate::environment::push_pair(&mut r, "--output-root", String::from_str(output_dir));
    crate::environment::push_pair(&mut r, "--package-root", String::from_str(texmf));
    let ghost base = crate::order::pairs_view(r@);
    if discovery && toolchain.managed.is_none() {
        crate::environment::push_pair(&mut r, "--package-root", String::from_str(toolchain.texmf_dist.as_str()));
    }
    let ghost with_dist = crate::order::pairs_view(r@);
    let ghost roots = strings_view(toolchain.engine_roots@);
    let mut i: usize = 0;
    while i < toolchain.engine_roots.len()
        invariant
            i <= toolchain.engine_roots.len(),
            roots == strings_view(toolchain.engine_roots@),
            crate::order::pairs_view(r@) == with_dist + roots.subrange(0, i as int).map_values(
                |x: Seq<char>| ("--engine-root"@, x),
            ),
        decreases toolchain.engine_roots.len() - i,
    {
        crate::environment::push_pair(&mut r, "--engine-root", String::from_str(toolchain.engine_roots[i].as_str()));
        proof {
            let f = |x: Seq<char>| ("--engine-root"@, x);
            assert(roots.subrange(0, i + 1) =~= roots.subrange(0, i as int).push(roots[i as int]));
            assert(roots.subrange(0, i + 1).map_values(f) =~= roots.subrange(0, i as int).map_values(f).push(f(roots[i as int])));
        }
        i += 1;
    }
    assert(roots.subrange(0, roots.len() as int) =~= roots);
    let ghost with_engine = crate::order::pairs_view(r@);
    match format_root {
        Some(f) => {
            crate::environment::push_pair(&mut r, "--engine-root", String::from_str(f.as_str()));
        },
        None => {},
    }
    proof {
        assert(base =~= seq![("--project-root"@, project_root@), ("--output-root"@, output_dir@), ("--package-root"@, texmf@)]);
        if !(discovery && toolchain.managed is None) {
            assert(with_dist =~= base + Seq::<(Seq<char>, Seq<char>)>::empty());
        }
        if format_root is None {
            assert(crate::order::pairs_view(r@) =~= with_engine + Seq::<(Seq<char>, Seq<char>)>::empty());
        }
    }
    r
}

/// The spellings under which the adapter recognises a root: the project
/// only by its canonical path, any other root by the given path and, where
/// it differs, the canonical one.
pub open spec fn root_aliases_of(flag: Seq<char>, root: Seq<char>, canonical: Seq<char>) -> Seq<Seq<char>> {
    if flag == "--project-root"@ {
        seq![canonical]
    } else if same_path(canonical, root) {
        seq![root]
    } else {
        seq![root, canonical]
    }
}

/// The recorder adapter's arguments: the recorder file, the package
/// environment, each root under each of its spellings, and the output.
pub open spec fn adapter_arguments_of(
    recorder: Seq<char>,
    environment: Seq<char>,
    roots: Seq<(Seq<char>, Seq<char>, Seq<char>)>,
    output: Seq<char>,
) -> Seq<Seq<char>> {
    seq!["--fls"@, recorder, "--environment"@, environment] + roots.map_values(
        |r: (Seq<char>, Seq<char>, Seq<char>)|
            root_aliases_of(r.0, r.1, r.2).map_values(|a: Seq<char>| seq![r.0, a]).flatten(),
    ).flatten() + seq!["--output"@, output]
}

pub open spec fn roots_view(v: Seq<(String, String, String)>) -> Seq<(Seq<char>, Seq<char>, Seq<char>)> {
    v.map_values(|r: (String, String, String)| (r.0@, r.1@, r.2@))
}

fn push_text(v: &mut Vec<String>, s: &str)
    ensures
        strings_view(final(v)@) == strings_view(old(v)@).push(s@),
{
    let ghost before = strings_view(v@);
    v.push(String::from_str(s));
    assert(strings_view(v@) =~= before.push(s@));
}

/// The adapter's arguments; each root comes as its flag, its path and its
/// canonical path.
pub fn adapter_arguments(recorder: &str, environment: &str, roots: &Vec<(String, String, String)>, output: &str) -> (r: Vec<
    String,
>)
    ensures
        strings_view(r@) == adapter_arguments_of(recorder@, environment@, roots_view(roots@), output@),
{
    let mut r: Vec<String> = Vec::new();
    push_text(&mut r, "--fls");
    push_text(&mut r, recorder);
    push_text(&mut r, "--environment");
    push_text(&mut r, environment);
    let ghost head = strings_view(r@);
    assert(head =~= seq!["--fls"@, recorder@, "--environment"@, environment@]);
    let ghost rv = roots_view(roots@);
    let ghost f = |x: (Seq<char>, Seq<char>, Seq<char>)|
        root_aliases_of(x.0, x.1, x.2).map_values(|a: Seq<char>| seq![x.0, a]).flatten();
    let mut i: usize = 0;
    assert(rv.subrange(0, 0).map_values(f).flatten() =~= Seq::<Seq<char>>::empty());
    assert(strings_view(r@) =~= head + rv.subrange(0, 0).map_values(f).flatten());
    while i < roots.len()
        invariant
            i <= roots.len(),
            rv == roots_view(roots@),
            f == (|x: (Seq<char>, Seq<char>, Seq<char>)|
                root_aliases_of(x.0, x.1, x.2).map_values(|a: Seq<char>| seq![x.0, a]).flatten()),
            strings_view(r@) == head + rv.subrange(0, i as int).map_values(f).flatten(),
        decreases roots.len() - i,
    {
        let flag = &roots[i].0;
        let root = &roots[i].1;
        let canonical = &roots[i].2;
        let ghost x = rv[i as int];
        assert(x == (flag@, root@, canonical@));
        let ghost before = strings_view(r@);
        if eq_str(&chars_of(flag.as_str()), "--project-root") {
            push_text(&mut r, flag.as_str());
            push_text(&mut r, canonical.as_str());
            proof {
                let al = seq![canonical@];
                assert(al.map_values(|a: Seq<char>| seq![x.0, a]) =~= seq![seq![flag@, canonical@]]);
                assert(seq![seq![flag@, canonical@]].flatten() =~= seq![flag@, canonical@]) by {
                    let s = seq![seq![flag@, canonical@]];
                    assert(s =~= Seq::<Seq<Seq<char>>>::empty().push(seq![flag@, canonical@]));
                    Seq::<Seq<Seq<char>>>::empty().lemma_flatten_push(seq![flag@, canonical@]);
                }
                assert(f(x) == seq![flag@, canonical@]);
            }
        } else if crate::paths::paths_equal(canonical.as_str(), root.as_str()) {
            push_text(&mut r, flag.as_str());
            push_text(&mut r, root.as_str());
            proof {
                assert(seq![root@].map_values(|a: Seq<char>| seq![x.0, a]) =~= seq![seq![flag@, root@]]);
                let s = seq![seq![flag@, root@]];
                assert(s =~= Seq::<Seq<Seq<char>>>::empty().push(seq![flag@, root@]));
                Seq::<Seq<Seq<char>>>::empty().lemma_flatten_push(seq![flag@, root@]);
                assert(f(x) == seq![flag@, root@]);
            }
        } else {
            push_text(&mut r, flag.as_str());
            push_text(&mut r, root.as_str());
            push_text(&mut r, flag.as_str());
            push_text(&mut r, canonical.as_str());
            proof {
                assert(seq![root@, canonical@].map_values(|a: Seq<char>| seq![x.0, a]) =~= seq![
                    seq![flag@, root@],
                    seq![flag@, canonical@],
                ]);
                let s1 = Seq::<Seq<Seq<char>>>::empty().push(seq![flag@, root@]);
                let s2 = s1.push(seq![flag@, canonical@]);
                Seq::<Seq<Seq<char>>>::empty().lemma_flatten_push(seq![flag@, root@]);
                s1.lemma_flatten_push(seq![flag@, canonical@]);
                assert(s2 =~= seq![seq![flag@, root@], seq![flag@, canonical@]]);
                assert(f(x) =~= seq![flag@, root@, flag@, canonical@]);
            }
        }
        proof {
            let a = rv.subrange(0, i as int);
            let b = rv.subrange(0, i + 1);
            assert(b =~= a.push(x));
            assert(b.map_values(f) =~= a.map_values(f).push(f(x)));
            a.map_values(f).lemma_flatten_push(f(x));
            assert(strings_view(r@) =~= before + f(x));
        }
        i += 1;
    }
    assert(rv.subrange(0, rv.len() as int) =~= rv);
    push_text(&mut r, "--output");
    push_text(&mut r, output);
    r
}

} // verus!
