//! The project's `tex-ls.toml`, which points the TeX language server at
//! texe's entry, output and job name and keeps texe's generated trees out
//! of its workspace scan. texe owns only what it wrote: user patterns and
//! values stay, and a value the user changed since is a conflict.
use vstd::prelude::*;
use crate::config::ProjectManifest;
use crate::engine::file_stem;
use crate::error::TexeError;
use crate::integrations::{slash_path, slash_text};
use crate::setup::{join_path, join_path_of, strings_view};
use crate::text::{chars_of, eq_str, push_char};

verus! {

/// The characters a `.gitignore`-style glob gives a meaning.
pub open spec fn glob_special(c: char) -> bool {
    c == '*' || c == '?' || c == '[' || c == ']' || c == '!' || c == '#' || c == '\\'
}

/// Each special character behind a backslash.
pub open spec fn escaped_glob(s: Seq<char>) -> Seq<char>
    decreases s.len(),
{
    if s.len() == 0 {
        Seq::empty()
    } else {
        escaped_glob(s.drop_last()) + if glob_special(s.last()) {
            seq!['\\', s.last()]
        } else {
            seq![s.last()]
        }
    }
}

/// The pattern that keeps a project directory out of the scan.
pub open spec fn exclusion_pattern(path: Seq<char>) -> Seq<char> {
    seq!['/'] + escaped_glob(slash_text(path)) + seq!['/']
}

fn exclusion_pattern_of(path: &str) -> (r: String)
    ensures
        r@ == exclusion_pattern(path@),
{
    let s = chars_of(slash_path(path).as_str());
    let mut r = String::new();
    push_char(&mut r, '/');
    let mut i: usize = 0;
    while i < s.len()
        invariant
            i <= s.len(),
            r@ == seq!['/'] + escaped_glob(s@.subrange(0, i as int)),
        decreases s.len() - i,
    {
        let c = s[i];
        if c == '*' || c == '?' || c == '[' || c == ']' || c == '!' || c == '#' || c == '\\' {
            push_char(&mut r, '\\');
        }
        push_char(&mut r, c);
        proof {
            let t = s@.subrange(0, i + 1);
            assert(t.drop_last() =~= s@.subrange(0, i as int));
            assert(t.last() == c);
        }
        i += 1;
    }
    assert(s@.subrange(0, s@.len() as int) =~= s@);
    push_char(&mut r, '/');
    r
}

/// The patterns texe wants: the build directory and the package tree,
/// once each.
pub open spec fn desired_exclusions(m: ProjectManifest) -> Seq<Seq<char>> {
    let a = exclusion_pattern(m.project.build_dir@);
    let b = exclusion_pattern(m.packages.texmf@);
    if a == b {
        seq![a]
    } else {
        seq![a, b]
    }
}

/// The user's and texe's patterns that stay: all but those texe owns and no
/// longer wants.
pub open spec fn kept_exclusions(current: Seq<Seq<char>>, owned: Seq<Seq<char>>, desired: Seq<Seq<char>>) -> Seq<Seq<char>> {
    current.filter(|v: Seq<char>| !(owned.contains(v) && !desired.contains(v)))
}

/// The wanted patterns not yet there.
pub open spec fn new_exclusions(kept: Seq<Seq<char>>, desired: Seq<Seq<char>>) -> Seq<Seq<char>> {
    desired.filter(|p: Seq<char>| !kept.contains(p))
}

/// The updated `extend-exclude` array and the patterns texe owns after.
pub open spec fn updated_exclusions(current: Seq<Seq<char>>, owned: Seq<Seq<char>>, m: ProjectManifest) -> (Seq<Seq<char>>, Seq<Seq<char>>) {
    let desired = desired_exclusions(m);
    let kept = kept_exclusions(current, owned, desired);
    let still_owned = owned.filter(|p: Seq<char>| desired.contains(p));
    let added = new_exclusions(kept, desired);
    (kept + added, still_owned + added.filter(|p: Seq<char>| !still_owned.contains(p)))
}

fn contains_text(v: &Vec<String>, s: &String) -> (r: bool)
    ensures
        r == strings_view(v@).contains(s@),
{
    let mut i: usize = 0;
    while i < v.len()
        invariant
            i <= v.len(),
            forall|j: int| 0 <= j < i ==> strings_view(v@)[j] != s@,
        decreases v.len() - i,
    {
        assert(strings_view(v@)[i as int] == v@[i as int]@);
        if eq_str(&chars_of(v[i].as_str()), s.as_str()) {
            return true;
        }
        i += 1;
    }
    false
}

/// The elements of `v` for which `keep` says so, in order.
fn filter_texts(v: &Vec<String>, keep: &Vec<bool>) -> (r: Vec<String>)
    requires
        keep@.len() == v@.len(),
    ensures
        strings_view(r@) == filtered(strings_view(v@), keep@, v@.len() as int),
{
    let mut r: Vec<String> = Vec::new();
    let mut i: usize = 0;
    while i < v.len()
        invariant
            i <= v.len(),
            keep@.len() == v@.len(),
            strings_view(r@) == filtered(strings_view(v@), keep@, i as int),
        decreases v.len() - i,
    {
        if keep[i] {
            let ghost before = strings_view(r@);
            r.push(String::from_str(v[i].as_str()));
            assert(strings_view(r@) =~= before.push(v@[i as int]@));
        }
        i += 1;
    }
    r
}

pub open spec fn filtered(s: Seq<Seq<char>>, keep: Seq<bool>, n: int) -> Seq<Seq<char>>
    decreases n,
{
    if n <= 0 {
        Seq::empty()
    } else if keep[n - 1] {
        filtered(s, keep, n - 1).push(s[n - 1])
    } else {
        filtered(s, keep, n - 1)
    }
}

proof fn lemma_filtered(s: Seq<Seq<char>>, keep: Seq<bool>, pred: spec_fn(Seq<char>) -> bool, n: int)
    requires
        keep.len() == s.len(),
        0 <= n <= s.len(),
        forall|i: int| 0 <= i < s.len() ==> keep[i] == pred(#[trigger] s[i]),
    ensures
        filtered(s, keep, n) == s.subrange(0, n).filter(pred),
    decreases n,
{
    reveal(Seq::filter);
    if n > 0 {
        lemma_filtered(s, keep, pred, n - 1);
        assert(s.subrange(0, n).drop_last() =~= s.subrange(0, n - 1));
        assert(s.subrange(0, n).last() == s[n - 1]);
    } else {
        assert(s.subrange(0, 0) =~= Seq::<Seq<char>>::empty());
    }
}

fn keep_flags(v: &Vec<String>, a: &Vec<String>, b: &Vec<String>, in_a: bool, in_b: bool) -> (r: Vec<bool>)
    ensures
        r@.len() == v@.len(),
        forall|i: int|
            0 <= i < v@.len() ==> #[trigger] r@[i] == ((strings_view(a@).contains(strings_view(v@)[i]) == in_a)
                && (strings_view(b@).contains(strings_view(v@)[i]) == in_b)),
{
    let mut r: Vec<bool> = Vec::new();
    let mut i: usize = 0;
    while i < v.len()
        invariant
            i <= v.len(),
            r@.len() == i,
            forall|j: int|
                0 <= j < i ==> #[trigger] r@[j] == ((strings_view(a@).contains(strings_view(v@)[j]) == in_a) && (strings_view(
                    b@,
                ).contains(strings_view(v@)[j]) == in_b)),
        decreases v.len() - i,
    {
        assert(strings_view(v@)[i as int] == v@[i as int]@);
        let x = contains_text(a, &v[i]) == in_a && contains_text(b, &v[i]) == in_b;
        r.push(x);
        i += 1;
    }
    r
}

fn desired_exclusions_of(manifest: &ProjectManifest) -> (r: Vec<String>)
    ensures
        strings_view(r@) == desired_exclusions(*manifest),
{
    let a = exclusion_pattern_of(manifest.project.build_dir.as_str());
    let b = exclusion_pattern_of(manifest.packages.texmf.as_str());
    let same = eq_str(&chars_of(a.as_str()), b.as_str());
    let mut r: Vec<String> = Vec::new();
    r.push(a);
    if !same {
        r.push(b);
    }
    assert(strings_view(r@) =~= desired_exclusions(*manifest));
    r
}

/// What texe's update does to the `extend-exclude` array in place: which
/// of the current patterns stay (`keep[i]` for pattern `i`; the others are
/// removed, user patterns keeping their decoration), the patterns appended
/// after them, and the patterns texe owns after.
pub fn exclusion_edit(current: &Vec<String>, owned: &Vec<String>, manifest: &ProjectManifest) -> (r: (Vec<bool>, Vec<String>, Vec<String>))
    ensures
        r.0@.len() == current@.len(),
        forall|i: int|
            0 <= i < current@.len() ==> #[trigger] r.0@[i] == !(strings_view(owned@).contains(current@[i]@)
                && !desired_exclusions(*manifest).contains(current@[i]@)),
        strings_view(r.1@) == new_exclusions(
            kept_exclusions(strings_view(current@), strings_view(owned@), desired_exclusions(*manifest)),
            desired_exclusions(*manifest),
        ),
        strings_view(r.2@) == updated_exclusions(strings_view(current@), strings_view(owned@), *manifest).1,
{
    let ghost cv = strings_view(current@);
    let ghost ov = strings_view(owned@);
    let desired = desired_exclusions_of(manifest);
    let ghost dv = strings_view(desired@);
    let empty: Vec<String> = Vec::new();
    let drop = keep_flags(current, owned, &desired, true, false);
    let mut keep: Vec<bool> = Vec::new();
    let mut i: usize = 0;
    while i < drop.len()
        invariant
            i <= drop.len(),
            drop@.len() == current@.len(),
            keep@.len() == i,
            forall|j: int| 0 <= j < i ==> #[trigger] keep@[j] == !drop@[j],
        decreases drop.len() - i,
    {
        keep.push(!drop[i]);
        i += 1;
    }
    proof {
        assert forall|j: int| 0 <= j < current@.len() implies #[trigger] keep@[j] == !(ov.contains(current@[j]@) && !dv.contains(current@[j]@)) by {
            assert(cv[j] == current@[j]@);
            assert(drop@[j] == ((ov.contains(cv[j]) == true) && (dv.contains(cv[j]) == false)));
        }
    }
    let kept = filter_texts(current, &keep);
    let ghost kept_pred = |v: Seq<char>| !(ov.contains(v) && !dv.contains(v));
    proof {
        assert forall|j: int| 0 <= j < cv.len() implies keep@[j] == kept_pred(#[trigger] cv[j]) by {
            assert(cv[j] == current@[j]@);
        }
        lemma_filtered(cv, keep@, kept_pred, cv.len() as int);
        assert(cv.subrange(0, cv.len() as int) =~= cv);
    }
    let ghost kv = strings_view(kept@);
    let added_flags = keep_flags(&desired, &kept, &empty, false, false);
    let added = filter_texts(&desired, &added_flags);
    let ghost added_pred = |p: Seq<char>| !kv.contains(p);
    proof {
        assert(strings_view(empty@) =~= Seq::<Seq<char>>::empty());
        assert forall|j: int| 0 <= j < dv.len() implies added_flags@[j] == added_pred(#[trigger] dv[j]) by {}
        lemma_filtered(dv, added_flags@, added_pred, dv.len() as int);
        assert(dv.subrange(0, dv.len() as int) =~= dv);
    }
    let (_, new_owned) = update_exclusions(current, owned, manifest);
    (keep, added, new_owned)
}

/// The `extend-exclude` patterns after texe's update, and the patterns
/// texe owns after it: patterns texe owns but no longer wants leave, the
/// user's stay, and each wanted pattern that is missing is added and owned.
pub fn update_exclusions(current: &Vec<String>, owned: &Vec<String>, manifest: &ProjectManifest) -> (r: (Vec<String>, Vec<String>))
    ensures
        (strings_view(r.0@), strings_view(r.1@)) == updated_exclusions(strings_view(current@), strings_view(owned@), *manifest),
{
    let ghost cv = strings_view(current@);
    let ghost ov = strings_view(owned@);
    let desired = desired_exclusions_of(manifest);
    let ghost dv = strings_view(desired@);
    let empty: Vec<String> = Vec::new();
    let drop = keep_flags(current, owned, &desired, true, false);
    let mut keep_current: Vec<bool> = Vec::new();
    let mut i: usize = 0;
    while i < drop.len()
        invariant
            i <= drop.len(),
            keep_current@.len() == i,
            forall|j: int| 0 <= j < i ==> #[trigger] keep_current@[j] == !drop@[j],
        decreases drop.len() - i,
    {
        keep_current.push(!drop[i]);
        i += 1;
    }
    let kept = filter_texts(current, &keep_current);
    let ghost kept_pred = |v: Seq<char>| !(ov.contains(v) && !dv.contains(v));
    proof {
        assert forall|j: int| 0 <= j < cv.len() implies keep_current@[j] == kept_pred(#[trigger] cv[j]) by {
            assert(drop@[j] == ((ov.contains(cv[j]) == true) && (strings_view(desired@).contains(cv[j]) == false)));
        }
        lemma_filtered(cv, keep_current@, kept_pred, cv.len() as int);
        assert(cv.subrange(0, cv.len() as int) =~= cv);
    }
    let ghost kv = strings_view(kept@);
    let owned_flags = keep_flags(owned, &desired, &empty, true, false);
    let still = filter_texts(owned, &owned_flags);
    let ghost owned_pred = |p: Seq<char>| dv.contains(p);
    proof {
        assert(strings_view(empty@) =~= Seq::<Seq<char>>::empty());
        assert forall|j: int| 0 <= j < ov.len() implies owned_flags@[j] == owned_pred(#[trigger] ov[j]) by {}
        lemma_filtered(ov, owned_flags@, owned_pred, ov.len() as int);
        assert(ov.subrange(0, ov.len() as int) =~= ov);
    }
    let ghost sv = strings_view(still@);
    let added_flags = keep_flags(&desired, &kept, &empty, false, false);
    let added = filter_texts(&desired, &added_flags);
    let ghost added_pred = |p: Seq<char>| !kv.contains(p);
    proof {
        assert forall|j: int| 0 <= j < dv.len() implies added_flags@[j] == added_pred(#[trigger] dv[j]) by {}
        lemma_filtered(dv, added_flags@, added_pred, dv.len() as int);
        assert(dv.subrange(0, dv.len() as int) =~= dv);
    }
    let ghost av = strings_view(added@);
    let new_owned_flags = keep_flags(&added, &still, &empty, false, false);
    let new_owned = filter_texts(&added, &new_owned_flags);
    let ghost new_pred = |p: Seq<char>| !sv.contains(p);
    proof {
        assert forall|j: int| 0 <= j < av.len() implies new_owned_flags@[j] == new_pred(#[trigger] av[j]) by {}
        lemma_filtered(av, new_owned_flags@, new_pred, av.len() as int);
        assert(av.subrange(0, av.len() as int) =~= av);
    }
    let mut array = kept;
    let mut k: usize = 0;
    while k < added.len()
        invariant
            k <= added.len(),
            strings_view(array@) == kv + av.subrange(0, k as int),
            av == strings_view(added@),
        decreases added.len() - k,
    {
        let ghost before = strings_view(array@);
        array.push(String::from_str(added[k].as_str()));
        assert(strings_view(array@) =~= before.push(av[k as int]));
        assert(av.subrange(0, k + 1) =~= av.subrange(0, k as int).push(av[k as int]));
        k += 1;
    }
    assert(av.subrange(0, av.len() as int) =~= av);
    let mut owned_after = still;
    let ghost nv = strings_view(new_owned@);
    let mut q: usize = 0;
    while q < new_owned.len()
        invariant
            q <= new_owned.len(),
            strings_view(owned_after@) == sv + nv.subrange(0, q as int),
            nv == strings_view(new_owned@),
        decreases new_owned.len() - q,
    {
        let ghost before = strings_view(owned_after@);
        owned_after.push(String::from_str(new_owned[q].as_str()));
        assert(strings_view(owned_after@) =~= before.push(nv[q as int]));
        assert(nv.subrange(0, q + 1) =~= nv.subrange(0, q as int).push(nv[q as int]));
        q += 1;
    }
    assert(nv.subrange(0, nv.len() as int) =~= nv);
    (array, owned_after)
}

/// The build settings texe writes for the language server: the entry, the
/// engine's output directory, the PDF at the project root, and the job
/// name.
pub open spec fn language_server_settings_of(m: ProjectManifest) -> Seq<(Seq<char>, Seq<char>)> {
    seq![
        ("root"@, slash_text(m.project.entry@)),
        ("aux-dir"@, slash_text(join_path(m.project.build_dir@, "output"@))),
        ("pdf-dir"@, "."@),
        ("job-name"@, file_stem(m.project.entry@)->0),
    ]
}

pub fn language_server_settings(manifest: &ProjectManifest) -> (r: Vec<(String, String)>)
    requires
        file_stem(manifest.project.entry@) is Some,
    ensures
        crate::order::pairs_view(r@) == language_server_settings_of(*manifest),
{
    let stem = match crate::bibliography::file_stem_of(manifest.project.entry.as_str()) {
        Some(s) => s,
        None => Vec::new(),
    };
    let mut r: Vec<(String, String)> = Vec::new();
    crate::environment::push_pair(&mut r, "root", slash_path(manifest.project.entry.as_str()));
    crate::environment::push_pair(
        &mut r,
        "aux-dir",
        slash_path(join_path_of(manifest.project.build_dir.as_str(), "output").as_str()),
    );
    crate::environment::push_pair(&mut r, "pdf-dir", String::from_str("."));
    crate::environment::push_pair(&mut r, "job-name", crate::text::owned(&stem));
    assert(crate::order::pairs_view(r@) =~= language_server_settings_of(*manifest));
    r
}

/// What `tex-ls.toml`'s build table holds under a key.
#[derive(Debug, Clone)]
pub enum TomlSlot {
    Absent,
    /// A string.
    Text(String),
    /// A value of another type.
    OtherValue,
    /// A table or an array of tables, where a value belongs.
    NotAValue,
}

/// What to do with one build setting.
#[derive(Debug, Clone, Copy, PartialEq, Eq, Structural)]
pub enum KeyStep {
    /// It already holds texe's value.
    Keep,
    /// Write texe's value; `conflict` where it replaces a value texe did not
    /// write.
    Write { conflict: bool },
}

pub open spec fn slot_text(s: TomlSlot) -> Option<Seq<char>> {
    match s {
        TomlSlot::Text(t) => Some(t@),
        _ => None,
    }
}

/// A present value is a conflict unless it is what texe wrote there.
pub open spec fn key_step_of(key: Seq<char>, slot: TomlSlot, owned_after: Option<Seq<char>>, after: Seq<char>) -> Result<KeyStep, Seq<char>> {
    if slot_text(slot) == Some(after) {
        Ok(KeyStep::Keep)
    } else if slot is NotAValue {
        Err("tex-ls.toml build."@ + key + " must be a value"@)
    } else {
        Ok(
            KeyStep::Write {
                conflict: !(slot is Absent) && match owned_after {
                    None => true,
                    Some(o) => slot_text(slot) != Some(o),
                },
            },
        )
    }
}

pub fn key_step(key: &str, slot: &TomlSlot, owned_after: &Option<String>, after: &str) -> (r: Result<KeyStep, TexeError>)
    ensures
        match key_step_of(key@, *slot, crate::trace::opt_string_view(*owned_after), after@) {
            Ok(s) => r == Ok::<KeyStep, TexeError>(s),
            Err(m) => r matches Err(TexeError::Build(e)) && e@ == m,
        },
{
    let current: Option<&String> = match slot {
        TomlSlot::Text(t) => Some(t),
        _ => None,
    };
    if let Some(t) = current {
        if eq_str(&chars_of(t.as_str()), after) {
            return Ok(KeyStep::Keep);
        }
    }
    if let TomlSlot::NotAValue = slot {
        let mut m = String::from_str("tex-ls.toml build.");
        m.append(key);
        m.append(" must be a value");
        return Err(TexeError::Build(m));
    }
    let present = match slot {
        TomlSlot::Absent => false,
        _ => true,
    };
    let differs = match owned_after {
        None => true,
        Some(o) => match current {
            Some(t) => !eq_str(&chars_of(t.as_str()), o.as_str()),
            None => true,
        },
    };
    Ok(KeyStep::Write { conflict: present && differs })
}

/// How a conflicting build setting is named to the user.
pub open spec fn conflict_label(key: Seq<char>) -> Seq<char> {
    "tex-ls.toml / build / "@ + key
}

pub fn key_conflict_label(key: &str) -> (r: String)
    ensures
        r@ == conflict_label(key@),
{
    let mut m = String::from_str("tex-ls.toml / build / ");
    m.append(key);
    m
}

} // verus!
