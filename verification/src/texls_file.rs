//! Planning texe's edit of the project's `tex-ls.toml`: the file is read
//! and edited in place (its comments and layout kept) by toml_edit; which
//! exclusions and build settings are written, which are conflicts, and what
//! the ownership ledger records are decided here with
//! [`exclusion_edit`](crate::texls::exclusion_edit) and [`key_step`].
use vstd::prelude::*;
use crate::config::ProjectManifest;
use crate::engine::file_stem;
use crate::error::TexeError;
use crate::setup::strings_view;
use crate::texls::{
    exclusion_edit, key_step, key_step_of, kept_exclusions, language_server_settings,
    language_server_settings_of, new_exclusions, desired_exclusions, updated_exclusions, KeyStep, TomlSlot,
};
use crate::text::{chars_of, eq_str};
use toml_edit::{DocumentMut, Item, Value};

verus! {

/// toml_edit's parse error message for a text, or `None` where it parses.
pub uninterp spec fn toml_problem(text: Seq<char>) -> Option<Seq<char>>;

/// `text.parse::<toml_edit::DocumentMut>()`: the error's message, or `None`
/// where the text is a TOML document. Depends on the text alone.
#[verifier::external_body]
fn parse_problem(text: &str) -> (r: Option<String>)
    ensures
        match r {
            Some(m) => toml_problem(text@) == Some(m@),
            None => toml_problem(text@) is None,
        },
{
    text.parse::<DocumentMut>().err().map(|e| e.to_string())
}

/// The `extend-exclude` array of a document: `None` where the text does not
/// parse or the key holds anything but an array of strings; `Some(None)`
/// where it is absent.
pub uninterp spec fn toml_exclusions(text: Seq<char>) -> Option<Option<Seq<Seq<char>>>>;

/// The document's `extend-exclude` item read with toml_edit
/// (`as_array`, each element's `as_str`). Depends on the text alone.
#[verifier::external_body]
fn exclusions_in(text: &str) -> (r: Option<Option<Vec<String>>>)
    ensures
        match r {
            Some(Some(v)) => toml_exclusions(text@) == Some(Some(strings_view(v@))),
            Some(None) => toml_exclusions(text@) == Some(None::<Seq<Seq<char>>>),
            None => toml_exclusions(text@) is None,
        },
{
    let d = text.parse::<DocumentMut>().ok()?;
    match d.get("extend-exclude") {
        None => Some(None),
        Some(item) => item.as_array()?.iter().map(|v| v.as_str().map(String::from)).collect::<Option<Vec<_>>>().map(Some),
    }
}

/// The text with the `extend-exclude` array (made where absent) keeping
/// the elements `keep` marks and then the patterns of `push` appended.
pub uninterp spec fn toml_with_exclusions(text: Seq<char>, keep: Seq<bool>, push: Seq<Seq<char>>) -> Option<Seq<char>>;

/// toml_edit: `extend-exclude` inserted as an empty array where absent,
/// the elements not kept removed (`Array::remove`) from the last down, the
/// patterns appended (`Array::push`), and the document written back out;
/// `None` where the text does not parse or the key is not an array.
/// Depends on the arguments alone.
#[verifier::external_body]
fn with_exclusions(text: &str, keep: &Vec<bool>, push: &Vec<String>) -> (r: Option<String>)
    ensures
        match r {
            Some(t) => toml_with_exclusions(text@, keep@, strings_view(push@)) == Some(t@),
            None => toml_with_exclusions(text@, keep@, strings_view(push@)) is None,
        },
{
    let mut d = text.parse::<DocumentMut>().ok()?;
    let array = d.entry("extend-exclude").or_insert(toml_edit::value(toml_edit::Array::new())).as_array_mut()?;
    for i in (0..keep.len().min(array.len())).rev().filter(|&i| !keep[i]) {
        array.remove(i);
    }
    push.iter().for_each(|p| array.push(p.as_str()));
    Some(d.to_string())
}

/// What the `build` table holds under `key`, with the item as TOML text
/// where there is one; `None` where the text does not parse or `build` is
/// not a table.
pub uninterp spec fn toml_build_slot(text: Seq<char>, key: Seq<char>) -> Option<(TomlSlot, Option<Seq<char>>)>;

/// toml_edit: the `build` item (`as_table_like`, absent counting as empty),
/// its `key` item classified by `as_str`, `is_value`, and written out with
/// `to_string`. Depends on the arguments alone.
#[verifier::external_body]
fn build_slot(text: &str, key: &str) -> (r: Option<(TomlSlot, Option<String>)>)
    ensures
        match r {
            Some((slot, item)) => toml_build_slot(text@, key@) == Some((slot, crate::trace::opt_string_view(item))),
            None => toml_build_slot(text@, key@) is None,
        },
{
    let d = text.parse::<DocumentMut>().ok()?;
    let item = match d.get("build") { None => None, Some(b) => b.as_table_like()?.get(key) };
    Some(match item {
        None => (TomlSlot::Absent, None),
        Some(i) => (match (i.as_str(), i.is_value()) { (Some(s), _) => TomlSlot::Text(s.to_string()), (None, true) => TomlSlot::OtherValue, (None, false) => TomlSlot::NotAValue }, Some(i.to_string())),
    })
}

/// The text with `build.key` set to the string `value`, keeping the old
/// value's decoration (its comments and spacing).
pub uninterp spec fn toml_with_build_value(text: Seq<char>, key: Seq<char>, value: Seq<char>) -> Option<Seq<char>>;

/// toml_edit: `build` inserted as a table where absent, the new value given
/// the old value's `decor`, `insert`ed, and the document written back out;
/// `None` where the text does not parse or `build` is not a table. Depends
/// on the arguments alone.
#[verifier::external_body]
fn with_build_value(text: &str, key: &str, value: &str) -> (r: Option<String>)
    ensures
        match r {
            Some(t) => toml_with_build_value(text@, key@, value@) == Some(t@),
            None => toml_with_build_value(text@, key@, value@) is None,
        },
{
    let mut d = text.parse::<DocumentMut>().ok()?;
    let build = d.entry("build").or_insert(toml_edit::table()).as_table_like_mut()?;
    let mut v = Value::from(value);
    if let Some(old) = build.get(key).and_then(Item::as_value) {
        *v.decor_mut() = old.decor().clone();
    }
    build.insert(key, Item::Value(v));
    Some(d.to_string())
}

/// What the ledger records of one build setting texe wrote: its key, the
/// item there before (TOML text), and the value texe wrote.
#[derive(Debug, Clone)]
pub struct KeyEdit {
    pub key: String,
    pub before: Option<String>,
    pub after: String,
}

pub open spec fn key_edits_view(v: Seq<KeyEdit>) -> Seq<(Seq<char>, Option<Seq<char>>, Seq<char>)> {
    v.map_values(|e: KeyEdit| (e.key@, crate::trace::opt_string_view(e.before), e.after@))
}

/// What texe's edit of `tex-ls.toml` comes to: the text, the conflicts, the
/// exclusions texe owns, and the ledger of build settings.
#[derive(Debug, Clone)]
pub struct TexlsPlan {
    pub text: String,
    pub conflicts: Vec<String>,
    pub exclusions: Vec<String>,
    pub edits: Vec<KeyEdit>,
}

pub type KeyPlanView = (Seq<char>, Seq<Seq<char>>, Seq<(Seq<char>, Option<Seq<char>>, Seq<char>)>);

/// The ledger entry for `key`, from `i` on.
pub open spec fn key_edit_index(edits: Seq<(Seq<char>, Option<Seq<char>>, Seq<char>)>, key: Seq<char>, i: int) -> Option<int>
    decreases edits.len() - i,
{
    if i < 0 || i >= edits.len() {
        None
    } else if edits[i].0 == key {
        Some(i)
    } else {
        key_edit_index(edits, key, i + 1)
    }
}

/// How a conflicting build setting is named.
pub open spec fn key_conflict_name(key: Seq<char>) -> Seq<char> {
    "tex-ls.toml / build / "@ + key
}

/// One build setting: decided by [`key_step_of`] on what the text holds
/// under it and what texe wrote there last; a write edits the text, names a
/// conflict where it replaces a value texe did not write, and records the
/// key (with the item it replaces) or updates its ledger entry.
pub open spec fn key_plan_step(setting: (Seq<char>, Seq<char>), acc: KeyPlanView) -> Result<KeyPlanView, Seq<char>> {
    let (key, after) = setting;
    let (text, conflicts, edits) = acc;
    match toml_build_slot(text, key) {
        None => Err("tex-ls.toml build must be a table"@),
        Some((slot, item)) => {
            let owned = match key_edit_index(edits, key, 0) {
                Some(i) => Some(edits[i].2),
                None => None,
            };
            match key_step_of(key, slot, owned, after) {
                Err(m) => Err(m),
                Ok(KeyStep::Keep) => Ok(acc),
                Ok(KeyStep::Write { conflict }) => match toml_with_build_value(text, key, after) {
                    None => Err("tex-ls.toml build must be a table"@),
                    Some(t) => Ok(
                        (
                            t,
                            if conflict {
                                conflicts.push(key_conflict_name(key))
                            } else {
                                conflicts
                            },
                            match key_edit_index(edits, key, 0) {
                                Some(i) => edits.update(i, (edits[i].0, edits[i].1, after)),
                                None => edits.push((key, item, after)),
                            },
                        ),
                    ),
                },
            }
        },
    }
}

pub open spec fn key_plan_from(settings: Seq<(Seq<char>, Seq<char>)>, start: KeyPlanView, n: int) -> Result<KeyPlanView, Seq<char>>
    decreases n,
{
    if n <= 0 || n > settings.len() {
        Ok(start)
    } else {
        match key_plan_from(settings, start, n - 1) {
            Err(m) => Err(m),
            Ok(acc) => key_plan_step(settings[n - 1], acc),
        }
    }
}

pub proof fn lemma_key_plan_error_stays(settings: Seq<(Seq<char>, Seq<char>)>, start: KeyPlanView, i: int, n: int)
    requires
        0 <= i <= n <= settings.len(),
        key_plan_from(settings, start, i) is Err,
    ensures
        key_plan_from(settings, start, n) == key_plan_from(settings, start, i),
    decreases n - i,
{
    if i < n {
        lemma_key_plan_error_stays(settings, start, i, n - 1);
    }
}

/// texe's edit of `tex-ls.toml` (`original`, where there is one; else an
/// empty document): refused where it does not parse or `extend-exclude` is
/// not an array of strings; otherwise the exclusions updated in place, then
/// each build setting of
/// [`language_server_settings_of`](crate::texls::language_server_settings_of).
pub open spec fn texls_plan_of(
    original: Option<Seq<char>>,
    owned: Seq<Seq<char>>,
    edits: Seq<(Seq<char>, Option<Seq<char>>, Seq<char>)>,
    m: ProjectManifest,
) -> Result<(Seq<char>, Seq<Seq<char>>, Seq<Seq<char>>, Seq<(Seq<char>, Option<Seq<char>>, Seq<char>)>), Seq<char>> {
    let text = match original {
        Some(t) => t,
        None => ""@,
    };
    match toml_problem(text) {
        Some(e) => Err("invalid tex-ls.toml: "@ + e),
        None => match toml_exclusions(text) {
            None => Err("tex-ls.toml extend-exclude must be an array of strings"@),
            Some(found) => {
                let current = match found {
                    Some(v) => v,
                    None => Seq::empty(),
                };
                let desired = desired_exclusions(m);
                let keep = Seq::new(current.len(), |i: int| !(owned.contains(current[i]) && !desired.contains(current[i])));
                let added = new_exclusions(kept_exclusions(current, owned, desired), desired);
                match toml_with_exclusions(text, keep, added) {
                    None => Err("tex-ls.toml extend-exclude must be an array of strings"@),
                    Some(t) => {
                        let settings = language_server_settings_of(m);
                        match key_plan_from(settings, (t, Seq::empty(), edits), settings.len() as int) {
                            Err(e) => Err(e),
                            Ok((t2, conflicts, ledger)) => Ok((t2, conflicts, updated_exclusions(current, owned, m).1, ledger)),
                        }
                    },
                }
            },
        },
    }
}

fn find_key_edit(edits: &Vec<KeyEdit>, key: &str) -> (r: Option<usize>)
    ensures
        match key_edit_index(key_edits_view(edits@), key@, 0) {
            Some(i) => r matches Some(k) && k == i && 0 <= i < edits@.len(),
            None => r is None,
        },
{
    let ghost ev = key_edits_view(edits@);
    let mut i: usize = 0;
    while i < edits.len()
        invariant
            i <= edits.len(),
            ev == key_edits_view(edits@),
            key_edit_index(ev, key@, 0) == key_edit_index(ev, key@, i as int),
        decreases edits.len() - i,
    {
        assert(ev[i as int].0 == edits@[i as int].key@);
        if eq_str(&chars_of(edits[i].key.as_str()), key) {
            return Some(i);
        }
        i += 1;
    }
    None
}

/// Plans texe's edit of the project's `tex-ls.toml`: see [`texls_plan_of`].
/// `original` is the file where it exists, `owned` the exclusions and
/// `edits` the build settings the ledger records.
pub fn plan_texls(original: Option<&str>, owned: &Vec<String>, edits: Vec<KeyEdit>, manifest: &ProjectManifest) -> (r: Result<TexlsPlan, TexeError>)
    requires
        file_stem(manifest.project.entry@) is Some,
    ensures
        match texls_plan_of(
            match original {
                Some(t) => Some(t@),
                None => None,
            },
            strings_view(owned@),
            key_edits_view(edits@),
            *manifest,
        ) {
            Ok((text, conflicts, exclusions, ledger)) => r matches Ok(p) && p.text@ == text && strings_view(p.conflicts@)
                == conflicts && strings_view(p.exclusions@) == exclusions && key_edits_view(p.edits@) == ledger,
            Err(m) => r matches Err(TexeError::Build(e)) && e@ == m,
        },
{
    let base: &str = match original {
        Some(t) => t,
        None => "",
    };
    proof {
        reveal_strlit("");
    }
    match parse_problem(base) {
        Some(e) => {
            let mut m = String::from_str("invalid tex-ls.toml: ");
            m.append(e.as_str());
            return Err(TexeError::Build(m));
        },
        None => {},
    }
    let current: Vec<String> = match exclusions_in(base) {
        None => return Err(TexeError::Build(String::from_str("tex-ls.toml extend-exclude must be an array of strings"))),
        Some(Some(v)) => v,
        Some(None) => {
            let v: Vec<String> = Vec::new();
            assert(strings_view(v@) =~= Seq::<Seq<char>>::empty());
            v
        },
    };
    let (keep, added, new_owned) = exclusion_edit(&current, owned, manifest);
    proof {
        let cv = strings_view(current@);
        let ov = strings_view(owned@);
        let dv = desired_exclusions(*manifest);
        assert(keep@ =~= Seq::new(cv.len(), |i: int| !(ov.contains(cv[i]) && !dv.contains(cv[i]))));
    }
    let t1 = match with_exclusions(base, &keep, &added) {
        None => return Err(TexeError::Build(String::from_str("tex-ls.toml extend-exclude must be an array of strings"))),
        Some(t) => t,
    };
    let settings = language_server_settings(manifest);
    let ghost sv = crate::order::pairs_view(settings@);
    let ghost start: KeyPlanView = (t1@, Seq::empty(), key_edits_view(edits@));
    let ghost whole = texls_plan_of(
        match original {
            Some(t) => Some(t@),
            None => None,
        },
        strings_view(owned@),
        key_edits_view(edits@),
        *manifest,
    );
    let ghost tail = match key_plan_from(sv, start, sv.len() as int) {
        Err(e) => Err(e),
        Ok((t2, c, l)) => Ok((t2, c, strings_view(new_owned@), l)),
    };
    assert(whole == tail);
    let mut text = t1;
    let mut conflicts: Vec<String> = Vec::new();
    assert(strings_view(conflicts@) =~= Seq::<Seq<char>>::empty());
    let mut ledger = edits;
    let mut i: usize = 0;
    while i < settings.len()
        invariant
            i <= settings.len(),
            sv == crate::order::pairs_view(settings@),
            sv == language_server_settings_of(*manifest),
            key_plan_from(sv, start, i as int) == Ok::<KeyPlanView, Seq<char>>((text@, strings_view(conflicts@), key_edits_view(ledger@))),
            whole == tail,
            tail == match key_plan_from(sv, start, sv.len() as int) {
                Err(e) => Err(e),
                Ok((t2, c, l)) => Ok((t2, c, strings_view(new_owned@), l)),
            },
            whole == texls_plan_of(
                match original {
                    Some(t) => Some(t@),
                    None => None,
                },
                strings_view(owned@),
                key_edits_view(edits@),
                *manifest,
            ),
        decreases settings.len() - i,
    {
        let key = settings[i].0.as_str();
        let after = settings[i].1.as_str();
        proof {
            assert(sv[i as int] == (settings@[i as int].0@, settings@[i as int].1@));
        }
        let (slot, item) = match build_slot(text.as_str(), key) {
            None => {
                proof {
                    lemma_key_plan_error_stays(sv, start, i + 1, sv.len() as int);
                }
                return Err(TexeError::Build(String::from_str("tex-ls.toml build must be a table")));
            },
            Some(x) => x,
        };
        let found = find_key_edit(&ledger, key);
        let owned_after: Option<String> = match found {
            Some(k) => Some(ledger[k].after.clone()),
            None => None,
        };
        proof {
            if let Some(k) = found {
                assert(key_edits_view(ledger@)[k as int].2 == ledger@[k as int].after@);
            }
        }
        let step = match key_step(key, &slot, &owned_after, after) {
            Ok(s) => s,
            Err(e) => {
                proof {
                    lemma_key_plan_error_stays(sv, start, i + 1, sv.len() as int);
                }
                return Err(e);
            },
        };
        match step {
            KeyStep::Keep => {},
            KeyStep::Write { conflict } => {
                text = match with_build_value(text.as_str(), key, after) {
                    Some(t) => t,
                    None => {
                        proof {
                            lemma_key_plan_error_stays(sv, start, i + 1, sv.len() as int);
                        }
                        return Err(TexeError::Build(String::from_str("tex-ls.toml build must be a table")));
                    },
                };
                if conflict {
                    let ghost c0 = strings_view(conflicts@);
                    let mut label = String::from_str("tex-ls.toml / build / ");
                    label.append(key);
                    conflicts.push(label);
                    assert(strings_view(conflicts@) =~= c0.push(key_conflict_name(key@)));
                }
                let ghost e0 = key_edits_view(ledger@);
                match found {
                    Some(k) => {
                        let edit = KeyEdit { key: ledger[k].key.clone(), before: ledger[k].before.clone(), after: String::from_str(after) };
                        ledger.set(k, edit);
                        assert(key_edits_view(ledger@) =~= e0.update(k as int, (e0[k as int].0, e0[k as int].1, after@)));
                    },
                    None => {
                        ledger.push(KeyEdit { key: String::from_str(key), before: item, after: String::from_str(after) });
                        assert(key_edits_view(ledger@) =~= e0.push((key@, crate::trace::opt_string_view(item), after@)));
                    },
                }
            },
        }
        i += 1;
    }
    Ok(TexlsPlan { text, conflicts, exclusions: new_owned, edits: ledger })
}

} // verus!
