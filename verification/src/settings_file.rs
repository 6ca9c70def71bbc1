//! Planning texe's edit of the project's `.vscode/settings.json`: the file
//! is JSON with comments, read and edited in place (its comments and layout
//! kept) by jsonc-parser; which settings are written, which are conflicts,
//! and what the ownership ledger records are decided here, setting by
//! setting, by [`leaf_step`].
use vstd::prelude::*;
use crate::editor::{desired_settings, leaf_view, settings_view, LeafView, SettingLeaf};
use crate::editor::SettingLeaf::{Flag, List, Text};
use jsonc_parser::cst::CstRootNode;
use jsonc_parser::ParseOptions;
use crate::error::TexeError;
use crate::settings::{conflict_label, conflict_name, leaf_step, leaf_step_of, LeafState, LeafStep};
use crate::setup::strings_view;
use crate::text::{chars_of, eq_str};

verus! {

/// What jsonc-parser finds at `path` in a settings text: a parse error's
/// message, nothing, or whether the value there is an object and the value
/// as compact JSON text.
pub uninterp spec fn jsonc_value_at(text: Seq<char>, path: Seq<Seq<char>>) -> Result<Option<(bool, Seq<char>)>, Seq<char>>;

/// Parses `text` as JSON with comments and trailing commas (no other
/// extension) with `CstRootNode::parse`, converts the
/// value to `serde_json`, and looks `path` up with `Value::pointer`: the
/// parse error's message; `None` where the text holds no value or nothing
/// is at `path`; else whether it is an object, and `Value::to_string`.
/// The answer depends on the text and the path alone.
#[verifier::external_body]
pub(crate) fn value_at(text: &str, path: &Vec<String>) -> (r: Result<Option<(bool, String)>, String>)
    ensures
        match r {
            Ok(Some((object, json))) => jsonc_value_at(text@, strings_view(path@)) == Ok::<Option<(bool, Seq<char>)>, Seq<char>>(Some((object, json@))),
            Ok(None) => jsonc_value_at(text@, strings_view(path@)) == Ok::<Option<(bool, Seq<char>)>, Seq<char>>(None),
            Err(m) => jsonc_value_at(text@, strings_view(path@)) == Err::<Option<(bool, Seq<char>)>, Seq<char>>(m@),
        },
{
    let o = ParseOptions { allow_loose_object_property_names: false, allow_missing_commas: false, allow_single_quoted_strings: false, allow_hexadecimal_numbers: false, allow_unary_plus_numbers: false, allow_bare_decimal_point_numbers: false, allow_non_finite_numbers: false, allow_extended_string_escapes: false, ..Default::default() };
    let root = CstRootNode::parse(text, &o).map_err(|e| e.to_string())?;
    let pointer: String = path.iter().map(|k| format!("/{}", k.replace('~', "~0").replace('/', "~1"))).collect();
    Ok(root.to_serde_value().and_then(|v| v.pointer(&pointer).map(|f| (f.is_object(), f.to_string()))))
}

/// A setting value as compact JSON text.
pub uninterp spec fn leaf_json_text(leaf: LeafView) -> Seq<char>;

/// `serde_json::Value::to_string` of the setting value: a boolean, a
/// string, or an array of strings.
#[verifier::external_body]
fn leaf_json(leaf: &SettingLeaf) -> (r: String)
    ensures
        r@ == leaf_json_text(leaf_view(*leaf)),
{
    match leaf {
        Flag(b) => serde_json::Value::Bool(*b).to_string(),
        Text(s) => serde_json::Value::String(s.clone()).to_string(),
        List(v) => serde_json::Value::from(v.clone()).to_string(),
    }
}

/// The settings text with `path` set to `leaf`, edited in place.
pub uninterp spec fn jsonc_with_leaf(text: Seq<char>, path: Seq<Seq<char>>, leaf: LeafView) -> Option<Seq<char>>;

/// jsonc-parser's concrete syntax tree of `text`: each key of `path` but
/// the last made an object (`object_value_or_set`), then the last key's
/// property set to `leaf` where it exists (`set_value`) or appended
/// (`append`), and the tree written back out; `None` where the text does
/// not parse or is not an object. The result depends on the arguments
/// alone.
#[verifier::external_body]
pub(crate) fn with_leaf(text: &str, path: &Vec<String>, leaf: &SettingLeaf) -> (r: Option<String>)
    requires
        path@.len() > 0,
    ensures
        match r {
            Some(t) => jsonc_with_leaf(text@, strings_view(path@), leaf_view(*leaf)) == Some(t@),
            None => jsonc_with_leaf(text@, strings_view(path@), leaf_view(*leaf)) is None,
        },
{
    let root = CstRootNode::parse(text, &ParseOptions { allow_loose_object_property_names: false, allow_missing_commas: false, allow_single_quoted_strings: false, allow_hexadecimal_numbers: false, allow_unary_plus_numbers: false, allow_bare_decimal_point_numbers: false, allow_non_finite_numbers: false, allow_extended_string_escapes: false, ..Default::default() }).ok()?;
    let (last, keys) = path.split_last()?;
    let object = keys.iter().fold(root.object_value()?, |o, k| o.object_value_or_set(k));
    let value = match leaf { Flag(b) => (*b).into(), Text(s) => s.as_str().into(), List(v) => v.clone().into() };
    match object.get(last) { Some(p) => p.set_value(value), None => { object.append(last, value); } }
    Some(root.to_string())
}

/// What the ownership ledger records of one setting texe wrote: its path,
/// the value there before (compact JSON), whether there was one, and the
/// value texe wrote.
#[derive(Debug, Clone)]
pub struct LedgerEdit {
    pub path: Vec<String>,
    pub before: Option<String>,
    pub before_exists: bool,
    pub after: String,
}

pub type EditView = (Seq<Seq<char>>, Option<Seq<char>>, bool, Seq<char>);

pub open spec fn edit_view(e: LedgerEdit) -> EditView {
    (strings_view(e.path@), crate::trace::opt_string_view(e.before), e.before_exists, e.after@)
}

pub open spec fn edits_view(v: Seq<LedgerEdit>) -> Seq<EditView> {
    v.map_values(|e: LedgerEdit| edit_view(e))
}

/// What the merge of texe's settings comes to: the settings text, the
/// settings that replace a value texe did not write, and the ledger.
#[derive(Debug, Clone)]
pub struct SettingsPlan {
    pub text: String,
    pub conflicts: Vec<String>,
    pub edits: Vec<LedgerEdit>,
}

/// The first ledger edit of `path`, from `i` on.
pub open spec fn edit_index(edits: Seq<EditView>, path: Seq<Seq<char>>, i: int) -> Option<int>
    decreases edits.len() - i,
{
    if i < 0 || i >= edits.len() {
        None
    } else if edits[i].0 == path {
        Some(i)
    } else {
        edit_index(edits, path, i + 1)
    }
}

/// The length of the shortest proper prefix of `path`, from `k` on, at
/// which the settings hold something other than an object.
pub open spec fn blocked_from(text: Seq<char>, path: Seq<Seq<char>>, k: int) -> Option<usize>
    decreases path.len() - k,
{
    if k < 1 || k >= path.len() {
        None
    } else {
        match jsonc_value_at(text, path.subrange(0, k)) {
            Ok(Some((false, _))) => Some(k as usize),
            _ => blocked_from(text, path, k + 1),
        }
    }
}

/// The value at `path` as compact JSON text, where there is one.
pub open spec fn value_text(text: Seq<char>, path: Seq<Seq<char>>) -> Option<Seq<char>> {
    match jsonc_value_at(text, path) {
        Ok(Some((_, j))) => Some(j),
        _ => None,
    }
}

/// What the settings hold at one path texe wants to write `after` to.
pub open spec fn leaf_state_of(text: Seq<char>, path: Seq<Seq<char>>, after: Seq<char>, edits: Seq<EditView>) -> LeafState {
    let before = value_text(text, path);
    LeafState {
        present: before is Some,
        desired: before == Some(after),
        owned: match edit_index(edits, path, 0) {
            Some(i) => Some(before == Some(edits[i].3)),
            None => None,
        },
        blocked_at: blocked_from(text, path, 1),
    }
}

pub type PlanView = (Seq<char>, Seq<Seq<char>>, Seq<EditView>);

/// One setting of the merge: decided by [`leaf_step_of`] on what the
/// original settings hold; a write edits the text, names a conflict where
/// it replaces a value texe did not write, and adds the path to the ledger
/// (with the value it replaces) or updates the ledger's entry for it.
pub open spec fn settings_step(original: Seq<char>, leaf: (Seq<Seq<char>>, LeafView), acc: PlanView) -> Result<PlanView, Seq<char>> {
    let (path, value) = leaf;
    let (text, conflicts, edits) = acc;
    let after = leaf_json_text(value);
    match leaf_step_of(path, leaf_state_of(original, path, after, edits)) {
        Err(m) => Err(m),
        Ok(LeafStep::Unchanged) => Ok(acc),
        Ok(LeafStep::Write { conflict, new_edit: _ }) => if path.len() == 0 {
            Err("a VS Code setting needs a path"@)
        } else {
            match jsonc_with_leaf(text, path, value) {
                None => Err("invalid VS Code settings"@),
                Some(t) => Ok(
                    (
                        t,
                        if conflict {
                            conflicts.push(conflict_name(path))
                        } else {
                            conflicts
                        },
                        match edit_index(edits, path, 0) {
                            Some(i) => edits.update(i, (edits[i].0, edits[i].1, edits[i].2, after)),
                            None => edits.push((path, value_text(original, path), value_text(original, path) is Some, after)),
                        },
                    ),
                ),
            }
        },
    }
}

/// The first `n` settings of the merge, in order.
pub open spec fn plan_from(original: Seq<char>, leaves: Seq<(Seq<Seq<char>>, LeafView)>, start: PlanView, n: int) -> Result<PlanView, Seq<char>>
    decreases n,
{
    if n <= 0 || n > leaves.len() {
        Ok(start)
    } else {
        match plan_from(original, leaves, start, n - 1) {
            Err(m) => Err(m),
            Ok(acc) => settings_step(original, leaves[n - 1], acc),
        }
    }
}

/// An error stops the merge: it is the merge's outcome.
pub proof fn lemma_plan_error_stays(
    original: Seq<char>,
    leaves: Seq<(Seq<Seq<char>>, LeafView)>,
    start: PlanView,
    i: int,
    n: int,
)
    requires
        0 <= i <= n <= leaves.len(),
        plan_from(original, leaves, start, i) is Err,
    ensures
        plan_from(original, leaves, start, n) == plan_from(original, leaves, start, i),
    decreases n - i,
{
    if i < n {
        lemma_plan_error_stays(original, leaves, start, i, n - 1);
    }
}

/// The merge of texe's settings into the project's `.vscode/settings.json`
/// (`original`, where there is one; else an empty object): refused where
/// the text does not parse or is not an object; otherwise every setting of
/// [`desired_settings_of`](crate::editor::desired_settings_of), in order.
pub open spec fn settings_plan_of(original: Option<Seq<char>>, edits: Seq<EditView>, entry: Seq<char>, executable: Seq<char>) -> Result<PlanView, Seq<char>> {
    let text = match original {
        Some(t) => t,
        None => "{}\n"@,
    };
    match jsonc_value_at(text, Seq::empty()) {
        Err(m) => Err("invalid VS Code settings: "@ + m),
        Ok(Some((true, _))) => {
            let leaves = crate::editor::desired_settings_of(entry, executable);
            plan_from(text, leaves, (text, Seq::empty(), edits), leaves.len() as int)
        },
        _ => Err("VS Code settings must be a JSON object"@),
    }
}

fn same_keys(a: &Vec<String>, b: &Vec<String>) -> (r: bool)
    ensures
        r == (strings_view(a@) == strings_view(b@)),
{
    if a.len() != b.len() {
        return false;
    }
    let mut i: usize = 0;
    while i < a.len()
        invariant
            i <= a.len() == b.len(),
            forall|j: int| 0 <= j < i ==> strings_view(a@)[j] == strings_view(b@)[j],
        decreases a.len() - i,
    {
        if !eq_str(&chars_of(a[i].as_str()), b[i].as_str()) {
            assert(strings_view(a@)[i as int] != strings_view(b@)[i as int]);
            return false;
        }
        i += 1;
    }
    assert(strings_view(a@) =~= strings_view(b@));
    true
}

fn find_edit(edits: &Vec<LedgerEdit>, path: &Vec<String>) -> (r: Option<usize>)
    ensures
        match edit_index(edits_view(edits@), strings_view(path@), 0) {
            Some(i) => r matches Some(k) && k == i && 0 <= i < edits@.len(),
            None => r is None,
        },
{
    let ghost ev = edits_view(edits@);
    let mut i: usize = 0;
    while i < edits.len()
        invariant
            i <= edits.len(),
            ev == edits_view(edits@),
            edit_index(ev, strings_view(path@), 0) == edit_index(ev, strings_view(path@), i as int),
        decreases edits.len() - i,
    {
        assert(ev[i as int].0 == strings_view(edits@[i as int].path@));
        if same_keys(&edits[i].path, path) {
            return Some(i);
        }
        i += 1;
    }
    None
}

pub(crate) fn prefix(path: &Vec<String>, k: usize) -> (r: Vec<String>)
    requires
        k <= path.len(),
    ensures
        strings_view(r@) == strings_view(path@).subrange(0, k as int),
{
    let mut r: Vec<String> = Vec::new();
    let mut i: usize = 0;
    while i < k
        invariant
            i <= k <= path.len(),
            strings_view(r@) == strings_view(path@).subrange(0, i as int),
        decreases k - i,
    {
        let ghost before = strings_view(r@);
        r.push(path[i].clone());
        assert(strings_view(r@) =~= before.push(path@[i as int]@));
        assert(strings_view(r@) =~= strings_view(path@).subrange(0, i + 1));
        i += 1;
    }
    r
}

fn blocked(text: &str, path: &Vec<String>) -> (r: Option<usize>)
    ensures
        r == blocked_from(text@, strings_view(path@), 1),
{
    let mut k: usize = 1;
    while k < path.len()
        invariant
            1 <= k,
            blocked_from(text@, strings_view(path@), 1) == blocked_from(text@, strings_view(path@), k as int),
        decreases path.len() - k,
    {
        let p = prefix(path, k);
        match value_at(text, &p) {
            Ok(Some((false, _))) => {
                return Some(k);
            },
            _ => {},
        }
        k += 1;
    }
    None
}

pub(crate) fn value_text_at(text: &str, path: &Vec<String>) -> (r: Option<String>)
    ensures
        crate::trace::opt_string_view(r) == value_text(text@, strings_view(path@)),
{
    match value_at(text, path) {
        Ok(Some((_, j))) => Some(j),
        _ => None,
    }
}

/// Plans the merge of texe's settings into the project's
/// `.vscode/settings.json`: see [`settings_plan_of`]. `original` is the
/// file where it exists, `edits` the ownership ledger's entries.
pub fn plan_settings(original: Option<&str>, edits: Vec<LedgerEdit>, entry: &str, executable: &str) -> (r: Result<SettingsPlan, TexeError>)
    ensures
        match settings_plan_of(
            match original {
                Some(t) => Some(t@),
                None => None,
            },
            edits_view(edits@),
            entry@,
            executable@,
        ) {
            Ok((text, conflicts, ledger)) => r matches Ok(p) && p.text@ == text && strings_view(p.conflicts@) == conflicts
                && edits_view(p.edits@) == ledger,
            Err(m) => r matches Err(TexeError::Build(e)) && e@ == m,
        },
{
    let base: &str = match original {
        Some(t) => t,
        None => "{}\n",
    };
    proof {
        reveal_strlit("{}\n");
    }
    let no_keys: Vec<String> = Vec::new();
    assert(strings_view(no_keys@) =~= Seq::<Seq<char>>::empty());
    match value_at(base, &no_keys) {
        Err(m) => {
            let mut e = String::from_str("invalid VS Code settings: ");
            e.append(m.as_str());
            return Err(TexeError::Build(e));
        },
        Ok(Some((true, _))) => {},
        Ok(_) => {
            return Err(TexeError::Build(String::from_str("VS Code settings must be a JSON object")));
        },
    }
    let desired = desired_settings(entry, executable);
    let ghost dv = settings_view(desired@);
    let ghost start: PlanView = (base@, Seq::empty(), edits_view(edits@));
    let ghost whole = settings_plan_of(
        match original {
            Some(t) => Some(t@),
            None => None,
        },
        edits_view(edits@),
        entry@,
        executable@,
    );
    assert(whole == plan_from(base@, dv, start, dv.len() as int));
    let mut text = String::from_str(base);
    let mut conflicts: Vec<String> = Vec::new();
    let mut ledger = edits;
    let mut i: usize = 0;
    while i < desired.len()
        invariant
            i <= desired.len(),
            dv == settings_view(desired@),
            plan_from(base@, dv, start, i as int) == Ok::<PlanView, Seq<char>>((text@, strings_view(conflicts@), edits_view(ledger@))),
            dv.len() == desired.len(),
            whole == plan_from(base@, dv, start, dv.len() as int),
            whole == settings_plan_of(
                match original {
                    Some(t) => Some(t@),
                    None => None,
                },
                edits_view(edits@),
                entry@,
                executable@,
            ),
        decreases desired.len() - i,
    {
        let path = &desired[i].0;
        let leaf = &desired[i].1;
        proof {
            assert(dv[i as int] == (strings_view(path@), leaf_view(*leaf)));
        }
        let after = leaf_json(leaf);
        let before = value_text_at(base, path);
        let found = find_edit(&ledger, path);
        let owned = match found {
            Some(k) => Some(match &before {
                Some(b) => eq_str(&chars_of(b.as_str()), ledger[k].after.as_str()),
                None => false,
            }),
            None => None,
        };
        let state = LeafState {
            present: before.is_some(),
            desired: match &before {
                Some(b) => eq_str(&chars_of(b.as_str()), after.as_str()),
                None => false,
            },
            owned,
            blocked_at: blocked(base, path),
        };
        proof {
            let ev = edits_view(ledger@);
            if let Some(k) = found {
                assert(ev[k as int].3 == ledger@[k as int].after@);
            }
            let want = leaf_state_of(base@, strings_view(path@), after@, ev);
            let bt = value_text(base@, strings_view(path@));
            assert(crate::trace::opt_string_view(before) == bt);
            assert(state.present == want.present);
            assert(state.desired == want.desired);
            assert(state.blocked_at == want.blocked_at);
            assert(state.owned == want.owned);
            assert(state == want);
        }
        let step = match leaf_step(path, state) {
            Ok(s) => s,
            Err(e) => {
                proof {
                    lemma_plan_error_stays(base@, dv, start, i + 1, dv.len() as int);
                }
                return Err(e);
            },
        };
        match step {
            LeafStep::Unchanged => {},
            LeafStep::Write { conflict, new_edit: _ } => {
                if path.len() == 0 {
                    proof {
                        lemma_plan_error_stays(base@, dv, start, i + 1, dv.len() as int);
                    }
                    return Err(TexeError::Build(String::from_str("a VS Code setting needs a path")));
                }
                text = match with_leaf(text.as_str(), path, leaf) {
                    Some(t) => t,
                    None => {
                        proof {
                            lemma_plan_error_stays(base@, dv, start, i + 1, dv.len() as int);
                        }
                        return Err(TexeError::Build(String::from_str("invalid VS Code settings")));
                    },
                };
                if conflict {
                    let ghost c0 = strings_view(conflicts@);
                    conflicts.push(conflict_label(path));
                    assert(strings_view(conflicts@) =~= c0.push(conflict_name(strings_view(path@))));
                }
                let ghost e0 = edits_view(ledger@);
                match found {
                    Some(k) => {
                        let edit = LedgerEdit {
                            path: ledger[k].path.clone(),
                            before: ledger[k].before.clone(),
                            before_exists: ledger[k].before_exists,
                            after,
                        };
                        assert(strings_view(edit.path@) =~= strings_view(ledger@[k as int].path@));
                        ledger.set(k, edit);
                        assert(edits_view(ledger@) =~= e0.update(k as int, (e0[k as int].0, e0[k as int].1, e0[k as int].2, after@)));
                    },
                    None => {
                        let exists = before.is_some();
                        ledger.push(LedgerEdit { path: path.clone(), before, before_exists: exists, after });
                        assert(edits_view(ledger@) =~= e0.push((strings_view(path@), value_text(base@, strings_view(path@)), value_text(base@, strings_view(path@)) is Some, after@)));
                    },
                }
            },
        }
        i += 1;
    }
    Ok(SettingsPlan { text, conflicts, edits: ledger })
}

} // verus!
