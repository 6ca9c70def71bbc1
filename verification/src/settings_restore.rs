//! Taking texe's settings back out of the project's `.vscode/settings.json`:
//! every setting texe wrote that still holds texe's value gets back the
//! value it replaced (or goes, where there was none), and the objects texe
//! created to hold them go where they are left empty and uncommented. Later
//! user edits stay. The file is read and edited in place by jsonc-parser.
use vstd::prelude::*;
use jsonc_parser::cst::CstRootNode;
use jsonc_parser::ParseOptions;
use crate::editor::{LeafView, SettingLeaf};
use crate::error::TexeError;
use crate::settings_file::{
    edits_view, jsonc_value_at, jsonc_with_leaf, prefix, value_at, value_text, value_text_at, with_leaf, EditView,
    LedgerEdit,
};
use crate::setup::strings_view;
use crate::text::{chars_of, contains, contains_str, eq_str, find, find_str, lemma_find_from_bounds, push_all, push_char, slice_of};

verus! {

/// The settings text with the property at `path` removed, where every key
/// before the last names an object that exists.
pub uninterp spec fn jsonc_without(text: Seq<char>, path: Seq<Seq<char>>) -> Option<Seq<char>>;

/// jsonc-parser's concrete syntax tree of `text`: the objects named by the
/// keys of `path` but the last looked up (`object_value`), and where they
/// all exist the last key's property removed (`remove`); the tree written
/// back out. `None` where the text does not parse, is not an object, or the
/// path is empty. The result depends on the arguments alone.
#[verifier::external_body]
fn without_at(text: &str, path: &Vec<String>) -> (r: Option<String>)
    ensures
        match r {
            Some(t) => jsonc_without(text@, strings_view(path@)) == Some(t@),
            None => jsonc_without(text@, strings_view(path@)) is None,
        },
{
    let root = CstRootNode::parse(text, &ParseOptions { allow_loose_object_property_names: false, allow_missing_commas: false, allow_single_quoted_strings: false, allow_hexadecimal_numbers: false, allow_unary_plus_numbers: false, allow_bare_decimal_point_numbers: false, allow_non_finite_numbers: false, allow_extended_string_escapes: false, ..Default::default() }).ok()?;
    let (last, keys) = path.split_last()?;
    if let Some(object) = keys.iter().try_fold(root.object_value()?, |o, k| o.object_value(k)) {
        if let Some(property) = object.get(last) {
            property.remove();
        }
    }
    Some(root.to_string())
}

/// The text of the object at `path`, as it stands in the settings.
pub uninterp spec fn jsonc_object_text(text: Seq<char>, path: Seq<Seq<char>>) -> Option<Seq<char>>;

/// jsonc-parser's concrete syntax tree of `text`, the object at `path`
/// looked up key by key (`object_value`) and written out (`to_string`),
/// comments included; `None` where the text does not parse or no object is
/// there. The result depends on the arguments alone.
#[verifier::external_body]
fn object_text_at(text: &str, path: &Vec<String>) -> (r: Option<String>)
    ensures
        match r {
            Some(t) => jsonc_object_text(text@, strings_view(path@)) == Some(t@),
            None => jsonc_object_text(text@, strings_view(path@)) is None,
        },
{
    let root = CstRootNode::parse(text, &ParseOptions { allow_loose_object_property_names: false, allow_missing_commas: false, allow_single_quoted_strings: false, allow_hexadecimal_numbers: false, allow_unary_plus_numbers: false, allow_bare_decimal_point_numbers: false, allow_non_finite_numbers: false, allow_extended_string_escapes: false, ..Default::default() }).ok()?;
    let object = path.iter().try_fold(root.object_value()?, |o, k| o.object_value(k))?;
    Some(object.to_string())
}

/// A string that cannot occur in `text`: longer than it.
pub open spec fn placeholder(text: Seq<char>) -> Seq<char> {
    Seq::new((text.len() + 1) as nat, |i: int| 'x')
}

/// `s` with the first occurrence of `pat` replaced by `rep`.
pub open spec fn replace_first(s: Seq<char>, pat: Seq<char>, rep: Seq<char>) -> Option<Seq<char>> {
    match find(s, pat) {
        Some(k) => Some(s.subrange(0, k) + rep + s.subrange(k + pat.len(), s.len() as int)),
        None => None,
    }
}

/// The settings text with the value at `path` put back to `before` (JSON
/// text), or removed where there was none. A value is put back by writing
/// a placeholder string there and replacing the placeholder's JSON text.
pub open spec fn put_back(text: Seq<char>, path: Seq<Seq<char>>, before: Option<Seq<char>>) -> Result<Seq<char>, Seq<char>> {
    match before {
        None => match jsonc_without(text, path) {
            Some(t) => Ok(t),
            None => Err("invalid VS Code settings"@),
        },
        Some(json) => {
            let ph = placeholder(text);
            match jsonc_with_leaf(text, path, LeafView::Text(ph)) {
                None => Err("invalid VS Code settings"@),
                Some(t) => match replace_first(t, seq!['"'] + ph + seq!['"'], json) {
                    Some(u) => Ok(u),
                    None => Err("invalid VS Code settings"@),
                },
            }
        },
    }
}

/// One ledger entry taken back: where `current` still holds texe's value
/// at its path, the value before (JSON `null` where the ledger says a
/// value existed but kept none) is put back; otherwise nothing changes.
pub open spec fn restore_step(current: Seq<char>, text: Seq<char>, edit: EditView) -> Result<Seq<char>, Seq<char>> {
    let (path, before, before_exists, after) = edit;
    if path.len() > 0 && value_text(current, path) == Some(after) {
        put_back(
            text,
            path,
            match before {
                Some(b) => Some(b),
                None => if before_exists {
                    Some("null"@)
                } else {
                    None
                },
            },
        )
    } else {
        Ok(text)
    }
}

/// The first `n` ledger entries taken back, in order.
pub open spec fn restore_edits(current: Seq<char>, text: Seq<char>, edits: Seq<EditView>, n: int) -> Result<Seq<char>, Seq<char>>
    decreases n,
{
    if n <= 0 || n > edits.len() {
        Ok(text)
    } else {
        match restore_edits(current, text, edits, n - 1) {
            Err(m) => Err(m),
            Ok(t) => restore_step(current, t, edits[n - 1]),
        }
    }
}

/// An object texe created goes where the settings before texe held nothing
/// at its path and it is now empty and holds no comment.
pub open spec fn drop_container(original: Seq<char>, text: Seq<char>, path: Seq<Seq<char>>) -> Result<Seq<char>, Seq<char>> {
    if value_text(original, path) is None && jsonc_value_at(text, path) == Ok::<Option<(bool, Seq<char>)>, Seq<char>>(
        Some((true, "{}"@)),
    ) && (jsonc_object_text(text, path) matches Some(o) && !contains(o, "//"@) && !contains(o, "/*"@)) {
        match jsonc_without(text, path) {
            Some(t) => Ok(t),
            None => Err("invalid VS Code settings"@),
        }
    } else {
        Ok(text)
    }
}

/// The enclosing objects of `path` of length `l` down to 1, innermost
/// first, each dropped where [`drop_container`] says so.
pub open spec fn drop_along(original: Seq<char>, text: Seq<char>, path: Seq<Seq<char>>, l: int) -> Result<Seq<char>, Seq<char>>
    decreases l,
{
    if l < 1 || l >= path.len() {
        Ok(text)
    } else {
        match drop_container(original, text, path.subrange(0, l)) {
            Err(m) => Err(m),
            Ok(t) => drop_along(original, t, path, l - 1),
        }
    }
}

/// The enclosing objects of the first `n` ledger paths, entry by entry.
/// (Each object is looked at after every object inside it.)
pub open spec fn drop_containers(original: Seq<char>, text: Seq<char>, edits: Seq<EditView>, n: int) -> Result<Seq<char>, Seq<char>>
    decreases n,
{
    if n <= 0 || n > edits.len() {
        Ok(text)
    } else {
        match drop_containers(original, text, edits, n - 1) {
            Err(m) => Err(m),
            Ok(t) => drop_along(original, t, edits[n - 1].0, edits[n - 1].0.len() - 1),
        }
    }
}

/// What the settings file becomes when texe's settings are taken out:
/// `original` (the file before texe first wrote it, `None` where there was
/// none) where the file still is what texe `installed`; else the current
/// text with every ledger entry taken back and texe's emptied objects
/// dropped. Refused where the current or the original settings do not parse
/// or are not an object.
pub open spec fn settings_restore_of(current: Seq<char>, installed: Seq<char>, original: Option<Seq<char>>, edits: Seq<EditView>) -> Result<Option<Seq<char>>, Seq<char>> {
    if current == installed {
        Ok(original)
    } else {
        let before = match original {
            Some(t) => t,
            None => "{}"@,
        };
        match jsonc_value_at(current, Seq::empty()) {
            Err(m) => Err("invalid VS Code settings: "@ + m),
            Ok(Some((true, _))) => match jsonc_value_at(before, Seq::empty()) {
                Err(m) => Err("invalid VS Code settings: "@ + m),
                Ok(Some((true, _))) => match restore_edits(current, current, edits, edits.len() as int) {
                    Err(m) => Err(m),
                    Ok(t) => match drop_containers(before, t, edits, edits.len() as int) {
                        Err(m) => Err(m),
                        Ok(u) => Ok(Some(u)),
                    },
                },
                _ => Err("VS Code settings must be a JSON object"@),
            },
            _ => Err("VS Code settings must be a JSON object"@),
        }
    }
}

fn placeholder_of(text: &str) -> (r: String)
    ensures
        r@ == placeholder(text@),
{
    let n = chars_of(text).len();
    let mut r = String::new();
    push_char(&mut r, 'x');
    let mut i: usize = 0;
    assert(r@ =~= Seq::new(1nat, |k: int| 'x'));
    while i < n
        invariant
            n == text@.len(),
            i <= n,
            r@ == Seq::new((i + 1) as nat, |k: int| 'x'),
        decreases n - i,
    {
        push_char(&mut r, 'x');
        assert(r@ =~= Seq::new((i + 2) as nat, |k: int| 'x'));
        i += 1;
    }
    r
}

fn put_back_at(text: &str, path: &Vec<String>, before: Option<&str>) -> (r: Result<String, String>)
    requires
        path@.len() > 0,
    ensures
        match put_back(
            text@,
            strings_view(path@),
            match before {
                Some(b) => Some(b@),
                None => None,
            },
        ) {
            Ok(t) => r matches Ok(u) && u@ == t,
            Err(m) => r matches Err(e) && e@ == m,
        },
{
    match before {
        None => match without_at(text, path) {
            Some(t) => Ok(t),
            None => Err(String::from_str("invalid VS Code settings")),
        },
        Some(json) => {
            let ph = placeholder_of(text);
            let leaf = SettingLeaf::Text(ph.clone());
            let edited = match with_leaf(text, path, &leaf) {
                Some(t) => t,
                None => return Err(String::from_str("invalid VS Code settings")),
            };
            let mut quoted = String::new();
            push_char(&mut quoted, '"');
            quoted.append(ph.as_str());
            push_char(&mut quoted, '"');
            assert(quoted@ =~= seq!['"'] + ph@ + seq!['"']);
            let t = chars_of(edited.as_str());
            let q = chars_of(quoted.as_str());
            match find_str(&t, quoted.as_str()) {
                Some(k) => {
                    proof {
                        lemma_find_from_bounds(t@, quoted@, 0);
                        assert(find(t@, quoted@) == Some(k as int));
                        assert(crate::text::occurs_at(t@, quoted@, k as int));
                        assert(q@ == quoted@);
                        assert(k + q@.len() <= t@.len());
                    }
                    let total = t.len();
                    let width = q.len();
                    assert(k + width <= total);
                    let end: usize = k + width;
                    let head = slice_of(&t, 0, k);
                    let tail = slice_of(&t, end, t.len());
                    let mut out = String::new();
                    push_all(&mut out, &head);
                    out.append(json);
                    push_all(&mut out, &tail);
                    Ok(out)
                },
                None => Err(String::from_str("invalid VS Code settings")),
            }
        },
    }
}

fn drop_container_at(original: &str, text: String, path: &Vec<String>) -> (r: Result<String, String>)
    ensures
        match drop_container(original@, text@, strings_view(path@)) {
            Ok(t) => r matches Ok(u) && u@ == t,
            Err(m) => r matches Err(e) && e@ == m,
        },
{
    if value_text_at(original, path).is_some() {
        return Ok(text);
    }
    let empty = match value_at(text.as_str(), path) {
        Ok(Some((true, j))) => eq_str(&chars_of(j.as_str()), "{}"),
        _ => false,
    };
    if !empty {
        return Ok(text);
    }
    let plain = match object_text_at(text.as_str(), path) {
        Some(o) => {
            let oc = chars_of(o.as_str());
            !contains_str(&oc, "//") && !contains_str(&oc, "/*")
        },
        None => false,
    };
    if !plain {
        return Ok(text);
    }
    match without_at(text.as_str(), path) {
        Some(t) => Ok(t),
        None => Err(String::from_str("invalid VS Code settings")),
    }
}

pub proof fn lemma_restore_error_stays(current: Seq<char>, text: Seq<char>, edits: Seq<EditView>, i: int, n: int)
    requires
        0 <= i <= n <= edits.len(),
        restore_edits(current, text, edits, i) is Err,
    ensures
        restore_edits(current, text, edits, n) == restore_edits(current, text, edits, i),
    decreases n - i,
{
    if i < n {
        lemma_restore_error_stays(current, text, edits, i, n - 1);
    }
}

pub proof fn lemma_drop_error_stays(original: Seq<char>, text: Seq<char>, edits: Seq<EditView>, i: int, n: int)
    requires
        0 <= i <= n <= edits.len(),
        drop_containers(original, text, edits, i) is Err,
    ensures
        drop_containers(original, text, edits, n) == drop_containers(original, text, edits, i),
    decreases n - i,
{
    if i < n {
        lemma_drop_error_stays(original, text, edits, i, n - 1);
    }
}

/// Takes texe's settings out of the project's `.vscode/settings.json`:
/// see [`settings_restore_of`]. `current` is the file as it stands, `installed` what
/// texe last wrote, `original` the file before texe first wrote it and
/// `edits` the ownership ledger's entries. `Ok(None)` means the file goes.
pub fn restore_settings(current: &str, installed: &str, original: Option<&str>, edits: &Vec<LedgerEdit>) -> (r: Result<Option<String>, TexeError>)
    ensures
        match settings_restore_of(
            current@,
            installed@,
            match original {
                Some(t) => Some(t@),
                None => None,
            },
            edits_view(edits@),
        ) {
            Ok(Some(t)) => r matches Ok(Some(u)) && u@ == t,
            Ok(None) => r matches Ok(None),
            Err(m) => r matches Err(TexeError::Build(e)) && e@ == m,
        },
{
    if eq_str(&chars_of(current), installed) {
        return Ok(
            match original {
                Some(t) => Some(String::from_str(t)),
                None => None,
            },
        );
    }
    let before: &str = match original {
        Some(t) => t,
        None => "{}",
    };
    let no_keys: Vec<String> = Vec::new();
    assert(strings_view(no_keys@) =~= Seq::<Seq<char>>::empty());
    match value_at(current, &no_keys) {
        Err(m) => {
            let mut e = String::from_str("invalid VS Code settings: ");
            e.append(m.as_str());
            return Err(TexeError::Build(e));
        },
        Ok(Some((true, _))) => {},
        Ok(_) => {
            return Err(TexeError::Build(String::from_str("VS Code settings must be a JSON object")));
        },
    }
    match value_at(before, &no_keys) {
        Err(m) => {
            let mut e = String::from_str("invalid VS Code settings: ");
            e.append(m.as_str());
            return Err(TexeError::Build(e));
        },
        Ok(Some((true, _))) => {},
        Ok(_) => {
            return Err(TexeError::Build(String::from_str("VS Code settings must be a JSON object")));
        },
    }
    let ghost ev = edits_view(edits@);
    let mut text = String::from_str(current);
    let mut i: usize = 0;
    while i < edits.len()
        invariant
            i <= edits.len(),
            ev == edits_view(edits@),
            restore_edits(current@, current@, ev, i as int) == Ok::<Seq<char>, Seq<char>>(text@),
            current@ != installed@,
            before@ == (match original {
                Some(t) => t@,
                None => "{}"@,
            }),
            jsonc_value_at(current@, Seq::<Seq<char>>::empty()) matches Ok(Some((true, _))),
            jsonc_value_at(before@, Seq::<Seq<char>>::empty()) matches Ok(Some((true, _))),
        decreases edits.len() - i,
    {
        let edit = &edits[i];
        assert(ev[i as int] == crate::settings_file::edit_view(*edit));
        let owned = edit.path.len() > 0 && match value_text_at(current, &edit.path) {
            Some(j) => eq_str(&chars_of(j.as_str()), edit.after.as_str()),
            None => false,
        };
        if owned {
            let put: Option<&str> = match &edit.before {
                Some(b) => Some(b.as_str()),
                None => if edit.before_exists {
                    Some("null")
                } else {
                    None
                },
            };
            match put_back_at(text.as_str(), &edit.path, put) {
                Ok(t) => {
                    text = t;
                },
                Err(m) => {
                    proof {
                        assert(restore_edits(current@, current@, ev, i + 1) == Err::<Seq<char>, Seq<char>>(m@));
                        lemma_restore_error_stays(current@, current@, ev, i + 1, ev.len() as int);
                    }
                    return Err(TexeError::Build(m));
                },
            }
        }
        i += 1;
    }
    let ghost restored = text@;
    let mut i: usize = 0;
    while i < edits.len()
        invariant
            i <= edits.len(),
            ev == edits_view(edits@),
            drop_containers(before@, restored, ev, i as int) == Ok::<Seq<char>, Seq<char>>(text@),
            restore_edits(current@, current@, ev, ev.len() as int) == Ok::<Seq<char>, Seq<char>>(restored),
            current@ != installed@,
            before@ == (match original {
                Some(t) => t@,
                None => "{}"@,
            }),
            jsonc_value_at(current@, Seq::<Seq<char>>::empty()) matches Ok(Some((true, _))),
            jsonc_value_at(before@, Seq::<Seq<char>>::empty()) matches Ok(Some((true, _))),
        decreases edits.len() - i,
    {
        let path = &edits[i].path;
        assert(ev[i as int].0 == strings_view(path@));
        let ghost start = text@;
        let ghost pv = strings_view(path@);
        if path.len() > 0 {
            let mut l: usize = path.len() - 1;
            while l >= 1
                invariant
                    l < path@.len(),
                    pv == strings_view(path@),
                    drop_along(before@, start, pv, path@.len() - 1) == drop_along(before@, text@, pv, l as int),
                    i < edits.len(),
                    ev == edits_view(edits@),
                    ev[i as int].0 == pv,
                    drop_containers(before@, restored, ev, i as int) == Ok::<Seq<char>, Seq<char>>(start),
                    restore_edits(current@, current@, ev, ev.len() as int) == Ok::<Seq<char>, Seq<char>>(restored),
                    current@ != installed@,
                    before@ == (match original {
                        Some(t) => t@,
                        None => "{}"@,
                    }),
                    jsonc_value_at(current@, Seq::<Seq<char>>::empty()) matches Ok(Some((true, _))),
                    jsonc_value_at(before@, Seq::<Seq<char>>::empty()) matches Ok(Some((true, _))),
                decreases l,
            {
                let p = prefix(path, l);
                match drop_container_at(before, text, &p) {
                    Ok(t) => {
                        text = t;
                    },
                    Err(m) => {
                        proof {
                            assert(drop_along(before@, text@, pv, l as int) == Err::<Seq<char>, Seq<char>>(m@));
                            assert(drop_containers(before@, restored, ev, i + 1) == Err::<Seq<char>, Seq<char>>(m@));
                            lemma_drop_error_stays(before@, restored, ev, i + 1, ev.len() as int);
                        }
                        return Err(TexeError::Build(m));
                    },
                }
                l -= 1;
            }
        }
        i += 1;
    }
    Ok(Some(text))
}

} // verus!
