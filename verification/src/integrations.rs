//! Editor and version-control integration: the text edits texe makes to
//! files it shares with other tools.
use vstd::prelude::*;
use crate::paths::{join_components, norm_components, norm_components_of, texts_view};
use crate::text::{
    chars_of, eq_ignore_case_str, find, find_in, lemma_find_from_bounds, lower_seq, owned,
    rfind_char, rfind_char_in, slice_of, starts_with, trim, trim_bounds,
};
use crate::trace::{lines, lines_of};
use crate::config::ProjectManifest;

verus! {

/// The version a `code --list-extensions --show-versions` line gives for
/// an extension, if the line names it (case-insensitively).
pub open spec fn listed_version(line: Seq<char>, identifier: Seq<char>) -> Option<Seq<char>> {
    let t = trim(line);
    let (name, version) = match rfind_char(t, '@') {
        Some(k) => (t.subrange(0, k), t.subrange(k + 1, t.len() as int)),
        None => (t, Seq::empty()),
    };
    if lower_seq(name) == lower_seq(identifier) {
        Some(version)
    } else {
        None
    }
}

/// The first listed version from line `i` on.
pub open spec fn version_from(ls: Seq<Seq<char>>, identifier: Seq<char>, i: int) -> Option<Seq<char>>
    decreases ls.len() - i,
{
    if i < 0 || i >= ls.len() {
        None
    } else {
        match listed_version(ls[i], identifier) {
            Some(v) => Some(v),
            None => version_from(ls, identifier, i + 1),
        }
    }
}

fn listed_version_of(line: &Vec<char>, identifier: &str) -> (r: Option<String>)
    ensures
        crate::trace::opt_string_view(r) == listed_version(line@, identifier@),
{
    let (a, b) = trim_bounds(line, 0, line.len());
    assert(line@.subrange(0, line@.len() as int) == line@);
    let t = slice_of(line, a, b);
    let (name, version) = match rfind_char_in(&t, '@') {
        Some(k) => (slice_of(&t, 0, k), slice_of(&t, k + 1, t.len())),
        None => {
            let empty: Vec<char> = Vec::new();
            (slice_of(&t, 0, t.len()), empty)
        },
    };
    proof {
        assert(t@.subrange(0, t@.len() as int) == t@);
    }
    let n = owned(&name);
    let lowered_name = crate::text::lower_vec(&name);
    let lowered_id = crate::text::lower_vec(&chars_of(identifier));
    if crate::text::seq_eq(&lowered_name, &lowered_id) {
        Some(owned(&version))
    } else {
        None
    }
}

/// What `String::from_utf8_lossy` makes of some bytes: their text, with
/// U+FFFD for each ill-formed sequence.
pub uninterp spec fn utf8_lossy(bytes: Seq<u8>) -> Seq<char>;

/// `String::from_utf8_lossy(bytes)`, owned. Well-formed UTF-8 is decoded as
/// it stands; for other bytes the result is only named, since where the
/// replacement characters go is std's own rule.
#[verifier::external_body]
pub(crate) fn lossy_text(bytes: &[u8]) -> (r: String)
    ensures
        r@ == utf8_lossy(bytes@),
        vstd::utf8::valid_utf8(bytes@) ==> r@ == vstd::utf8::decode_utf8(bytes@),
{
    String::from_utf8_lossy(bytes).into_owned()
}

/// The version of an installed VS Code extension in the raw output of
/// `code --list-extensions --show-versions`.
pub fn extension_version_from_list(output: &[u8], identifier: &str) -> (r: Option<String>)
    ensures
        crate::trace::opt_string_view(r) == version_from(lines(utf8_lossy(output@)), identifier@, 0),
{
    let text = lossy_text(output);
    extension_version_in_text(text.as_str(), identifier)
}

/// The version of an installed VS Code extension, read from the editor's
/// extension list, without changing it.
pub fn extension_version_in_text(output: &str, identifier: &str) -> (r: Option<String>)
    ensures
        crate::trace::opt_string_view(r) == version_from(lines(output@), identifier@, 0),
{
    let ls = lines_of(&chars_of(output));
    let ghost lv = texts_view(ls@);
    let mut i: usize = 0;
    while i < ls.len()
        invariant
            i <= ls.len(),
            lv == texts_view(ls@),
            lv == lines(output@),
            version_from(lv, identifier@, 0) == version_from(lv, identifier@, i as int),
        decreases ls.len() - i,
    {
        assert(lv[i as int] == ls@[i as int]@);
        if let Some(v) = listed_version_of(&ls[i], identifier) {
            return Some(v);
        }
        i += 1;
    }
    None
}

/// `contents` without the block that runs from the first `start` marker to
/// the next `end` marker after it, and the line break that follows; the
/// text is unchanged where either marker is missing.
pub open spec fn without_owned_block(contents: Seq<char>, start: Seq<char>, end: Seq<char>) -> Seq<char> {
    match find(contents, start) {
        None => contents,
        Some(bs) => match find(contents.subrange(bs, contents.len() as int), end) {
            None => contents,
            Some(re) => {
                let be = bs + re + end.len();
                let rest = contents.subrange(be, contents.len() as int);
                let after = if starts_with(rest, "\r\n"@) {
                    be + 2
                } else if starts_with(rest, "\n"@) {
                    be + 1
                } else {
                    be
                };
                contents.subrange(0, bs) + contents.subrange(after, contents.len() as int)
            },
        },
    }
}

pub fn remove_owned_block(contents: &str, start: &str, end: &str) -> (r: String)
    ensures
        r@ == without_owned_block(contents@, start@, end@),
{
    let c = chars_of(contents);
    let s = chars_of(start);
    let e = chars_of(end);
    let bs = match find_in(&c, &s, 0) {
        Some(bs) => bs,
        None => return String::from_str(contents),
    };
    let n = c.len();
    proof {
        lemma_find_from_bounds(c@, s@, 0);
    }
    assert(bs <= n);
    let tail = slice_of(&c, bs, n);
    let re = match find_in(&tail, &e, 0) {
        Some(re) => re,
        None => return String::from_str(contents),
    };
    proof {
        lemma_find_from_bounds(tail@, e@, 0);
    }
    assert(re + e.len() <= tail.len());
    let be = bs + re + e.len();
    let rest = slice_of(&c, be, n);
    let after = if crate::text::starts_with_str(&rest, "\r\n") {
        proof {
            reveal_strlit("\r\n");
        }
        be + 2
    } else if crate::text::starts_with_str(&rest, "\n") {
        proof {
            reveal_strlit("\n");
        }
        be + 1
    } else {
        be
    };
    let mut r = owned(&slice_of(&c, 0, bs));
    crate::text::push_all(&mut r, &slice_of(&c, after, n));
    r
}

/// A path's components joined with `/`.
pub open spec fn slash_text(path: Seq<char>) -> Seq<char> {
    join_components(norm_components(path))
}

pub fn slash_path(path: &str) -> (r: String)
    ensures
        r@ == slash_text(path@),
{
    let c = norm_components_of(&chars_of(path));
    let r = crate::paths::join_components_of(&c, 0);
    assert(texts_view(c@).subrange(0, c@.len() as int) == texts_view(c@));
    r
}

pub const GITIGNORE_START: &'static str = "# >>> texe generated files";

pub const GITIGNORE_END: &'static str = "# <<< texe generated files";

/// `s.trim_end_matches('\n')`.
pub open spec fn trim_newlines(s: Seq<char>) -> Seq<char>
    decreases s.len(),
{
    if s.len() > 0 && s.last() == '\n' {
        trim_newlines(s.drop_last())
    } else {
        s
    }
}

/// The `.gitignore` texe writes: the user's own lines untouched, followed
/// by texe's block, which names only derived outputs: the build directory,
/// the package tree, the package lock, and the published PDF and SyncTeX
/// file.
pub open spec fn gitignore_text(original: Seq<char>, m: ProjectManifest) -> Seq<char> {
    let kept = trim_newlines(without_owned_block(original, GITIGNORE_START@, GITIGNORE_END@));
    let stem = match crate::engine::file_stem(m.project.entry@) {
        Some(s) => s,
        None => "main"@,
    };
    (if kept.len() == 0 {
        kept
    } else {
        kept + "\n\n"@
    }) + GITIGNORE_START@ + "\n/"@ + slash_text(m.project.build_dir@) + "\n/"@ + slash_text(m.packages.texmf@) + "\n/"@
        + slash_text(m.packages.lock@) + "\n/"@ + stem + ".pdf\n/"@ + stem + ".synctex.gz\n"@ + GITIGNORE_END@ + "\n"@
}

pub fn merged_gitignore(original: &str, manifest: &ProjectManifest) -> (r: String)
    ensures
        r@ == gitignore_text(original@, *manifest),
{
    let without = chars_of(remove_owned_block(original, GITIGNORE_START, GITIGNORE_END).as_str());
    let mut n = without.len();
    assert(without@.subrange(0, without@.len() as int) == without@);
    while n > 0 && without[n - 1] == '\n'
        invariant
            n <= without.len(),
            trim_newlines(without@) == trim_newlines(without@.subrange(0, n as int)),
        decreases n,
    {
        assert(without@.subrange(0, n as int).drop_last() =~= without@.subrange(0, n - 1));
        n -= 1;
    }
    assert(without@.subrange(0, without@.len() as int) == without@);
    let kept = slice_of(&without, 0, n);
    assert(trim_newlines(kept@) == kept@);
    let stem = match crate::setup::file_name_of(manifest.project.entry.as_str()) {
        Some(name) => match rfind_char_in(&name, '.') {
            Some(k) => {
                proof {
                    crate::text::lemma_rfind_bounds(name@, '.', name@.len() as int);
                }
                if k == 0 {
                    owned(&name)
                } else {
                    owned(&slice_of(&name, 0, k))
                }
            },
            None => owned(&name),
        },
        None => String::from_str("main"),
    };
    let mut merged = owned(&kept);
    if kept.len() > 0 {
        merged.append("\n\n");
    }
    merged.append(GITIGNORE_START);
    merged.append("\n/");
    merged.append(slash_path(manifest.project.build_dir.as_str()).as_str());
    merged.append("\n/");
    merged.append(slash_path(manifest.packages.texmf.as_str()).as_str());
    merged.append("\n/");
    merged.append(slash_path(manifest.packages.lock.as_str()).as_str());
    merged.append("\n/");
    merged.append(stem.as_str());
    merged.append(".pdf\n/");
    merged.append(stem.as_str());
    merged.append(".synctex.gz\n");
    merged.append(GITIGNORE_END);
    merged.append("\n");
    proof {
        if kept.len() == 0 {
            assert(kept@ + Seq::<char>::empty() == kept@);
        }
    }
    merged
}

} // verus!
