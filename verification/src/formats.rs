//! The files a locked format is built from, and what a failed format build
//! reports: the language configuration copied out of the locked tree, the
//! font maps pdfTeX is limited to, and luaotfload's view of fonts.
use vstd::prelude::*;
use crate::diagnostics::{join_strings, join_with};
use crate::error::TexeError;
use crate::integrations::{lossy_text, utf8_lossy};
use crate::order::pairs_view;
use crate::paths::texts_view;
use crate::setup::{file_name, join_path, join_path_of, strings_view};
use crate::text::{chars_of, trim};
use crate::trace::lines;

verus! {

/// The luaotfload configuration of a managed LuaLaTeX: only the locked
/// TEXMF fonts, never the system's or the user's.
pub const LUAOTFLOAD_CONFIG: &'static str = "; Generated by texe: managed LuaLaTeX sees only locked TEXMF fonts.\n[db]\nlocation-precedence = texmf\n";

/// The language configuration a format build copies from the locked tree
/// into its own configuration directory, as (source, target) pairs.
pub open spec fn language_config_copies_of(texmf: Seq<char>, config: Seq<char>, language_lua: bool) -> Seq<(Seq<char>, Seq<char>)> {
    seq![
        (join_path(texmf, "tex/generic/config/language.us"@), join_path(config, "language.dat"@)),
        (join_path(texmf, "tex/generic/config/language.us.def"@), join_path(config, "language.def"@)),
    ] + if language_lua {
        seq![(join_path(texmf, "tex/generic/config/language.us.lua"@), join_path(config, "language.dat.lua"@))]
    } else {
        Seq::empty()
    }
}

pub fn language_config_copies(texmf: &str, config: &str, language_lua: bool) -> (r: Vec<(String, String)>)
    ensures
        pairs_view(r@) == language_config_copies_of(texmf@, config@, language_lua),
{
    let mut r: Vec<(String, String)> = Vec::new();
    r.push((join_path_of(texmf, "tex/generic/config/language.us"), join_path_of(config, "language.dat")));
    r.push((join_path_of(texmf, "tex/generic/config/language.us.def"), join_path_of(config, "language.def")));
    if language_lua {
        r.push((join_path_of(texmf, "tex/generic/config/language.us.lua"), join_path_of(config, "language.dat.lua")));
    }
    assert(pairs_view(r@) =~= language_config_copies_of(texmf@, config@, language_lua));
    r
}

/// A bootstrap file the lock should have brought, and did not.
pub fn missing_bootstrap(path: &str) -> (r: TexeError)
    ensures
        r matches TexeError::Build(m) && m@ == "locked format bootstrap file is absent from pqty.lock: "@ + path@,
{
    let mut m = String::from_str("locked format bootstrap file is absent from pqty.lock: ");
    m.append(path);
    TexeError::Build(m)
}

/// The one file of the locked tree that provides a font map: a plain file
/// name, found exactly once.
pub open spec fn unique_font_map_of(map_name: Seq<char>, matches: Seq<Seq<char>>) -> Result<Seq<char>, Seq<char>> {
    if file_name(map_name) != Some(map_name) {
        Err("pqty emitted an invalid font-map name: "@ + map_name)
    } else if matches.len() == 1 {
        Ok(matches[0])
    } else if matches.len() == 0 {
        Err("locked font-map fragment is missing from the pqty tree: "@ + map_name)
    } else {
        Err("locked font-map fragment is ambiguous in the pqty tree: "@ + map_name)
    }
}

pub fn unique_font_map(map_name: &str, matches: &Vec<String>) -> (r: Result<String, TexeError>)
    ensures
        match unique_font_map_of(map_name@, strings_view(matches@)) {
            Ok(p) => r matches Ok(x) && x@ == p,
            Err(m) => r matches Err(TexeError::Build(e)) && e@ == m,
        },
{
    let plain = match crate::setup::file_name_of(map_name) {
        Some(n) => crate::text::eq_str(&n, map_name),
        None => false,
    };
    if !plain {
        let mut m = String::from_str("pqty emitted an invalid font-map name: ");
        m.append(map_name);
        return Err(TexeError::Build(m));
    }
    if matches.len() == 1 {
        assert(strings_view(matches@)[0] == matches@[0]@);
        return Ok(String::from_str(matches[0].as_str()));
    }
    let mut m = if matches.len() == 0 {
        String::from_str("locked font-map fragment is missing from the pqty tree: ")
    } else {
        String::from_str("locked font-map fragment is ambiguous in the pqty tree: ")
    };
    m.append(map_name);
    Err(TexeError::Build(m))
}

/// `% name` on a line of its own, then the fragment, ending with a line
/// feed.
pub open spec fn map_section(name: Seq<u8>, fragment: Seq<u8>) -> Seq<u8> {
    seq![10u8, 37u8, 32u8] + name + seq![10u8] + fragment + if fragment.len() > 0 && fragment.last() == 10u8 {
        Seq::empty()
    } else {
        seq![10u8]
    }
}

pub open spec fn map_sections(maps: Seq<(Seq<u8>, Seq<u8>)>) -> Seq<u8>
    decreases maps.len(),
{
    if maps.len() == 0 {
        Seq::empty()
    } else {
        map_sections(maps.drop_last()) + map_section(maps.last().0, maps.last().1)
    }
}

/// The header of the pdfTeX map texe writes.
pub open spec fn map_header() -> Seq<u8> {
    vstd::utf8::encode_utf8("% Generated by texe from locked TeX Live map declarations.\n"@)
}

pub open spec fn maps_view(v: Seq<(String, Vec<u8>)>) -> Seq<(Seq<u8>, Seq<u8>)> {
    v.map_values(|m: (String, Vec<u8>)| (vstd::utf8::encode_utf8(m.0@), m.1@))
}

fn extend(v: &mut Vec<u8>, s: &[u8])
    ensures
        final(v)@ == old(v)@ + s@,
{
    let ghost start = v@;
    let mut i: usize = 0;
    while i < s.len()
        invariant
            i <= s.len(),
            v@ == start + s@.subrange(0, i as int),
        decreases s.len() - i,
    {
        v.push(s[i]);
        assert(s@.subrange(0, i + 1) =~= s@.subrange(0, i as int).push(s@[i as int]));
        i += 1;
    }
    assert(s@.subrange(0, s@.len() as int) =~= s@);
}

/// The pdfTeX map of a format build: the header, then each map in order
/// under its name, the foundational maps first.
pub fn pdftex_map(maps: &Vec<(String, Vec<u8>)>) -> (r: Vec<u8>)
    ensures
        r@ == map_header() + map_sections(maps_view(maps@)),
{
    let mut r: Vec<u8> = Vec::new();
    extend(&mut r, "% Generated by texe from locked TeX Live map declarations.\n".as_bytes());
    let ghost mv = maps_view(maps@);
    let mut i: usize = 0;
    assert(mv.subrange(0, 0) =~= Seq::<(Seq<u8>, Seq<u8>)>::empty());
    while i < maps.len()
        invariant
            i <= maps.len(),
            mv == maps_view(maps@),
            r@ == map_header() + map_sections(mv.subrange(0, i as int)),
        decreases maps.len() - i,
    {
        let ghost before = r@;
        r.push(10u8);
        r.push(37u8);
        r.push(32u8);
        extend(&mut r, maps[i].0.as_str().as_bytes());
        r.push(10u8);
        let fragment = &maps[i].1;
        extend(&mut r, fragment.as_slice());
        let ends = fragment.len() > 0 && fragment[fragment.len() - 1] == 10u8;
        if !ends {
            r.push(10u8);
        }
        proof {
            let x = mv[i as int];
            assert(x == (vstd::utf8::encode_utf8(maps@[i as int].0@), maps@[i as int].1@));
            if fragment@.len() > 0 {
                assert(fragment@.last() == fragment@[fragment@.len() - 1]);
            }
            assert(r@ =~= before + map_section(x.0, x.1));
            let a = mv.subrange(0, i as int);
            let b = mv.subrange(0, i + 1);
            assert(b.drop_last() =~= a);
            assert(b.last() == x);
        }
        i += 1;
    }
    assert(mv.subrange(0, mv.len() as int) =~= mv);
    r
}

/// The last forty lines of a format log.
pub open spec fn log_tail(log: Seq<char>) -> Seq<char> {
    let l = lines(log);
    let tail = if l.len() > 40 {
        l.subrange(l.len() - 40, l.len() as int)
    } else {
        l
    };
    join_with(tail, "\n"@)
}

/// Why a format build failed: the end of its log, or what the engine printed,
/// or how it exited.
pub open spec fn format_failure_text(name: Seq<char>, log: Seq<char>, stdout: Seq<u8>, stderr: Seq<u8>, status: Seq<char>) -> Seq<char> {
    let detail = trim(
        if log.len() == 0 {
            utf8_lossy(stdout) + "\n"@ + utf8_lossy(stderr)
        } else {
            log_tail(log)
        },
    );
    "could not generate locked "@ + name + " format:\n"@ + if detail.len() == 0 {
        "engine exited with "@ + status
    } else {
        detail
    }
}

pub fn format_failure(name: &str, log: &str, stdout: &[u8], stderr: &[u8], status: &str) -> (r: TexeError)
    ensures
        r matches TexeError::Build(m) && m@ == format_failure_text(name@, log@, stdout@, stderr@, status@),
{
    let log_chars = chars_of(log);
    let raw = if log_chars.len() == 0 {
        let mut d = lossy_text(stdout);
        d.append("\n");
        d.append(lossy_text(stderr).as_str());
        d
    } else {
        let all = crate::trace::lines_of(&log_chars);
        let from = if all.len() > 40 { all.len() - 40 } else { 0 };
        let mut tail: Vec<String> = Vec::new();
        let mut i = from;
        while i < all.len()
            invariant
                from <= i <= all.len(),
                strings_view(tail@) == texts_view(all@).subrange(from as int, i as int),
            decreases all.len() - i,
        {
            tail.push(crate::text::owned(&all[i]));
            assert(texts_view(all@).subrange(from as int, i + 1) =~= texts_view(all@).subrange(from as int, i as int).push(
                all@[i as int]@,
            ));
            i += 1;
        }
        proof {
            let l = lines(log@);
            assert(texts_view(all@) == l);
            if l.len() <= 40 {
                assert(l.subrange(0, l.len() as int) =~= l);
            }
            assert(tail@.map_values(|s: String| s@) =~= strings_view(tail@));
        }
        join_strings(&tail, "\n")
    };
    let detail = crate::buildlog::trimmed_text(&raw);
    let mut m = String::from_str("could not generate locked ");
    m.append(name);
    m.append(" format:\n");
    if chars_of(detail.as_str()).len() == 0 {
        m.append("engine exited with ");
        m.append(status);
    } else {
        m.append(detail.as_str());
    }
    TexeError::Build(m)
}

} // verus!
