//! Reading the auxiliary files that LaTeX writes for BibTeX and MakeIndex.
//! They are bytes: only the ASCII parts matter, and other bytes pass through.
use vstd::prelude::*;

verus! {

/// `needle` occurs in `hay` at `i`.
pub open spec fn bytes_at(hay: Seq<u8>, needle: Seq<u8>, i: int) -> bool {
    0 <= i && i + needle.len() <= hay.len() && hay.subrange(i, i + needle.len()) == needle
}

/// The first index at or after `i` where `needle` occurs.
pub open spec fn bytes_find_from(hay: Seq<u8>, needle: Seq<u8>, i: int) -> Option<int>
    decreases hay.len() + 1 - i,
{
    if i < 0 || i + needle.len() > hay.len() {
        None
    } else if bytes_at(hay, needle, i) {
        Some(i)
    } else {
        bytes_find_from(hay, needle, i + 1)
    }
}

pub proof fn lemma_bytes_find_bounds(hay: Seq<u8>, needle: Seq<u8>, i: int)
    ensures
        bytes_find_from(hay, needle, i) is Some ==> i <= bytes_find_from(hay, needle, i)->0
            && bytes_at(hay, needle, bytes_find_from(hay, needle, i)->0),
    decreases hay.len() + 1 - i,
{
    if i >= 0 && i + needle.len() <= hay.len() && !bytes_at(hay, needle, i) {
        lemma_bytes_find_bounds(hay, needle, i + 1);
    }
}

pub(crate) fn bytes_match(hay: &[u8], needle: &[u8], i: usize) -> (r: bool)
    ensures
        r == bytes_at(hay@, needle@, i as int),
{
    if i > hay.len() || needle.len() > hay.len() - i {
        return false;
    }
    let mut k: usize = 0;
    while k < needle.len()
        invariant
            i + needle.len() <= hay.len(),
            k <= needle.len(),
            forall|j: int| 0 <= j < k ==> hay@[i + j] == needle@[j],
        decreases needle.len() - k,
    {
        if hay[i + k] != needle[k] {
            assert(hay@.subrange(i as int, i + needle.len())[k as int] != needle@[k as int]);
            return false;
        }
        k += 1;
    }
    assert(hay@.subrange(i as int, i + needle.len()) == needle@);
    true
}

/// The first position of `needle` in `haystack`.
pub fn find_bytes(haystack: &[u8], needle: &[u8]) -> (r: Option<usize>)
    ensures
        match bytes_find_from(haystack@, needle@, 0) {
            Some(i) => r == Some(i as usize),
            None => r is None,
        },
{
    let mut i: usize = 0;
    while i < haystack.len() && needle.len() <= haystack.len() - i
        invariant
            i <= haystack.len(),
            bytes_find_from(haystack@, needle@, 0) == bytes_find_from(haystack@, needle@, i as int),
        decreases haystack.len() - i,
    {
        if bytes_match(haystack, needle, i) {
            return Some(i);
        }
        i += 1;
    }
    if bytes_match(haystack, needle, i) {
        return Some(i);
    }
    assert(bytes_find_from(haystack@, needle@, i + 1) is None);
    None
}

/// `std::str::from_utf8(bytes).is_ok()`: the bytes are well-formed UTF-8.
#[verifier::external_body]
pub(crate) fn is_utf8(bytes: &[u8]) -> (r: bool)
    ensures
        r == vstd::utf8::valid_utf8(bytes@),
{
    std::str::from_utf8(bytes).is_ok()
}

/// The index of the first `b` at or after `i`, or the length.
pub open spec fn byte_from(s: Seq<u8>, b: u8, i: int) -> int
    decreases s.len() - i,
{
    if i < 0 || i >= s.len() {
        s.len() as int
    } else if s[i] == b {
        i
    } else {
        byte_from(s, b, i + 1)
    }
}

pub proof fn lemma_byte_from_bounds(s: Seq<u8>, b: u8, i: int)
    requires
        0 <= i <= s.len(),
    ensures
        i <= byte_from(s, b, i) <= s.len(),
        byte_from(s, b, i) < s.len() ==> s[byte_from(s, b, i)] == b,
    decreases s.len() - i,
{
    if i < s.len() && s[i] != b {
        lemma_byte_from_bounds(s, b, i + 1);
    }
}

/// The well-formed texts of the `{...}` groups from `offset` on.
pub open spec fn brace_groups_from(s: Seq<u8>, offset: int) -> Seq<Seq<u8>>
    decreases s.len() - offset,
{
    if offset < 0 || offset > s.len() {
        Seq::empty()
    } else {
        let open = byte_from(s, 123u8, offset);
        proof {
            lemma_byte_from_bounds(s, 123u8, offset);
        }
        if open >= s.len() {
            Seq::empty()
        } else {
            let start = open + 1;
            let close = byte_from(s, 125u8, start);
            proof {
                lemma_byte_from_bounds(s, 125u8, start);
            }
            if close >= s.len() {
                Seq::empty()
            } else {
                let group = s.subrange(start, close);
                let rest = brace_groups_from(s, close + 1);
                if vstd::utf8::valid_utf8(group) {
                    seq![group] + rest
                } else {
                    rest
                }
            }
        }
    }
}

pub open spec fn byte_groups_view(v: Seq<Vec<u8>>) -> Seq<Seq<u8>> {
    v.map_values(|g: Vec<u8>| g@)
}

pub(crate) fn bytes_slice(s: &[u8], from: usize, to: usize) -> (r: Vec<u8>)
    requires
        from <= to <= s.len(),
    ensures
        r@ == s@.subrange(from as int, to as int),
{
    let mut r: Vec<u8> = Vec::new();
    let mut i = from;
    while i < to
        invariant
            from <= i <= to <= s.len(),
            r@ == s@.subrange(from as int, i as int),
        decreases to - i,
    {
        r.push(s[i]);
        assert(s@.subrange(from as int, i + 1) == s@.subrange(from as int, i as int).push(s@[i as int]));
        i += 1;
    }
    r
}

/// The texts of the `{...}` groups of `bytes`, in order, leaving out any
/// that are not well-formed UTF-8.
pub fn brace_groups(bytes: &[u8]) -> (r: Vec<Vec<u8>>)
    ensures
        byte_groups_view(r@) == brace_groups_from(bytes@, 0),
{
    let mut groups: Vec<Vec<u8>> = Vec::new();
    let mut offset: usize = 0;
    loop
        invariant
            offset <= bytes.len(),
            brace_groups_from(bytes@, 0) == byte_groups_view(groups@) + brace_groups_from(bytes@, offset as int),
        decreases bytes.len() - offset,
    {
        let mut open = offset;
        while open < bytes.len() && bytes[open] != 123u8
            invariant
                offset <= open <= bytes.len(),
                byte_from(bytes@, 123u8, offset as int) == byte_from(bytes@, 123u8, open as int),
            decreases bytes.len() - open,
        {
            open += 1;
        }
        if open >= bytes.len() {
            assert(brace_groups_from(bytes@, offset as int) == Seq::<Seq<u8>>::empty());
            assert(byte_groups_view(groups@) + Seq::<Seq<u8>>::empty() == byte_groups_view(groups@));
            return groups;
        }
        let start = open + 1;
        let mut close = start;
        while close < bytes.len() && bytes[close] != 125u8
            invariant
                start <= close <= bytes.len(),
                byte_from(bytes@, 125u8, start as int) == byte_from(bytes@, 125u8, close as int),
            decreases bytes.len() - close,
        {
            close += 1;
        }
        if close >= bytes.len() {
            assert(brace_groups_from(bytes@, offset as int) == Seq::<Seq<u8>>::empty());
            assert(byte_groups_view(groups@) + Seq::<Seq<u8>>::empty() == byte_groups_view(groups@));
            return groups;
        }
        let group = bytes_slice(bytes, start, close);
        let ghost before = byte_groups_view(groups@);
        if is_utf8(group.as_slice()) {
            groups.push(group);
            assert(byte_groups_view(groups@) == before.push(group@));
            assert(brace_groups_from(bytes@, offset as int) == seq![group@] + brace_groups_from(bytes@, close + 1));
            assert(before.push(group@) + brace_groups_from(bytes@, close + 1) == before + (seq![group@] + brace_groups_from(bytes@, close + 1)));
        }
        offset = close + 1;
    }
}

/// A file extension that is safe to hand to MakeIndex: one to sixteen ASCII
/// letters, digits or hyphens.
pub open spec fn safe_extension_bytes(v: Seq<u8>) -> bool {
    &&& v.len() > 0
    &&& v.len() <= 16
    &&& forall|i: int| 0 <= i < v.len() ==> #[trigger] ext_byte(v[i])
}

pub open spec fn ext_byte(b: u8) -> bool {
    (48 <= b && b <= 57) || (65 <= b && b <= 90) || (97 <= b && b <= 122) || b == 45
}

pub fn safe_extension(value: &[u8]) -> (r: bool)
    ensures
        r == safe_extension_bytes(value@),
{
    if value.len() == 0 || value.len() > 16 {
        return false;
    }
    let mut i: usize = 0;
    while i < value.len()
        invariant
            i <= value.len(),
            forall|j: int| 0 <= j < i ==> #[trigger] ext_byte(value@[j]),
        decreases value.len() - i,
    {
        let b = value[i];
        if !((48 <= b && b <= 57) || (65 <= b && b <= 90) || (97 <= b && b <= 122) || b == 45) {
            assert(!ext_byte(value@[i as int]));
            return false;
        }
        i += 1;
    }
    true
}

/// ASCII bytes as text.
pub open spec fn ascii_text(v: Seq<u8>) -> Seq<char> {
    v.map_values(|b: u8| b as char)
}

fn ascii_string(v: &[u8]) -> (r: String)
    ensures
        r@ == ascii_text(v@),
{
    let mut r = String::new();
    let mut i: usize = 0;
    while i < v.len()
        invariant
            i <= v.len(),
            r@ == ascii_text(v@.subrange(0, i as int)),
        decreases v.len() - i,
    {
        crate::text::push_char(&mut r, v[i] as char);
        assert(ascii_text(v@.subrange(0, i + 1)) == ascii_text(v@.subrange(0, i as int)).push(v@[i as int] as char));
        i += 1;
    }
    assert(v@.subrange(0, v@.len() as int) == v@);
    r
}

/// The extensions a `glossaries` `\@newglossary` line declares.
#[derive(Debug, Clone, PartialEq, Eq)]
pub struct GlossaryFields {
    pub log: String,
    pub output: String,
    pub input: String,
}

/// The log, output and input extensions of a `\@newglossary` line: its last
/// three groups, each of them safe.
pub open spec fn glossary_of(line: Seq<u8>) -> Option<(Seq<char>, Seq<char>, Seq<char>)> {
    let marker = seq![92u8, 64u8, 110u8, 101u8, 119u8, 103u8, 108u8, 111u8, 115u8, 115u8, 97u8, 114u8, 121u8];
    match bytes_find_from(line, marker, 0) {
        None => None,
        Some(i) => {
            let groups = brace_groups_from(line.subrange(i + 13, line.len() as int), 0);
            if groups.len() < 4 {
                None
            } else {
                let n = groups.len() as int;
                if safe_extension_bytes(groups[n - 3]) && safe_extension_bytes(groups[n - 2])
                    && safe_extension_bytes(groups[n - 1]) {
                    Some((ascii_text(groups[n - 3]), ascii_text(groups[n - 2]), ascii_text(groups[n - 1])))
                } else {
                    None
                }
            }
        },
    }
}

pub fn glossary_fields(line: &[u8]) -> (r: Option<GlossaryFields>)
    ensures
        match glossary_of(line@) {
            Some((log, output, input)) => r matches Some(f) && f.log@ == log && f.output@ == output && f.input@ == input,
            None => r is None,
        },
{
    let marker: Vec<u8> = vec![92u8, 64u8, 110u8, 101u8, 119u8, 103u8, 108u8, 111u8, 115u8, 115u8, 97u8, 114u8, 121u8];
    assert(marker@ == seq![92u8, 64u8, 110u8, 101u8, 119u8, 103u8, 108u8, 111u8, 115u8, 115u8, 97u8, 114u8, 121u8]);
    let i = match find_bytes(line, marker.as_slice()) {
        Some(i) => i,
        None => return None,
    };
    let n = line.len();
    proof {
        lemma_bytes_find_bounds(line@, marker@, 0);
    }
    assert(i + 13 <= n);
    let tail = bytes_slice(line, i + 13, n);
    let groups = brace_groups(tail.as_slice());
    if groups.len() < 4 {
        return None;
    }
    let n = groups.len();
    assert(byte_groups_view(groups@)[n - 3] == groups@[n - 3]@);
    assert(byte_groups_view(groups@)[n - 2] == groups@[n - 2]@);
    assert(byte_groups_view(groups@)[n - 1] == groups@[n - 1]@);
    if safe_extension(groups[n - 3].as_slice()) && safe_extension(groups[n - 2].as_slice())
        && safe_extension(groups[n - 1].as_slice()) {
        Some(GlossaryFields {
            log: ascii_string(groups[n - 3].as_slice()),
            output: ascii_string(groups[n - 2].as_slice()),
            input: ascii_string(groups[n - 1].as_slice()),
        })
    } else {
        None
    }
}

/// ASCII white space, as `u8::is_ascii_whitespace` has it.
pub open spec fn ascii_ws(b: u8) -> bool {
    b == 32 || b == 9 || b == 10 || b == 12 || b == 13
}

/// `s` without every leading `./`.
pub open spec fn strip_dot_slash_bytes(s: Seq<u8>) -> Seq<u8>
    decreases s.len(),
{
    if s.len() >= 2 && s[0] == 46u8 && s[1] == 47u8 {
        strip_dot_slash_bytes(s.subrange(2, s.len() as int))
    } else {
        s
    }
}

/// The index of the first byte of `v` that is not ASCII white space, or
/// its length.
pub open spec fn leading_ascii_ws(v: Seq<u8>, i: int) -> int
    decreases v.len() - i,
{
    if i < 0 || i >= v.len() || !ascii_ws(v[i]) {
        i
    } else {
        leading_ascii_ws(v, i + 1)
    }
}

pub proof fn lemma_leading_ascii_ws_bounds(v: Seq<u8>, i: int)
    requires
        0 <= i <= v.len(),
    ensures
        i <= leading_ascii_ws(v, i) <= v.len(),
    decreases v.len() - i,
{
    if i < v.len() && ascii_ws(v[i]) {
        lemma_leading_ascii_ws_bounds(v, i + 1);
    }
}

/// One comma-separated value with its leading `./` prefixes removed (white
/// space before it kept).
pub open spec fn normalized_value(v: Seq<u8>) -> Seq<u8> {
    let w = leading_ascii_ws(v, 0);
    v.subrange(0, w) + strip_dot_slash_bytes(v.subrange(w, v.len() as int))
}

/// The comma-separated values of `s` from `i` on, each normalized, joined
/// with commas again.
pub open spec fn normalized_values_from(s: Seq<u8>, i: int) -> Seq<u8>
    decreases s.len() - i,
{
    if i < 0 || i > s.len() {
        Seq::empty()
    } else {
        let j = byte_from(s, 44u8, i);
        proof {
            lemma_byte_from_bounds(s, 44u8, i);
        }
        if j >= s.len() {
            normalized_value(s.subrange(i, s.len() as int))
        } else {
            normalized_value(s.subrange(i, j)) + seq![44u8] + normalized_values_from(s, j + 1)
        }
    }
}

/// A `\bibdata`-style line with its explicit `./` path prefixes removed.
/// Lines without a closing brace after an opening one are unchanged.
pub open spec fn normalized_bibtex_line(line: Seq<u8>) -> Seq<u8> {
    let open = byte_from(line, 123u8, 0);
    if open >= line.len() || open + 1 > line.len() - 1 || line.last() != 125u8 {
        line
    } else {
        line.subrange(0, open + 1) + normalized_values_from(line.subrange(open + 1, line.len() - 1), 0) + seq![125u8]
    }
}

fn extend_bytes(out: &mut Vec<u8>, s: &[u8], from: usize, to: usize)
    requires
        from <= to <= s.len(),
    ensures
        final(out)@ == old(out)@ + s@.subrange(from as int, to as int),
{
    let mut i = from;
    while i < to
        invariant
            from <= i <= to <= s.len(),
            out@ == old(out)@ + s@.subrange(from as int, i as int),
        decreases to - i,
    {
        out.push(s[i]);
        assert(s@.subrange(from as int, i + 1) == s@.subrange(from as int, i as int).push(s@[i as int]));
        i += 1;
    }
}

fn push_normalized_value(out: &mut Vec<u8>, s: &[u8], from: usize, to: usize)
    requires
        from <= to <= s.len(),
    ensures
        final(out)@ == old(out)@ + normalized_value(s@.subrange(from as int, to as int)),
{
    let ghost v = s@.subrange(from as int, to as int);
    let mut w = from;
    while w < to && (s[w] == 32 || s[w] == 9 || s[w] == 10 || s[w] == 12 || s[w] == 13)
        invariant
            from <= w <= to <= s.len(),
            v == s@.subrange(from as int, to as int),
            leading_ascii_ws(v, 0) == leading_ascii_ws(v, w - from),
        decreases to - w,
    {
        assert(v[w - from] == s@[w as int]);
        w += 1;
    }
    proof {
        if w < to {
            assert(v[w - from] == s@[w as int]);
        }
        assert(leading_ascii_ws(v, w - from) == w - from);
    }
    extend_bytes(out, s, from, w);
    let mut p = w;
    proof {
        assert(v.subrange(0, w - from) == s@.subrange(from as int, w as int));
        assert(v.subrange(w - from, v.len() as int) == s@.subrange(w as int, to as int));
    }
    while p < to && to - p >= 2 && s[p] == 46 && s[p + 1] == 47
        invariant
            w <= p <= to <= s.len(),
            strip_dot_slash_bytes(s@.subrange(w as int, to as int)) == strip_dot_slash_bytes(s@.subrange(p as int, to as int)),
        decreases to - p,
    {
        proof {
            let t = s@.subrange(p as int, to as int);
            assert(t.subrange(2, t.len() as int) == s@.subrange(p + 2, to as int));
        }
        p += 2;
    }
    proof {
        let t = s@.subrange(p as int, to as int);
        if p < to && to - p >= 2 {
            assert(t[0] == s@[p as int] && t[1] == s@[p + 1]);
        }
    }
    extend_bytes(out, s, p, to);
}

/// BibTeX resolves `\bibdata` paths against its own working directory; the
/// build runs it elsewhere, so explicit `./` prefixes are removed.
pub fn normalize_bibtex_project_relative_paths(line: &[u8]) -> (r: Vec<u8>)
    ensures
        r@ == normalized_bibtex_line(line@),
{
    let mut open: usize = 0;
    while open < line.len() && line[open] != 123u8
        invariant
            open <= line.len(),
            byte_from(line@, 123u8, 0) == byte_from(line@, 123u8, open as int),
        decreases line.len() - open,
    {
        open += 1;
    }
    if open >= line.len() || open + 1 > line.len() - 1 || line[line.len() - 1] != 125u8 {
        return bytes_slice(line, 0, line.len());
    }
    let body_end = line.len() - 1;
    let mut out = bytes_slice(line, 0, open + 1);
    let ghost body = line@.subrange(open + 1, body_end as int);
    let mut i = open + 1;
    loop
        invariant
            open + 1 <= i <= body_end + 1,
            body_end == line.len() - 1,
            body == line@.subrange(open + 1, body_end as int),
            i <= body_end,
            byte_from(line@, 123u8, 0) == open,
            open < line.len(),
            open + 1 <= line.len() - 1,
            line@[line.len() - 1] == 125u8,
            out@ + normalized_values_from(body, i - open - 1) == line@.subrange(0, open + 1) + normalized_values_from(body, 0),
        decreases body_end - i,
    {
        let mut j = i;
        while j < body_end && line[j] != 44u8
            invariant
                open + 1 <= i <= j <= body_end,
                body_end == line.len() - 1,
                body == line@.subrange(open + 1, body_end as int),
                byte_from(body, 44u8, i - open - 1) == byte_from(body, 44u8, j - open - 1),
            decreases body_end - j,
        {
            assert(body[j - open - 1] == line@[j as int]);
            j += 1;
        }
        proof {
            if j < body_end {
                assert(body[j - open - 1] == line@[j as int]);
            }
            assert(body.subrange(i - open - 1, j - open - 1) == line@.subrange(i as int, j as int));
        }
        let ghost before = out@;
        push_normalized_value(&mut out, line, i, j);
        if j >= body_end {
            proof {
                assert(normalized_values_from(body, i - open - 1) == normalized_value(line@.subrange(i as int, j as int)));
                assert(out@ == line@.subrange(0, open + 1) + normalized_values_from(body, 0));
                assert(line@.last() == 125u8);
            }
            out.push(125u8);
            return out;
        }
        out.push(44u8);
        proof {
            assert(normalized_values_from(body, i - open - 1) == normalized_value(line@.subrange(i as int, j as int)) + seq![44u8] + normalized_values_from(body, j - open));
        }
        i = j + 1;
    }
}

/// The file a `\@input{...}` line of an auxiliary file includes.
pub open spec fn aux_include(line: Seq<u8>) -> Option<Seq<u8>> {
    let prefix = seq![92u8, 64u8, 105u8, 110u8, 112u8, 117u8, 116u8, 123u8];
    if line.len() >= 9 && line.subrange(0, 8) == prefix && line.last() == 125u8 {
        let value = line.subrange(8, line.len() - 1);
        if vstd::utf8::valid_utf8(value) && value.len() > 0 {
            Some(value)
        } else {
            None
        }
    } else {
        None
    }
}

pub fn bibtex_auxiliary_include(line: &[u8]) -> (r: Option<Vec<u8>>)
    ensures
        match aux_include(line@) {
            Some(v) => r matches Some(x) && x@ == v,
            None => r is None,
        },
{
    let prefix: Vec<u8> = vec![92u8, 64u8, 105u8, 110u8, 112u8, 117u8, 116u8, 123u8];
    assert(prefix@ == seq![92u8, 64u8, 105u8, 110u8, 112u8, 117u8, 116u8, 123u8]);
    if line.len() < 9 || !bytes_match(line, prefix.as_slice(), 0) || line[line.len() - 1] != 125u8 {
        proof {
            if line.len() >= 9 && line@.subrange(0, 8) == prefix@ {
                assert(bytes_at(line@, prefix@, 0));
            }
        }
        return None;
    }
    let value = bytes_slice(line, 8, line.len() - 1);
    if value.len() > 0 && is_utf8(value.as_slice()) {
        Some(value)
    } else {
        None
    }
}

/// The lines of `bytes`, split at every line feed.
pub open spec fn starts_line_with(bytes: Seq<u8>, marker: Seq<u8>) -> bool {
    exists|i: int| 0 <= i <= bytes.len() && (i == 0 || bytes[i - 1] == 10u8) && #[trigger] bytes_at(bytes, marker, i)
}

fn has_line_starting_with(bytes: &[u8], marker: &[u8]) -> (r: bool)
    ensures
        r == starts_line_with(bytes@, marker@),
{
    let mut i: usize = 0;
    while i < bytes.len()
        invariant
            i <= bytes.len(),
            forall|k: int| 0 <= k < i ==> !((k == 0 || bytes@[k - 1] == 10u8) && #[trigger] bytes_at(bytes@, marker@, k)),
        decreases bytes.len() - i,
    {
        if (i == 0 || bytes[i - 1] == 10u8) && bytes_match(bytes, marker, i) {
            return true;
        }
        i += 1;
    }
    (i == 0 || bytes[i - 1] == 10u8) && bytes_match(bytes, marker, i)
}

/// A BibTeX control file names both a database and a style.
pub fn bibtex_control_file(bytes: &[u8]) -> (r: bool)
    ensures
        r == (starts_line_with(bytes@, seq![92u8, 98u8, 105u8, 98u8, 100u8, 97u8, 116u8, 97u8, 123u8])
            && starts_line_with(bytes@, seq![92u8, 98u8, 105u8, 98u8, 115u8, 116u8, 121u8, 108u8, 101u8, 123u8])),
{
    let data: Vec<u8> = vec![92u8, 98u8, 105u8, 98u8, 100u8, 97u8, 116u8, 97u8, 123u8];
    let style: Vec<u8> = vec![92u8, 98u8, 105u8, 98u8, 115u8, 116u8, 121u8, 108u8, 101u8, 123u8];
    assert(data@ == seq![92u8, 98u8, 105u8, 98u8, 100u8, 97u8, 116u8, 97u8, 123u8]);
    assert(style@ == seq![92u8, 98u8, 105u8, 98u8, 115u8, 116u8, 121u8, 108u8, 101u8, 123u8]);
    has_line_starting_with(bytes, data.as_slice()) && has_line_starting_with(bytes, style.as_slice())
}

} // verus!
