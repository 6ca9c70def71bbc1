//! SyncTeX data published beside the PDF: editors need not share the
//! engine's working directory, so relative input records are made absolute,
//! and the byte distances between anchors are recomputed so that readers
//! can still seek within the rewritten stream.
use vstd::prelude::*;
use vstd::utf8::valid_utf8;
use crate::auxfile::{byte_from, lemma_byte_from_bounds};

verus! {

/// What gzip decompression of the bytes gives: the data of the first gzip
/// member, or `None` where the bytes are not gzip data.
pub uninterp spec fn gzip_decoded(bytes: Seq<u8>) -> Option<Seq<u8>>;

/// `flate2::bufread::GzDecoder` read to the end. The decoded bytes are a
/// function of the input alone; an I/O error (malformed data) gives `None`.
#[verifier::external_body]
fn gunzip(bytes: &[u8]) -> (r: Option<Vec<u8>>)
    ensures
        match r {
            Some(v) => gzip_decoded(bytes@) == Some(v@),
            None => gzip_decoded(bytes@) is None,
        },
{
    let mut decoded = Vec::new();
    match std::io::Read::read_to_end(&mut flate2::bufread::GzDecoder::new(bytes), &mut decoded) {
        Ok(_) => Some(decoded),
        Err(_) => None,
    }
}

/// What gzip compression at the default level gives for the bytes: the
/// compressed bytes, or `None` where the encoder reports an error.
pub uninterp spec fn gzip_encoded(bytes: Seq<u8>) -> Option<Seq<u8>>;

/// `flate2::write::GzEncoder` at `Compression::default()` over a `Vec`,
/// written in one piece and finished. The encoder writes no time stamp and
/// its sink is memory, so what it gives, the compressed bytes or an error,
/// is a function of the input alone; nothing is said of which inputs give
/// an error.
#[verifier::external_body]
fn gzip(bytes: &[u8]) -> (r: Option<Vec<u8>>)
    ensures
        match r {
            Some(v) => gzip_encoded(bytes@) == Some(v@),
            None => gzip_encoded(bytes@) is None,
        },
{
    let mut encoder = flate2::write::GzEncoder::new(Vec::new(), flate2::Compression::default());
    match std::io::Write::write_all(&mut encoder, bytes) {
        Ok(()) => encoder.finish().ok(),
        Err(_) => None,
    }
}

/// The length of a line without its trailing carriage returns and line
/// feeds.
pub open spec fn content_len(line: Seq<u8>, n: int) -> int
    decreases n,
{
    if n <= 0 {
        0
    } else if line[n - 1] == 10u8 || line[n - 1] == 13u8 {
        content_len(line, n - 1)
    } else {
        n
    }
}

pub proof fn lemma_content_len(line: Seq<u8>, n: int)
    requires
        0 <= n <= line.len(),
    ensures
        0 <= content_len(line, n) <= n,
    decreases n,
{
    if n > 0 && (line[n - 1] == 10u8 || line[n - 1] == 13u8) {
        lemma_content_len(line, n - 1);
    }
}

/// The bytes of `Input:`.
pub open spec fn input_marker() -> Seq<u8> {
    seq![73u8, 110u8, 112u8, 117u8, 116u8, 58u8]
}

pub open spec fn is_digit_byte(b: u8) -> bool {
    48 <= b <= 57
}

/// The value of decimal digits.
pub open spec fn digits_value(d: Seq<u8>) -> nat
    decreases d.len(),
{
    if d.len() == 0 {
        0
    } else {
        digits_value(d.drop_last()) * 10 + (d.last() - 48) as nat
    }
}

/// What `str::parse::<usize>` accepts: an optional `+`, then at least one
/// digit, of a value that fits.
pub open spec fn parses_usize(d: Seq<u8>) -> bool {
    &&& usize_digits(d).len() > 0
    &&& forall|i: int| 0 <= i < usize_digits(d).len() ==> is_digit_byte(#[trigger] usize_digits(d)[i])
    &&& digits_value(usize_digits(d)) <= usize::MAX
}

/// The digits after an optional leading `+`.
pub open spec fn usize_digits(d: Seq<u8>) -> Seq<u8> {
    if d.len() > 0 && d[0] == 43u8 {
        d.drop_first()
    } else {
        d
    }
}

/// The decimal digits of `n` as ASCII bytes.
pub open spec fn decimal_bytes(n: nat) -> Seq<u8>
    decreases n,
{
    if n < 10 {
        seq![(n + 48) as u8]
    } else {
        decimal_bytes(n / 10).push((n % 10 + 48) as u8)
    }
}

/// From a segment starting at `i`: `/` and each segment that is neither
/// empty nor `.`.
pub open spec fn named_segments_from(s: Seq<u8>, i: int) -> Seq<u8>
    decreases s.len() - i,
{
    if i < 0 || i > s.len() {
        Seq::empty()
    } else {
        let j = byte_from(s, 47u8, i);
        proof {
            lemma_byte_from_bounds(s, 47u8, i);
        }
        let seg = s.subrange(i, j);
        let part = if seg.len() == 0 || seg == seq![46u8] {
            Seq::empty()
        } else {
            seq![47u8] + seg
        };
        if j >= s.len() {
            part
        } else {
            part + named_segments_from(s, j + 1)
        }
    }
}

/// `std::path::absolute(root.join(name))` for an absolute root and a
/// relative name: the joined path with empty and `.` components dropped,
/// `..` kept, and a trailing `/` kept.
pub open spec fn absolute_bytes(root: Seq<u8>, name: Seq<u8>) -> Seq<u8> {
    let joined = if root.len() > 0 && root.last() == 47u8 {
        root + name
    } else {
        root + seq![47u8] + name
    };
    let body = named_segments_from(joined, 0);
    if body.len() == 0 {
        seq![47u8]
    } else if name.len() > 0 && name.last() == 47u8 {
        body.push(47u8)
    } else {
        body
    }
}

/// An `Input:` record with a relative file name, made absolute; `None`
/// for any other record, which stays as it is.
pub open spec fn input_rewrite(line: Seq<u8>, n: int, root: Seq<u8>) -> Option<Seq<u8>> {
    let content = line.subrange(0, n);
    let record = content.subrange(6, n);
    let k = byte_from(record, 58u8, 0);
    if k < record.len() {
        let tag = record.subrange(0, k);
        let file = record.subrange(k + 1, record.len() as int);
        if file.len() > 0 && file[0] != 47u8 {
            Some(input_marker() + tag + seq![58u8] + absolute_bytes(root, file) + line.subrange(n, line.len() as int))
        } else {
            None
        }
    } else {
        None
    }
}

/// One line of SyncTeX data, given where it starts in the rewritten stream
/// and where the previous anchor stood: the line as published, where the
/// last anchor now stands, and whether an input record changed.
pub open spec fn rewrite_line(line: Seq<u8>, root: Seq<u8>, offset: nat, prev: nat) -> (Seq<u8>, nat, bool) {
    if !valid_utf8(line) {
        (line, prev, false)
    } else {
        let n = content_len(line, line.len() as int);
        let content = line.subrange(0, n);
        let ending = line.subrange(n, line.len() as int);
        if n >= 6 && content.subrange(0, 6) == input_marker() {
            match input_rewrite(line, n, root) {
                Some(rewritten) => (rewritten, prev, true),
                None => (line, prev, false),
            }
        } else if n >= 1 && content[0] == 33u8 && parses_usize(content.subrange(1, n)) {
            (seq![33u8] + decimal_bytes((offset - prev) as nat) + ending, offset, false)
        } else {
            (line, prev, false)
        }
    }
}

/// The lines from `i` on, appended to `out`: the rewritten stream and
/// whether any input record changed.
pub open spec fn rewrite_from(s: Seq<u8>, root: Seq<u8>, i: int, out: Seq<u8>, prev: nat, changed: bool) -> (Seq<u8>, bool)
    decreases s.len() - i,
{
    if i < 0 || i >= s.len() {
        (out, changed)
    } else {
        let j = byte_from(s, 10u8, i);
        proof {
            lemma_byte_from_bounds(s, 10u8, i);
        }
        let e = if j < s.len() {
            j + 1
        } else {
            s.len() as int
        };
        let (line, prev2, ch) = rewrite_line(s.subrange(i, e), root, out.len(), prev);
        rewrite_from(s, root, e, out + line, prev2, changed || ch)
    }
}

/// The SyncTeX data as published: `None` where the bytes are not gzip data
/// or the rewritten stream could not be compressed; otherwise, where an
/// input record changed, the rewritten stream compressed again, and where
/// none did, the original bytes.
pub open spec fn for_publication_of(bytes: Seq<u8>, root: Seq<u8>) -> Option<Seq<u8>> {
    match gzip_decoded(bytes) {
        None => None,
        Some(text) => {
            let (out, changed) = rewrite_from(text, root, 0, Seq::empty(), 0, false);
            match gzip_encoded(out) {
                None => None,
                Some(compressed) => if changed {
                    Some(compressed)
                } else {
                    Some(bytes)
                },
            }
        },
    }
}

fn push_decimal_bytes(v: &mut Vec<u8>, n: usize)
    ensures
        final(v)@ == old(v)@ + decimal_bytes(n as nat),
    decreases n,
{
    if n >= 10 {
        push_decimal_bytes(v, n / 10);
    }
    let d: u8 = (n % 10) as u8;
    v.push(48u8 + d);
    proof {
        if n >= 10 {
            assert(decimal_bytes(n as nat) == decimal_bytes((n / 10) as nat).push((n % 10 + 48) as u8));
        }
    }
}

fn extend(v: &mut Vec<u8>, s: &[u8], from: usize, to: usize)
    requires
        from <= to <= s.len(),
    ensures
        final(v)@ == old(v)@ + s@.subrange(from as int, to as int),
{
    let ghost start = v@;
    let mut i = from;
    while i < to
        invariant
            from <= i <= to <= s.len(),
            v@ == start + s@.subrange(from as int, i as int),
        decreases to - i,
    {
        v.push(s[i]);
        assert(s@.subrange(from as int, i + 1) =~= s@.subrange(from as int, i as int).push(s@[i as int]));
        i += 1;
    }
}

fn find_byte(s: &[u8], b: u8, from: usize, to: usize) -> (r: usize)
    requires
        from <= to <= s.len(),
    ensures
        r == from + byte_from(s@.subrange(from as int, to as int), b, 0),
        from <= r <= to,
{
    let ghost t = s@.subrange(from as int, to as int);
    let mut i = from;
    while i < to && s[i] != b
        invariant
            from <= i <= to <= s.len(),
            t == s@.subrange(from as int, to as int),
            byte_from(t, b, 0) == byte_from(t, b, i - from),
        decreases to - i,
    {
        assert(t[i - from] == s@[i as int]);
        i += 1;
    }
    if i < to {
        assert(t[i - from] == s@[i as int]);
    }
    i
}

proof fn lemma_value_grows(d: Seq<u8>, k: int)
    requires
        0 <= k <= d.len(),
        forall|i: int| 0 <= i < d.len() ==> is_digit_byte(#[trigger] d[i]),
    ensures
        digits_value(d.subrange(0, k)) <= digits_value(d),
    decreases d.len() - k,
{
    if k < d.len() {
        lemma_value_grows(d, k + 1);
        let p = d.subrange(0, k + 1);
        assert(p.drop_last() =~= d.subrange(0, k));
    } else {
        assert(d.subrange(0, k) =~= d);
    }
}

fn parses_as_usize(s: &[u8], from: usize, to: usize) -> (r: bool)
    requires
        from <= to <= s.len(),
    ensures
        r == parses_usize(s@.subrange(from as int, to as int)),
{
    let ghost d = s@.subrange(from as int, to as int);
    let start = if from < to && s[from] == 43u8 { from + 1 } else { from };
    let ghost digits = usize_digits(d);
    assert(digits =~= s@.subrange(start as int, to as int));
    if start == to {
        return false;
    }
    let mut value: usize = 0;
    let mut i = start;
    while i < to
        invariant
            start <= i <= to <= s.len(),
            digits == s@.subrange(start as int, to as int),
            d == s@.subrange(from as int, to as int),
            digits == usize_digits(d),
            forall|q: int| 0 <= q < i - start ==> is_digit_byte(#[trigger] digits[q]),
            value as nat == digits_value(digits.subrange(0, i - start)),
        decreases to - i,
    {
        let b = s[i];
        assert(digits[i - start] == b);
        if !(48u8 <= b && b <= 57u8) {
            assert(!is_digit_byte(digits[i - start]));
            return false;
        }
        let ghost p = digits.subrange(0, i - start + 1);
        assert(p.drop_last() =~= digits.subrange(0, i - start));
        assert(p.last() == b);
        assert(digits_value(p) == digits_value(p.drop_last()) * 10 + (p.last() - 48) as nat);
        let next = match value.checked_mul(10) {
            Some(m) => m.checked_add((b - 48u8) as usize),
            None => None,
        };
        match next {
            Some(x) => {
                value = x;
            },
            None => {
                proof {
                    if forall|w: int| 0 <= w < digits.len() ==> is_digit_byte(#[trigger] digits[w]) {
                        lemma_value_grows(digits, i - start + 1);
                    }
                }
                return false;
            },
        }
        i += 1;
    }
    assert(digits.subrange(0, digits.len() as int) =~= digits);
    true
}

fn copy_bytes(s: &[u8], from: usize, to: usize) -> (r: Vec<u8>)
    requires
        from <= to <= s.len(),
    ensures
        r@ == s@.subrange(from as int, to as int),
{
    let mut r: Vec<u8> = Vec::new();
    extend(&mut r, s, from, to);
    r
}

fn absolute_of(root: &[u8], name: &[u8]) -> (r: Vec<u8>)
    ensures
        r@ == absolute_bytes(root@, name@),
{
    let mut joined: Vec<u8> = Vec::new();
    extend(&mut joined, root, 0, root.len());
    let slash = root.len() > 0 && root[root.len() - 1] == 47u8;
    if !slash {
        joined.push(47u8);
    }
    extend(&mut joined, name, 0, name.len());
    proof {
        assert(root@.subrange(0, root@.len() as int) =~= root@);
        assert(name@.subrange(0, name@.len() as int) =~= name@);
        if slash {
            assert(root@.last() == root@[root@.len() - 1]);
            assert(joined@ =~= root@ + name@);
        } else {
            assert(joined@ =~= root@ + seq![47u8] + name@);
        }
    }
    let ghost s = joined@;
    let mut body: Vec<u8> = Vec::new();
    let mut i: usize = 0;
    loop
        invariant_except_break
            i <= joined.len(),
            s == joined@,
            named_segments_from(s, 0) == body@ + named_segments_from(s, i as int),
        ensures
            s == joined@,
            named_segments_from(s, 0) == body@,
        decreases joined.len() - i,
    {
        let j = find_byte(joined.as_slice(), 47u8, i, joined.len());
        proof {
            lemma_byte_from_shift(s, 47u8, i as int, 0);
            lemma_byte_from_bounds(s, 47u8, i as int);
        }
        assert(s.subrange(i as int, s.len() as int) == joined@.subrange(i as int, joined@.len() as int));
        assert(j == byte_from(s, 47u8, i as int));
        let ghost seg = s.subrange(i as int, j as int);
        let ghost part = if seg.len() == 0 || seg == seq![46u8] {
            Seq::<u8>::empty()
        } else {
            seq![47u8] + seg
        };
        assert(named_segments_from(s, i as int) == if j >= s.len() {
            part
        } else {
            part + named_segments_from(s, j + 1)
        });
        let ghost before = body@;
        let is_dot = j > i && j - i == 1 && joined[i] == 46u8;
        proof {
            if is_dot {
                assert(seg =~= seq![46u8]);
            }
            if seg.len() == 1 && seg == seq![46u8] {
                assert(seg[0] == joined@[i as int]);
            }
        }
        if j > i && !is_dot {
            body.push(47u8);
            extend(&mut body, joined.as_slice(), i, j);
            assert(body@ =~= before + part);
        } else {
            assert(body@ =~= before + part);
        }
        if j >= joined.len() {
            break;
        }
        assert(named_segments_from(s, 0) == body@ + named_segments_from(s, j + 1));
        i = j + 1;
    }
    if body.len() == 0 {
        let mut r: Vec<u8> = Vec::new();
        r.push(47u8);
        assert(r@ =~= seq![47u8]);
        return r;
    }
    if name.len() > 0 && name[name.len() - 1] == 47u8 {
        body.push(47u8);
        assert(name@.last() == name@[name@.len() - 1]);
    } else {
        proof {
            if name@.len() > 0 {
                assert(name@.last() == name@[name@.len() - 1]);
            }
        }
    }
    body
}

proof fn lemma_byte_from_shift(s: Seq<u8>, b: u8, i: int, k: int)
    requires
        0 <= i <= s.len(),
        0 <= k <= s.len() - i,
    ensures
        byte_from(s.subrange(i, s.len() as int), b, k) + i == byte_from(s, b, i + k),
    decreases s.len() - i - k,
{
    let t = s.subrange(i, s.len() as int);
    if k < t.len() {
        assert(t[k] == s[i + k]);
        if t[k] != b {
            lemma_byte_from_shift(s, b, i, k + 1);
        }
    }
}

fn input_rewrite_of(line: &[u8], n: usize, root: &[u8]) -> (r: Option<Vec<u8>>)
    requires
        6 <= n <= line.len(),
    ensures
        match r {
            Some(v) => input_rewrite(line@, n as int, root@) == Some(v@),
            None => input_rewrite(line@, n as int, root@) is None,
        },
{
    let ghost content = line@.subrange(0, n as int);
    let ghost record = content.subrange(6, n as int);
    assert(record =~= line@.subrange(6, n as int));
    let k = find_byte(line, 58u8, 6, n);
    if k >= n {
        return None;
    }
    let file_start = k + 1;
    proof {
        let file = record.subrange(k - 6 + 1, record.len() as int);
        assert(file =~= line@.subrange(file_start as int, n as int));
        if file.len() > 0 {
            assert(file[0] == line@[file_start as int]);
        }
    }
    if !(file_start < n && line[file_start] != 47u8) {
        return None;
    }
    let marker: Vec<u8> = vec![73u8, 110u8, 112u8, 117u8, 116u8, 58u8];
    let mut out: Vec<u8> = Vec::new();
    extend(&mut out, marker.as_slice(), 0, 6);
    extend(&mut out, line, 6, k);
    out.push(58u8);
    let file = copy_bytes(line, file_start, n);
    let abs = absolute_of(root, file.as_slice());
    extend(&mut out, abs.as_slice(), 0, abs.len());
    extend(&mut out, line, n, line.len());
    proof {
        assert(marker@.subrange(0, 6) =~= input_marker());
        assert(record.subrange(0, k - 6) =~= line@.subrange(6, k as int));
        assert(abs@.subrange(0, abs@.len() as int) =~= abs@);
    }
    Some(out)
}

fn rewrite_line_of(line: &[u8], root: &[u8], offset: usize, prev: usize) -> (r: (Vec<u8>, usize, bool))
    requires
        prev <= offset,
    ensures
        (r.0@, r.1 as nat, r.2) == rewrite_line(line@, root@, offset as nat, prev as nat),
{
    let unchanged = (copy_bytes(line, 0, line.len()), prev, false);
    assert(line@.subrange(0, line@.len() as int) =~= line@);
    if !crate::auxfile::is_utf8(line) {
        return unchanged;
    }
    let mut n = line.len();
    while n > 0 && (line[n - 1] == 10u8 || line[n - 1] == 13u8)
        invariant
            n <= line.len(),
            content_len(line@, line@.len() as int) == content_len(line@, n as int),
        decreases n,
    {
        n -= 1;
    }
    let ghost content = line@.subrange(0, n as int);
    let is_input = n >= 6 && line[0] == 73u8 && line[1] == 110u8 && line[2] == 112u8 && line[3] == 117u8 && line[4]
        == 116u8 && line[5] == 58u8;
    proof {
        if n >= 6 {
            if is_input {
                assert(content.subrange(0, 6) =~= input_marker());
            } else if content.subrange(0, 6) == input_marker() {
                assert(content.subrange(0, 6)[0] == line@[0]);
                assert(content.subrange(0, 6)[1] == line@[1]);
                assert(content.subrange(0, 6)[2] == line@[2]);
                assert(content.subrange(0, 6)[3] == line@[3]);
                assert(content.subrange(0, 6)[4] == line@[4]);
                assert(content.subrange(0, 6)[5] == line@[5]);
            }
        }
    }
    if is_input {
        return match input_rewrite_of(line, n, root) {
            Some(v) => (v, prev, true),
            None => unchanged,
        };
    }
    if n >= 1 && line[0] == 33u8 && parses_as_usize(line, 1, n) {
        let mut out: Vec<u8> = Vec::new();
        out.push(33u8);
        push_decimal_bytes(&mut out, offset - prev);
        extend(&mut out, line, n, line.len());
        proof {
            assert(content.subrange(1, n as int) =~= line@.subrange(1, n as int));
            assert(Seq::<u8>::empty().push(33u8) =~= seq![33u8]);
        }
        return (out, offset, false);
    }
    proof {
        if n >= 1 && line[0] == 33u8 {
            assert(content.subrange(1, n as int) =~= line@.subrange(1, n as int));
        }
    }
    unchanged
}

/// SyncTeX data made fit to publish beside the PDF, for a project whose
/// root is absolute: `None` where the data is not gzip data or could not be
/// compressed again.
pub fn for_publication(bytes: &[u8], root: &str) -> (r: Option<Vec<u8>>)
    requires
        root@.len() > 0 && root@[0] == '/',
    ensures
        match for_publication_of(bytes@, vstd::utf8::encode_utf8(root@)) {
            Some(published) => r matches Some(v) && v@ == published,
            None => r is None,
        },
{
    let text = match gunzip(bytes) {
        Some(t) => t,
        None => return None,
    };
    let (out, changed) = rewrite_for_publication(text.as_slice(), root);
    let compressed = match gzip(out.as_slice()) {
        Some(c) => c,
        None => return None,
    };
    if changed {
        Some(compressed)
    } else {
        Some(copy_bytes(bytes, 0, bytes.len()))
    }
}

/// The decompressed SyncTeX stream as published, for a project whose root
/// is absolute: each relative input record made absolute against the root,
/// each anchor distance recomputed for the rewritten stream, every other
/// line kept; and whether any input record changed.
pub fn rewrite_for_publication(text: &[u8], root: &str) -> (r: (Vec<u8>, bool))
    requires
        root@.len() > 0 && root@[0] == '/',
    ensures
        (r.0@, r.1) == rewrite_from(text@, vstd::utf8::encode_utf8(root@), 0, Seq::empty(), 0, false),
{
    let root_bytes = root.as_bytes();
    let ghost s = text@;
    let mut out: Vec<u8> = Vec::new();
    let mut prev: usize = 0;
    let mut changed = false;
    let mut i: usize = 0;
    while i < text.len()
        invariant
            i <= text.len(),
            s == text@,
            prev <= out@.len(),
            rewrite_from(s, root_bytes@, 0, Seq::empty(), 0, false) == rewrite_from(s, root_bytes@, i as int, out@, prev as nat, changed),
        decreases text.len() - i,
    {
        let j = find_byte(text, 10u8, i, text.len());
        proof {
            lemma_byte_from_shift(s, 10u8, i as int, 0);
            lemma_byte_from_bounds(s, 10u8, i as int);
        }
        let e = if j < text.len() { j + 1 } else { text.len() };
        let line = copy_bytes(text, i, e);
        let (new_line, prev2, ch) = rewrite_line_of(line.as_slice(), root_bytes, out.len(), prev);
        let ghost before = out@;
        extend(&mut out, new_line.as_slice(), 0, new_line.len());
        assert(new_line@.subrange(0, new_line@.len() as int) =~= new_line@);
        assert(out@ == before + new_line@);
        prev = prev2;
        changed = changed || ch;
        i = e;
    }
    (out, changed)
}

} // verus!
