//! The build fingerprint that lets an unchanged project skip a rebuild: a
//! digest of every input a rebuild would read (the manifest, the toolchain
//! identity, the pinned timestamp, the composite lock and every project
//! file the lock names), and the record of what the last build published.
use vstd::prelude::*;
use vstd::utf8::encode_utf8;
use crate::digest::{digest, digest_form, digest_text};
use crate::order::{insert_text, texts_of, texts_sorted};
use crate::paths::{relative_or_original, relative_or_original_of, segments, split_segments, texts_view};
use crate::setup::{join_path, join_path_of};
use crate::text::chars_of;

verus! {

pub const STATE_SCHEMA: &'static str = "texe.build-state/v1";

pub const STATE_NAME: &'static str = "build-state.json";

/// A file the build published, project-relative, with its digest when the
/// build finished.
#[derive(Debug, Clone)]
pub struct OutputDigest {
    pub path: String,
    pub digest: String,
}

/// What a successful build records for the next one.
#[derive(Debug, Clone)]
pub struct BuildState {
    pub schema: String,
    pub generated_with: String,
    pub fingerprint: String,
    pub environment_fingerprint: String,
    pub outputs: Vec<OutputDigest>,
}

/// A recorded state is usable only under the schema this texe writes.
pub fn accept_state(state: BuildState) -> (r: Option<BuildState>)
    ensures
        state.schema@ == STATE_SCHEMA@ ==> r == Some(state),
        state.schema@ != STATE_SCHEMA@ ==> r is None,
{
    if crate::text::eq_str(&chars_of(state.schema.as_str()), STATE_SCHEMA) {
        Some(state)
    } else {
        None
    }
}

/// The views of the published outputs: each path made project-relative
/// where it lies in the project, and the digest of its bytes.
pub open spec fn recorded_outputs(root: Seq<char>, outputs: Seq<(String, Vec<u8>)>) -> Seq<(Seq<char>, Seq<char>)> {
    outputs.map_values(|o: (String, Vec<u8>)| (relative_or_original(root, o.0@), digest_text(o.1@)))
}

pub open spec fn digests_view(v: Seq<OutputDigest>) -> Seq<(Seq<char>, Seq<char>)> {
    v.map_values(|o: OutputDigest| (o.path@, o.digest@))
}

/// The state a build records, from the outputs it published and their
/// bytes.
pub fn new_state(
    version: &str,
    fingerprint: &str,
    environment_fingerprint: &str,
    project_root: &str,
    outputs: &Vec<(String, Vec<u8>)>,
) -> (r: BuildState)
    ensures
        r.schema@ == STATE_SCHEMA@,
        r.generated_with@ == "texe/"@ + version@,
        r.fingerprint@ == fingerprint@,
        r.environment_fingerprint@ == environment_fingerprint@,
        digests_view(r.outputs@) == recorded_outputs(project_root@, outputs@),
{
    let mut recorded: Vec<OutputDigest> = Vec::new();
    let mut i: usize = 0;
    while i < outputs.len()
        invariant
            i <= outputs.len(),
            digests_view(recorded@) == recorded_outputs(project_root@, outputs@).subrange(0, i as int),
        decreases outputs.len() - i,
    {
        let ghost before = digests_view(recorded@);
        let path = relative_or_original_of(project_root, outputs[i].0.as_str());
        let d = digest(outputs[i].1.as_slice());
        recorded.push(OutputDigest { path, digest: d });
        assert(digests_view(recorded@) =~= before.push((relative_or_original(project_root@, outputs@[i as int].0@), digest_text(outputs@[i as int].1@))));
        assert(recorded_outputs(project_root@, outputs@).subrange(0, i + 1) =~= recorded_outputs(project_root@, outputs@).subrange(0, i as int).push(recorded_outputs(project_root@, outputs@)[i as int]));
        i += 1;
    }
    assert(recorded_outputs(project_root@, outputs@).subrange(0, outputs@.len() as int) =~= recorded_outputs(project_root@, outputs@));
    let mut generated_with = String::from_str("texe/");
    generated_with.append(version);
    BuildState {
        schema: String::from_str(STATE_SCHEMA),
        generated_with,
        fingerprint: String::from_str(fingerprint),
        environment_fingerprint: String::from_str(environment_fingerprint),
        outputs: recorded,
    }
}

/// A locked path names a file in the project: it is relative, not empty,
/// and no component leaves the directory it starts from.
pub open spec fn locked_project_path(path: Seq<char>) -> bool {
    let s = segments(path);
    &&& path.len() > 0
    &&& path[0] != '/'
    &&& s[0] != seq!['.']
    &&& forall|i: int| 0 <= i < s.len() ==> #[trigger] s[i] != seq!['.', '.']
}

/// The project file a locked path names; one that could reach outside the
/// project names none.
pub fn project_file(project_root: &str, path: &str) -> (r: Option<String>)
    ensures
        locked_project_path(path@) ==> (r matches Some(p) && p@ == join_path(project_root@, path@)),
        !locked_project_path(path@) ==> r is None,
{
    let p = chars_of(path);
    assert(p@ == path@);
    if p.len() == 0 || p[0] == '/' {
        return None;
    }
    let segs = split_segments(&p);
    let ghost sv = texts_view(segs@);
    assert(sv == segments(path@));
    assert(sv[0] == segs@[0]@);
    if segs[0].len() == 1 && segs[0][0] == '.' {
        assert(segs@[0]@ =~= seq!['.']);
        return None;
    }
    assert(segs@[0]@ != seq!['.']) by {
        if segs@[0]@ == seq!['.'] {
            assert(segs@[0]@.len() == 1 && segs@[0]@[0] == segs[0][0]);
        }
    }
    let mut i: usize = 0;
    while i < segs.len()
        invariant
            i <= segs.len(),
            sv == texts_view(segs@),
            sv == segments(path@),
            forall|k: int| 0 <= k < i ==> #[trigger] sv[k] != seq!['.', '.'],
        decreases segs.len() - i,
    {
        assert(sv[i as int] == segs@[i as int]@);
        if segs[i].len() == 2 && segs[i][0] == '.' && segs[i][1] == '.' {
            assert(segs@[i as int]@ =~= seq!['.', '.']);
            return None;
        }
        assert(segs@[i as int]@ != seq!['.', '.']) by {
            if segs@[i as int]@ == seq!['.', '.'] {
                assert(segs@[i as int]@[0] == segs[i as int][0] && segs@[i as int]@[1] == segs[i as int][1]);
            }
        }
        i += 1;
    }
    Some(join_path_of(project_root, path))
}

/// The files the composite lock names, as read from it: the root source,
/// the scanned sources, and the resolved paths of its inputs, graphics and
/// bibliographies.
#[derive(Debug, Clone)]
pub struct LockedPaths {
    pub root: Option<String>,
    pub sources: Vec<String>,
    pub resolved: Vec<String>,
}

pub open spec fn all_locked(l: LockedPaths) -> Seq<Seq<char>> {
    (match l.root {
        Some(r) => seq![r@],
        None => Seq::empty(),
    }) + texts_of(l.sources@) + texts_of(l.resolved@)
}

fn insert_all(set: &mut Vec<String>, items: &Vec<String>)
    requires
        texts_sorted(texts_of(old(set)@)),
    ensures
        texts_sorted(texts_of(final(set)@)),
        texts_of(final(set)@).to_set() == texts_of(old(set)@).to_set() + texts_of(items@).to_set(),
{
    let ghost start = texts_of(set@).to_set();
    let mut i: usize = 0;
    while i < items.len()
        invariant
            i <= items.len(),
            texts_sorted(texts_of(set@)),
            texts_of(set@).to_set() == start + texts_of(items@).subrange(0, i as int).to_set(),
        decreases items.len() - i,
    {
        insert_text(set, String::from_str(items[i].as_str()));
        proof {
            let t = texts_of(items@);
            assert(t.subrange(0, i + 1) == t.subrange(0, i as int).push(t[i as int]));
            t.subrange(0, i as int).lemma_push_to_set_commute(t[i as int]);
            assert(t[i as int] == items@[i as int]@);
            assert(start + t.subrange(0, i + 1).to_set() =~= (start + t.subrange(0, i as int).to_set()).insert(t[i as int]));
        }
        i += 1;
    }
    assert(texts_of(items@).subrange(0, items@.len() as int) == texts_of(items@));
}

/// Every project file the lock names, once each, in `String` order.
pub fn locked_project_files(locked: &LockedPaths) -> (r: Vec<String>)
    ensures
        texts_sorted(texts_of(r@)),
        texts_of(r@).to_set() == all_locked(*locked).to_set(),
{
    let mut set: Vec<String> = Vec::new();
    let ghost root_part: Seq<Seq<char>> = all_locked(*locked).subrange(0, if locked.root is Some { 1int } else { 0int });
    match &locked.root {
        Some(r) => {
            insert_text(&mut set, String::from_str(r.as_str()));
        },
        None => {},
    }
    proof {
        if locked.root is Some {
            assert(root_part =~= seq![locked.root->0@]);
            Seq::<Seq<char>>::empty().lemma_push_to_set_commute(locked.root->0@);
            assert(seq![locked.root->0@] =~= Seq::<Seq<char>>::empty().push(locked.root->0@));
        } else {
            assert(root_part =~= Seq::<Seq<char>>::empty());
        }
        assert(texts_of(set@).to_set() =~= root_part.to_set());
    }
    insert_all(&mut set, &locked.sources);
    insert_all(&mut set, &locked.resolved);
    proof {
        let a = root_part;
        let b = texts_of(locked.sources@);
        let c = texts_of(locked.resolved@);
        assert((a + b + c).to_set() =~= a.to_set() + b.to_set() + c.to_set()) by {
            vstd::seq_lib::seq_to_set_distributes_over_add(a, b);
            vstd::seq_lib::seq_to_set_distributes_over_add(a + b, c);
        }
    }
    set
}

/// The `k` low bytes of `n`, least significant first (`u64::to_le_bytes`
/// for `k` = 8).
pub open spec fn le_bytes(n: nat, k: nat) -> Seq<u8>
    decreases k,
{
    if k == 0 {
        Seq::empty()
    } else {
        seq![(n % 256) as u8] + le_bytes(n / 256, (k - 1) as nat)
    }
}

/// What the fingerprint says of a locked file's contents: the digest of
/// its bytes, or `absent`.
pub open spec fn record_text(content: Option<Seq<u8>>) -> Seq<char> {
    match content {
        Some(b) => digest_text(b),
        None => "absent"@,
    }
}

/// What the fingerprint records of one locked file: its path, and the
/// digest of its bytes or `absent`, each closed by a NUL byte.
pub open spec fn file_record(path: Seq<char>, content: Option<Seq<u8>>) -> Seq<u8> {
    encode_utf8(path) + seq![0u8] + encode_utf8(record_text(content)) + seq![0u8]
}

pub open spec fn file_records(files: Seq<(Seq<char>, Option<Seq<u8>>)>) -> Seq<u8>
    decreases files.len(),
{
    if files.len() == 0 {
        Seq::empty()
    } else {
        file_records(files.drop_last()) + file_record(files.last().0, files.last().1)
    }
}

pub open spec fn contents_view(files: Seq<(String, Option<Vec<u8>>)>) -> Seq<(Seq<char>, Option<Seq<u8>>)> {
    files.map_values(
        |f: (String, Option<Vec<u8>>)|
            (
                f.0@,
                match f.1 {
                    Some(b) => Some(b@),
                    None => None,
                },
            ),
    )
}

/// Everything the fingerprint digests, in order: the state schema, texe's
/// version, the timestamp, the manifest and toolchain identity as canonical
/// JSON, the command suite's fingerprint, the lock, and the locked files.
pub open spec fn fingerprint_input(
    version: Seq<char>,
    source_date_epoch: u64,
    manifest_json: Seq<u8>,
    toolchain_json: Seq<u8>,
    command_suite_fingerprint: Seq<char>,
    lock: Seq<u8>,
    files: Seq<(Seq<char>, Option<Seq<u8>>)>,
) -> Seq<u8> {
    encode_utf8(STATE_SCHEMA@) + encode_utf8(version) + le_bytes(source_date_epoch as nat, 8) + manifest_json
        + toolchain_json + encode_utf8(command_suite_fingerprint) + lock + file_records(files)
}

/// `256` to the power `k`: the numbers that `k` little-endian bytes hold.
pub open spec fn byte_range(k: nat) -> nat
    decreases k,
{
    if k == 0 {
        1
    } else {
        256 * byte_range((k - 1) as nat)
    }
}

pub proof fn lemma_le_bytes_len(n: nat, k: nat)
    ensures
        le_bytes(n, k).len() == k,
    decreases k,
{
    if k > 0 {
        lemma_le_bytes_len(n / 256, (k - 1) as nat);
    }
}

/// Numbers that `k` bytes hold have distinct `k`-byte encodings.
pub proof fn lemma_le_bytes_injective(a: nat, b: nat, k: nat)
    requires
        a < byte_range(k),
        b < byte_range(k),
        le_bytes(a, k) == le_bytes(b, k),
    ensures
        a == b,
    decreases k,
{
    if k > 0 {
        let r = byte_range((k - 1) as nat);
        lemma_le_bytes_len(a / 256, (k - 1) as nat);
        lemma_le_bytes_len(b / 256, (k - 1) as nat);
        assert(le_bytes(a, k)[0] == le_bytes(b, k)[0]);
        assert(le_bytes(a, k)[0] == (a % 256) as u8);
        assert(le_bytes(b, k)[0] == (b % 256) as u8);
        assert(a % 256 == b % 256);
        assert(le_bytes(a, k).subrange(1, k as int) =~= le_bytes(a / 256, (k - 1) as nat));
        assert(le_bytes(b, k).subrange(1, k as int) =~= le_bytes(b / 256, (k - 1) as nat));
        assert(a / 256 < r) by (nonlinear_arith)
            requires
                a < 256 * r,
        ;
        assert(b / 256 < r) by (nonlinear_arith)
            requires
                b < 256 * r,
        ;
        lemma_le_bytes_injective(a / 256, b / 256, (k - 1) as nat);
        vstd::arithmetic::div_mod::lemma_fundamental_div_mod(a as int, 256);
        vstd::arithmetic::div_mod::lemma_fundamental_div_mod(b as int, 256);
    } else {
        assert(byte_range(0) == 1);
    }
}

/// The encoded contents of a record hold no NUL byte.
pub proof fn lemma_record_text_bytes(content: Option<Seq<u8>>)
    ensures
        forall|j: int| 0 <= j < encode_utf8(record_text(content)).len() ==> #[trigger] encode_utf8(record_text(content))[j] != 0u8,
{
    let t = record_text(content);
    reveal_strlit("absent");
    reveal_strlit("sha256:");
    assert(forall|i: int| 0 <= i < t.len() ==> '0' <= #[trigger] t[i] <= 'z') by {
        match content {
            Some(b) => {
                crate::digest::lemma_hex_text(crate::digest::sha256(b));
                let h = crate::digest::hex_text(crate::digest::sha256(b));
                assert forall|i: int| 0 <= i < t.len() implies '0' <= #[trigger] t[i] <= 'z' by {
                    if i >= 7 {
                        assert(t[i] == h[i - 7]);
                        assert(crate::digest::is_lower_hex(h[i - 7]));
                    }
                }
            },
            None => {},
        }
    }
    assert(vstd::utf8::is_ascii_chars(t));
    vstd::utf8::is_ascii_chars_encode_utf8(t);
    assert forall|j: int| 0 <= j < encode_utf8(t).len() implies #[trigger] encode_utf8(t)[j] != 0u8 by {
        assert(t[j] as u8 == encode_utf8(t)[j]);
        assert('0' <= t[j] <= 'z');
    }
}

/// Two byte strings that end in the same NUL-closed record of a path and
/// a NUL-free text agree on the text and on what precedes the record.
pub proof fn lemma_last_record_split(x1: Seq<u8>, x2: Seq<u8>, pe: Seq<u8>, e1: Seq<u8>, e2: Seq<u8>)
    requires
        x1 + (pe + seq![0u8] + e1 + seq![0u8]) == x2 + (pe + seq![0u8] + e2 + seq![0u8]),
        forall|j: int| 0 <= j < e1.len() ==> #[trigger] e1[j] != 0u8,
        forall|j: int| 0 <= j < e2.len() ==> #[trigger] e2[j] != 0u8,
    ensures
        e1 == e2,
        x1 == x2,
{
    let t = x1 + (pe + seq![0u8] + e1 + seq![0u8]);
    let u = x2 + (pe + seq![0u8] + e2 + seq![0u8]);
    let n = t.len() as int;
    let k1 = e1.len() as int;
    let k2 = e2.len() as int;
    assert(t[n - 2 - k1] == 0u8);
    assert(u[n - 2 - k2] == 0u8);
    if k1 < k2 {
        assert(u[n - 2 - k1] == e2[(n - 2 - k1) - (n - 1 - k2)]);
        assert(false);
    }
    if k2 < k1 {
        assert(t[n - 2 - k2] == e1[(n - 2 - k2) - (n - 1 - k1)]);
        assert(false);
    }
    assert(e1 =~= t.subrange(n - 1 - k1, n - 1));
    assert(e2 =~= u.subrange(n - 1 - k2, n - 1));
    assert(x1 =~= t.subrange(0, x1.len() as int));
    assert(x2 =~= u.subrange(0, x2.len() as int));
}

/// Two lists of locked files under the same paths record the same
/// contents wherever their records agree.
pub proof fn lemma_file_records_tell_apart(
    f1: Seq<(Seq<char>, Option<Seq<u8>>)>,
    f2: Seq<(Seq<char>, Option<Seq<u8>>)>,
)
    requires
        f1.len() == f2.len(),
        forall|i: int| 0 <= i < f1.len() ==> #[trigger] f1[i].0 == f2[i].0,
        file_records(f1) == file_records(f2),
    ensures
        forall|i: int| 0 <= i < f1.len() ==> #[trigger] record_text(f1[i].1) == record_text(f2[i].1),
    decreases f1.len(),
{
    if f1.len() > 0 {
        let a = f1.drop_last();
        let b = f2.drop_last();
        let p = f1.last().0;
        assert(f2.last().0 == p);
        let c1 = f1.last().1;
        let c2 = f2.last().1;
        let pe = encode_utf8(p);
        assert(file_records(f1) == file_records(a) + file_record(p, c1));
        assert(file_records(f2) == file_records(b) + file_record(p, c2));
        lemma_record_text_bytes(c1);
        lemma_record_text_bytes(c2);
        lemma_last_record_split(file_records(a), file_records(b), pe, encode_utf8(record_text(c1)), encode_utf8(record_text(c2)));
        vstd::utf8::encode_utf8_decode_utf8(record_text(c1));
        vstd::utf8::encode_utf8_decode_utf8(record_text(c2));
        assert forall|i: int| 0 <= i < a.len() implies #[trigger] a[i].0 == b[i].0 by {
            assert(a[i] == f1[i] && b[i] == f2[i]);
        }
        lemma_file_records_tell_apart(a, b);
        assert forall|i: int| 0 <= i < f1.len() implies #[trigger] record_text(f1[i].1) == record_text(f2[i].1) by {
            if i < a.len() {
                assert(a[i] == f1[i] && b[i] == f2[i]);
                assert(record_text(a[i].1) == record_text(b[i].1));
            }
        }
    }
}

pub(crate) fn append_bytes(v: &mut Vec<u8>, more: &[u8])
    ensures
        final(v)@ == old(v)@ + more@,
{
    let ghost before = v@;
    let mut i: usize = 0;
    while i < more.len()
        invariant
            i <= more.len(),
            v@ == before + more@.subrange(0, i as int),
        decreases more.len() - i,
    {
        v.push(more[i]);
        assert(more@.subrange(0, i + 1) == more@.subrange(0, i as int).push(more@[i as int]));
        i += 1;
    }
    assert(more@.subrange(0, more@.len() as int) == more@);
}

fn append_text(v: &mut Vec<u8>, s: &str)
    ensures
        final(v)@ == old(v)@ + encode_utf8(s@),
{
    append_bytes(v, s.as_bytes());
}

pub(crate) fn append_le_bytes(v: &mut Vec<u8>, n: u64, width: u64)
    ensures
        final(v)@ == old(v)@ + le_bytes(n as nat, width as nat),
{
    let ghost before = v@;
    let mut x: u64 = n;
    let mut k: u64 = 0;
    while k < width
        invariant
            k <= width,
            before + le_bytes(n as nat, width as nat) == v@ + le_bytes(x as nat, (width - k) as nat),
        decreases width - k,
    {
        let ghost prev = v@;
        v.push((x % 256) as u8);
        assert(le_bytes(x as nat, (width - k) as nat) == seq![(x % 256) as u8] + le_bytes((x / 256) as nat, (width - k - 1) as nat));
        assert(prev + le_bytes(x as nat, (width - k) as nat) =~= v@ + le_bytes((x / 256) as nat, (width - k - 1) as nat));
        x = x / 256;
        k += 1;
    }
    assert(le_bytes(x as nat, 0) =~= Seq::<u8>::empty());
    assert(v@ + Seq::<u8>::empty() =~= v@);
}

/// Whether `serde_json` reads the bytes as a JSON value.
pub uninterp spec fn json_parses(bytes: Seq<u8>) -> bool;

/// `serde_json::from_slice::<serde_json::Value>(bytes).is_ok()`: whether
/// the bytes are one JSON value, which depends on the bytes alone.
#[verifier::external_body]
fn parses_as_json(bytes: &[u8]) -> (r: bool)
    ensures
        r == json_parses(bytes@),
{
    serde_json::from_slice::<serde_json::Value>(bytes).is_ok()
}

/// The build fingerprint: the digest of everything a rebuild would read,
/// or `None` where the project has no composite lock (`lock` is `None`,
/// nothing could be read) or the lock is not JSON, which is exactly when
/// there is nothing to reuse. `files` are the locked project files in
/// order, each with its bytes, or `None` where it is absent.
pub fn build_fingerprint(
    version: &str,
    source_date_epoch: u64,
    manifest_json: &[u8],
    toolchain_json: &[u8],
    command_suite_fingerprint: &str,
    lock: Option<&[u8]>,
    files: &Vec<(String, Option<Vec<u8>>)>,
) -> (r: Option<String>)
    ensures
        match lock {
            Some(l) => if json_parses(l@) {
                r matches Some(f) && f@ == digest_text(
                    fingerprint_input(
                        version@,
                        source_date_epoch,
                        manifest_json@,
                        toolchain_json@,
                        command_suite_fingerprint@,
                        l@,
                        contents_view(files@),
                    ),
                ) && digest_form(f@)
            } else {
                r is None
            },
            None => r is None,
        },
{
    match lock {
        Some(l) => if parses_as_json(l) {
            Some(fingerprint_digest(version, source_date_epoch, manifest_json, toolchain_json, command_suite_fingerprint, l, files))
        } else {
            None
        },
        None => None,
    }
}

fn fingerprint_digest(
    version: &str,
    source_date_epoch: u64,
    manifest_json: &[u8],
    toolchain_json: &[u8],
    command_suite_fingerprint: &str,
    lock: &[u8],
    files: &Vec<(String, Option<Vec<u8>>)>,
) -> (r: String)
    ensures
        r@ == digest_text(
            fingerprint_input(
                version@,
                source_date_epoch,
                manifest_json@,
                toolchain_json@,
                command_suite_fingerprint@,
                lock@,
                contents_view(files@),
            ),
        ),
        digest_form(r@),
{
    let mut input: Vec<u8> = Vec::new();
    append_text(&mut input, STATE_SCHEMA);
    append_text(&mut input, version);
    append_le_bytes(&mut input, source_date_epoch, 8);
    append_bytes(&mut input, manifest_json);
    append_bytes(&mut input, toolchain_json);
    append_text(&mut input, command_suite_fingerprint);
    append_bytes(&mut input, lock);
    let ghost head = input@;
    let ghost fv = contents_view(files@);
    let mut i: usize = 0;
    while i < files.len()
        invariant
            i <= files.len(),
            fv == contents_view(files@),
            input@ == head + file_records(fv.subrange(0, i as int)),
        decreases files.len() - i,
    {
        let ghost prev = input@;
        append_text(&mut input, files[i].0.as_str());
        input.push(0u8);
        match &files[i].1 {
            Some(bytes) => {
                let d = digest(bytes.as_slice());
                append_text(&mut input, d.as_str());
            },
            None => {
                append_text(&mut input, "absent");
            },
        }
        input.push(0u8);
        proof {
            let sub = fv.subrange(0, i + 1);
            assert(sub.drop_last() =~= fv.subrange(0, i as int));
            assert(sub.last() == fv[i as int]);
            assert(input@ =~= prev + file_record(fv[i as int].0, fv[i as int].1));
        }
        i += 1;
    }
    assert(fv.subrange(0, fv.len() as int) == fv);
    digest(input.as_slice())
}

/// A recorded output still holds: its path stays in the project and the
/// file is there, not empty, with the recorded digest.
pub open spec fn output_holds(o: OutputDigest, content: Option<Seq<u8>>) -> bool {
    &&& locked_project_path(o.path@)
    &&& content matches Some(b)
    &&& b.len() > 0
    &&& digest_text(b) == o.digest@
}

/// Confirms that every recorded output is still on disk with the bytes the
/// build left there (each given with what reading it gave, `None` where it
/// could not be read), and returns the primary artifact: the first output.
pub fn verify_outputs(project_root: &str, checks: &Vec<(OutputDigest, Option<Vec<u8>>)>) -> (r: Option<String>)
    ensures
        (checks@.len() > 0 && forall|i: int|
            0 <= i < checks@.len() ==> output_holds(
                #[trigger] checks@[i].0,
                match checks@[i].1 {
                    Some(b) => Some(b@),
                    None => None,
                },
            )) ==> (r matches Some(p) && p@ == join_path(project_root@, checks@[0].0.path@)),
        !(checks@.len() > 0 && forall|i: int|
            0 <= i < checks@.len() ==> output_holds(
                #[trigger] checks@[i].0,
                match checks@[i].1 {
                    Some(b) => Some(b@),
                    None => None,
                },
            )) ==> r is None,
{
    let mut artifact: Option<String> = None;
    let mut i: usize = 0;
    while i < checks.len()
        invariant
            i <= checks.len(),
            forall|k: int|
                0 <= k < i ==> output_holds(
                    #[trigger] checks@[k].0,
                    match checks@[k].1 {
                        Some(b) => Some(b@),
                        None => None,
                    },
                ),
            i == 0 ==> artifact is None,
            i > 0 ==> (artifact matches Some(p) && p@ == join_path(project_root@, checks@[0].0.path@)),
        decreases checks.len() - i,
    {
        let path = match project_file(project_root, checks[i].0.path.as_str()) {
            Some(p) => p,
            None => return None,
        };
        let ok = match &checks[i].1 {
            Some(bytes) => {
                if bytes.len() == 0 {
                    false
                } else {
                    let d = digest(bytes.as_slice());
                    crate::text::eq_str(&chars_of(d.as_str()), checks[i].0.digest.as_str())
                }
            },
            None => false,
        };
        if !ok {
            return None;
        }
        if i == 0 {
            artifact = Some(path);
        }
        i += 1;
    }
    artifact
}

} // verus!
