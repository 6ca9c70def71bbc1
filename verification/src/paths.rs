//! Project-relative paths, written with `/` separators, and the component
//! model that `Path` comparisons use for them.
use vstd::prelude::*;
use crate::text::{chars_of, contains, contains_str, ends_with, has_char, slice_of};

verus! {

/// The first index at or after `i` that holds `/`, or the length.
pub open spec fn slash_from(s: Seq<char>, i: int) -> int
    decreases s.len() - i,
{
    if i < 0 || i >= s.len() {
        s.len() as int
    } else if s[i] == '/' {
        i
    } else {
        slash_from(s, i + 1)
    }
}

pub proof fn lemma_slash_from_bounds(s: Seq<char>, i: int)
    requires
        0 <= i <= s.len(),
    ensures
        i <= slash_from(s, i) <= s.len(),
    decreases s.len() - i,
{
    if i < s.len() && s[i] != '/' {
        lemma_slash_from_bounds(s, i + 1);
    }
}

/// The `/`-separated segments of `s` from index `i` on, empty ones included.
pub open spec fn segments_from(s: Seq<char>, i: int) -> Seq<Seq<char>>
    decreases s.len() - i,
{
    if i < 0 || i > s.len() {
        Seq::empty()
    } else {
        let j = slash_from(s, i);
        proof {
            lemma_slash_from_bounds(s, i);
        }
        if j >= s.len() {
            seq![s.subrange(i, s.len() as int)]
        } else {
            seq![s.subrange(i, j)] + segments_from(s, j + 1)
        }
    }
}

/// `s.split('/')`.
pub open spec fn segments(s: Seq<char>) -> Seq<Seq<char>> {
    segments_from(s, 0)
}

/// The segments other than `.`, which `Path::components` normalizes away
/// (past the first one).
pub open spec fn drop_dots(segs: Seq<Seq<char>>) -> Seq<Seq<char>>
    decreases segs.len(),
{
    if segs.len() == 0 {
        segs
    } else if segs.last() == seq!['.'] {
        drop_dots(segs.drop_last())
    } else {
        drop_dots(segs.drop_last()).push(segs.last())
    }
}

/// The components of a portable relative path.
pub open spec fn components(s: Seq<char>) -> Seq<Seq<char>> {
    drop_dots(segments(s))
}

pub open spec fn texts_view(v: Seq<Vec<char>>) -> Seq<Seq<char>> {
    v.map_values(|t: Vec<char>| t@)
}

/// `s.split('/')`.
pub fn split_segments(s: &Vec<char>) -> (r: Vec<Vec<char>>)
    ensures
        texts_view(r@) == segments(s@),
        r@.len() > 0,
{
    let mut r: Vec<Vec<char>> = Vec::new();
    let mut i: usize = 0;
    loop
        invariant
            i <= s.len(),
            segments(s@) == texts_view(r@) + segments_from(s@, i as int),
        decreases s.len() - i,
    {
        let mut j = i;
        while j < s.len() && s[j] != '/'
            invariant
                i <= j <= s.len(),
                slash_from(s@, i as int) == slash_from(s@, j as int),
            decreases s.len() - j,
        {
            j += 1;
        }
        let seg = slice_of(s, i, j);
        let ghost before = texts_view(r@);
        r.push(seg);
        assert(texts_view(r@) == before.push(seg@));
        if j == s.len() {
            assert(segments_from(s@, i as int) == seq![seg@]);
            return r;
        }
        assert(segments_from(s@, i as int) == seq![seg@] + segments_from(s@, j + 1));
        i = j + 1;
    }
}

/// The components of a portable relative path.
pub fn path_components(s: &Vec<char>) -> (r: Vec<Vec<char>>)
    ensures
        texts_view(r@) == components(s@),
{
    let segs = split_segments(s);
    let mut r: Vec<Vec<char>> = Vec::new();
    let mut i: usize = 0;
    while i < segs.len()
        invariant
            i <= segs.len(),
            texts_view(r@) == drop_dots(texts_view(segs@).subrange(0, i as int)),
        decreases segs.len() - i,
    {
        proof {
            let t = texts_view(segs@).subrange(0, i + 1);
            assert(t.drop_last() == texts_view(segs@).subrange(0, i as int));
            assert(t.last() == segs@[i as int]@);
        }
        let is_dot = segs[i].len() == 1 && segs[i][0] == '.';
        proof {
            if is_dot {
                assert(segs@[i as int]@ =~= seq!['.']);
            } else if segs@[i as int]@ == seq!['.'] {
                assert(segs@[i as int]@.len() == 1);
                assert(segs@[i as int]@[0] == '.');
            }
        }
        if !is_dot {
            let ghost before = texts_view(r@);
            r.push(slice_of(&segs[i], 0, segs[i].len()));
            assert(segs@[i as int]@.subrange(0, segs@[i as int]@.len() as int) == segs@[i as int]@);
            assert(texts_view(r@) == before.push(segs@[i as int]@));
        }
        i += 1;
    }
    assert(texts_view(segs@).subrange(0, segs@.len() as int) == texts_view(segs@));
    r
}

/// `char::is_control`: the Unicode `Cc` category.
pub open spec fn is_control(c: char) -> bool {
    (c as u32) < 0x20 || (0x7f <= (c as u32) && (c as u32) < 0xa0)
}

pub open spec fn has_control(s: Seq<char>) -> bool {
    exists|i: int| 0 <= i < s.len() && is_control(#[trigger] s[i])
}

pub open spec fn is_ascii_alpha(c: char) -> bool {
    ('a' <= c && c <= 'z') || ('A' <= c && c <= 'Z')
}

/// An absolute path or an empty one.
pub open spec fn empty_or_absolute(s: Seq<char>) -> bool {
    s.len() == 0 || s[0] == '/'
}

/// A path that every supported platform reads as the same project-relative
/// path: no drive letter, backslash, empty component, trailing slash,
/// control character, leading `.` or any `..`.
pub open spec fn portable_components(s: Seq<char>) -> bool {
    &&& !(s.len() >= 2 && is_ascii_alpha(s[0]) && s[1] == ':')
    &&& !s.contains('\\')
    &&& !contains(s, "//"@)
    &&& !ends_with(s, "/"@)
    &&& !has_control(s)
    &&& segments(s)[0] != seq!['.']
    &&& !segments(s).contains(seq!['.', '.'])
}

pub fn is_empty_or_absolute(s: &Vec<char>) -> (b: bool)
    ensures
        b == empty_or_absolute(s@),
{
    s.len() == 0 || s[0] == '/'
}

fn any_control(s: &Vec<char>) -> (b: bool)
    ensures
        b == has_control(s@),
{
    let mut i: usize = 0;
    while i < s.len()
        invariant
            i <= s.len(),
            forall|j: int| 0 <= j < i ==> !is_control(#[trigger] s@[j]),
        decreases s.len() - i,
    {
        let c = s[i] as u32;
        if c < 0x20 || (0x7f <= c && c < 0xa0) {
            return true;
        }
        i += 1;
    }
    false
}

pub fn has_portable_components(s: &Vec<char>) -> (b: bool)
    ensures
        b == portable_components(s@),
{
    if s.len() >= 2 && (('a' <= s[0] && s[0] <= 'z') || ('A' <= s[0] && s[0] <= 'Z')) && s[1] == ':' {
        return false;
    }
    if has_char(s, '\\') || contains_str(s, "//") || any_control(s) {
        return false;
    }
    if s.len() > 0 && s[s.len() - 1] == '/' {
        proof {
            reveal_strlit("/");
            assert("/"@ =~= seq!['/']);
            assert(s@.subrange(s.len() - 1, s.len() as int) =~= seq!['/']);
        }
        return false;
    }
    proof {
        reveal_strlit("/");
        if s.len() > 0 {
            assert(s@.subrange(s.len() - 1, s.len() as int)[0] == s@[s.len() - 1]);
        }
    }
    let segs = split_segments(s);
    assert(segs@[0]@ == segments(s@)[0]);
    if segs[0].len() == 1 && segs[0][0] == '.' {
        assert(segs@[0]@ =~= seq!['.']);
        return false;
    }
    let mut i: usize = 0;
    while i < segs.len()
        invariant
            i <= segs.len(),
            texts_view(segs@) == segments(s@),
            forall|j: int| 0 <= j < i ==> texts_view(segs@)[j] != seq!['.', '.'],
        decreases segs.len() - i,
    {
        let dots = segs[i].len() == 2 && segs[i][0] == '.' && segs[i][1] == '.';
        if dots {
            assert(segs@[i as int]@ =~= seq!['.', '.']);
            assert(texts_view(segs@)[i as int] == seq!['.', '.']);
            return false;
        }
        assert(segs@[i as int]@ != seq!['.', '.']) by {
            if segs@[i as int]@ == seq!['.', '.'] {
                assert(segs@[i as int]@.len() == 2);
            }
        }
        i += 1;
    }
    true
}

/// `left` and `right` name the same path, or one lies inside the other.
pub open spec fn overlap(left: Seq<char>, right: Seq<char>) -> bool {
    components(left).is_prefix_of(components(right)) || components(right).is_prefix_of(components(left))
}

fn is_prefix_components(a: &Vec<Vec<char>>, b: &Vec<Vec<char>>) -> (r: bool)
    ensures
        r == texts_view(a@).is_prefix_of(texts_view(b@)),
{
    if a.len() > b.len() {
        return false;
    }
    let mut i: usize = 0;
    while i < a.len()
        invariant
            i <= a.len() <= b.len(),
            forall|j: int| 0 <= j < i ==> texts_view(a@)[j] == texts_view(b@)[j],
        decreases a.len() - i,
    {
        if !crate::text::seq_eq(&a[i], &b[i]) {
            assert(texts_view(a@)[i as int] != texts_view(b@)[i as int]);
            return false;
        }
        i += 1;
    }
    assert(texts_view(a@) =~= texts_view(b@).subrange(0, texts_view(a@).len() as int));
    true
}

pub fn paths_overlap(left: &str, right: &str) -> (r: bool)
    ensures
        r == overlap(left@, right@),
{
    let l = path_components(&chars_of(left));
    let r = path_components(&chars_of(right));
    is_prefix_components(&l, &r) || is_prefix_components(&r, &l)
}

/// Two paths are the same path.
pub open spec fn same_path(left: Seq<char>, right: Seq<char>) -> bool {
    components(left) == components(right)
}

pub fn paths_equal(left: &str, right: &str) -> (r: bool)
    ensures
        r == same_path(left@, right@),
{
    let l = path_components(&chars_of(left));
    let r = path_components(&chars_of(right));
    let a = is_prefix_components(&l, &r);
    let b = is_prefix_components(&r, &l);
    proof {
        if a && b {
            assert(texts_view(l@) =~= texts_view(r@));
        }
    }
    a && b
}


/// The components `Path::components` gives for a path: `/` stands for the
/// root of an absolute path, empty segments and `.` past the start are
/// dropped.
pub open spec fn norm_components(s: Seq<char>) -> Seq<Seq<char>> {
    let segs = segments(s);
    let rest = keep_named(segs.drop_first());
    if s.len() > 0 && s[0] == '/' {
        seq![seq!['/']] + rest
    } else if segs[0] == seq!['.'] {
        seq![seq!['.']] + rest
    } else if segs[0].len() == 0 {
        rest
    } else {
        seq![segs[0]] + rest
    }
}

/// The segments that are neither empty nor `.`.
pub open spec fn keep_named(segs: Seq<Seq<char>>) -> Seq<Seq<char>>
    decreases segs.len(),
{
    if segs.len() == 0 {
        segs
    } else if segs.last() == seq!['.'] || segs.last().len() == 0 {
        keep_named(segs.drop_last())
    } else {
        keep_named(segs.drop_last()).push(segs.last())
    }
}

fn keep_named_of(segs: &Vec<Vec<char>>, from: usize) -> (r: Vec<Vec<char>>)
    requires
        from <= segs.len(),
    ensures
        texts_view(r@) == keep_named(texts_view(segs@).subrange(from as int, segs@.len() as int)),
{
    let mut r: Vec<Vec<char>> = Vec::new();
    let mut i = from;
    while i < segs.len()
        invariant
            from <= i <= segs.len(),
            texts_view(r@) == keep_named(texts_view(segs@).subrange(from as int, i as int)),
        decreases segs.len() - i,
    {
        proof {
            let t = texts_view(segs@).subrange(from as int, i + 1);
            assert(t.drop_last() == texts_view(segs@).subrange(from as int, i as int));
            assert(t.last() == segs@[i as int]@);
        }
        let is_dot = segs[i].len() == 1 && segs[i][0] == '.';
        proof {
            if is_dot {
                assert(segs@[i as int]@ =~= seq!['.']);
            } else if segs@[i as int]@ == seq!['.'] {
                assert(segs@[i as int]@[0] == '.');
            }
        }
        if !is_dot && segs[i].len() > 0 {
            let ghost before = texts_view(r@);
            r.push(slice_of(&segs[i], 0, segs[i].len()));
            assert(segs@[i as int]@.subrange(0, segs@[i as int]@.len() as int) == segs@[i as int]@);
            assert(texts_view(r@) == before.push(segs@[i as int]@));
        }
        i += 1;
    }
    r
}

pub fn norm_components_of(s: &Vec<char>) -> (r: Vec<Vec<char>>)
    ensures
        texts_view(r@) == norm_components(s@),
{
    let segs = split_segments(s);
    let rest = keep_named_of(&segs, 1);
    proof {
        assert(texts_view(segs@).subrange(1, segs@.len() as int) == texts_view(segs@).drop_first());
        assert(texts_view(segs@)[0] == segs@[0]@);
    }
    let mut r: Vec<Vec<char>> = Vec::new();
    if s.len() > 0 && s[0] == '/' {
        let mut root: Vec<char> = Vec::new();
        root.push('/');
        r.push(root);
    } else if segs[0].len() == 1 && segs[0][0] == '.' {
        let mut dot: Vec<char> = Vec::new();
        dot.push('.');
        r.push(dot);
        assert(segs@[0]@ =~= seq!['.']);
    } else if segs[0].len() == 0 {
    } else {
        r.push(slice_of(&segs[0], 0, segs[0].len()));
        assert(segs@[0]@.subrange(0, segs@[0]@.len() as int) == segs@[0]@);
        assert(segs@[0]@ != seq!['.']) by {
            if segs@[0]@ == seq!['.'] {
                assert(segs@[0]@[0] == '.');
            }
        }
    }
    let ghost first = texts_view(r@);
    let mut i: usize = 0;
    while i < rest.len()
        invariant
            i <= rest.len(),
            texts_view(r@) == first + texts_view(rest@).subrange(0, i as int),
        decreases rest.len() - i,
    {
        let ghost before = texts_view(r@);
        r.push(slice_of(&rest[i], 0, rest[i].len()));
        assert(rest@[i as int]@.subrange(0, rest@[i as int]@.len() as int) == rest@[i as int]@);
        assert(texts_view(rest@).subrange(0, i + 1) == texts_view(rest@).subrange(0, i as int).push(rest@[i as int]@));
        assert(texts_view(r@) == before.push(rest@[i as int]@));
        i += 1;
    }
    assert(texts_view(rest@).subrange(0, rest@.len() as int) == texts_view(rest@));
    r
}

/// The components joined by `/`.
pub open spec fn join_components(c: Seq<Seq<char>>) -> Seq<char>
    decreases c.len(),
{
    if c.len() == 0 {
        Seq::empty()
    } else if c.len() == 1 {
        c[0]
    } else {
        join_components(c.drop_last()) + seq!['/'] + c.last()
    }
}

pub fn join_components_of(c: &Vec<Vec<char>>, from: usize) -> (r: String)
    requires
        from <= c.len(),
    ensures
        r@ == join_components(texts_view(c@).subrange(from as int, c@.len() as int)),
{
    let mut r = String::new();
    let mut i = from;
    while i < c.len()
        invariant
            from <= i <= c.len(),
            r@ == join_components(texts_view(c@).subrange(from as int, i as int)),
        decreases c.len() - i,
    {
        proof {
            let t = texts_view(c@).subrange(from as int, i + 1);
            assert(t.drop_last() == texts_view(c@).subrange(from as int, i as int));
            assert(t.last() == c@[i as int]@);
        }
        if i > from {
            crate::text::push_char(&mut r, '/');
        }
        crate::text::push_all(&mut r, &c[i]);
        i += 1;
    }
    r
}

/// `path.strip_prefix(root)` as text, when `root`'s components begin `path`'s.
pub open spec fn strip_path_prefix(path: Seq<char>, root: Seq<char>) -> Option<Seq<char>> {
    let p = norm_components(path);
    let r = norm_components(root);
    if r.is_prefix_of(p) {
        Some(join_components(p.subrange(r.len() as int, p.len() as int)))
    } else {
        None
    }
}

pub fn strip_path_prefix_of(path: &str, root: &str) -> (r: Option<String>)
    ensures
        r matches Some(t) ==> strip_path_prefix(path@, root@) == Some(t@),
        r is None ==> strip_path_prefix(path@, root@) is None,
{
    let p = norm_components_of(&chars_of(path));
    let q = norm_components_of(&chars_of(root));
    if is_prefix_components(&q, &p) {
        Some(join_components_of(&p, q.len()))
    } else {
        None
    }
}

/// `path` relative to `root` where it lies inside it, else `path` itself.
pub open spec fn relative_or_original(root: Seq<char>, path: Seq<char>) -> Seq<char> {
    match strip_path_prefix(path, root) {
        Some(rel) => rel,
        None => path,
    }
}

pub fn relative_or_original_of(root: &str, path: &str) -> (r: String)
    ensures
        r@ == relative_or_original(root@, path@),
{
    match strip_path_prefix_of(path, root) {
        Some(rel) => rel,
        None => String::from_str(path),
    }
}

} // verus!
