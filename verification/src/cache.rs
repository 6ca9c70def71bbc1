//! The cache of bibliography and index outputs: an output is reused when
//! the inputs that made it and its own bytes are unchanged, and entries
//! that a build no longer uses are dropped from the cache it writes.
use vstd::prelude::*;
use crate::digest::{digest, digest_text};
use crate::paths::{join_components, strip_path_prefix, strip_path_prefix_of};
use crate::text::{chars_of, eq_str};

verus! {

/// What the cache remembers of one output.
#[derive(Debug)]
pub struct CachedOutput {
    pub input_digest: String,
    /// The output, relative to the output directory.
    pub output: String,
    pub output_digest: String,
}

pub open spec fn cached_view(c: CachedOutput) -> (Seq<char>, Seq<char>, Seq<char>) {
    (c.input_digest@, c.output@, c.output_digest@)
}

impl CachedOutput {
    pub fn copy(&self) -> (r: CachedOutput)
        ensures
            cached_view(r) == cached_view(*self),
    {
        CachedOutput {
            input_digest: self.input_digest.clone(),
            output: self.output.clone(),
            output_digest: self.output_digest.clone(),
        }
    }
}

/// The cache entries as a map from key to what they remember; where a key
/// occurs twice, the later entry counts.
pub open spec fn entry_map(v: Seq<(String, CachedOutput)>) -> Map<Seq<char>, (Seq<char>, Seq<char>, Seq<char>)>
    decreases v.len(),
{
    if v.len() == 0 {
        Map::empty()
    } else {
        entry_map(v.drop_last()).insert(v.last().0@, cached_view(v.last().1))
    }
}

/// No key occurs twice.
pub open spec fn unique_keys(v: Seq<(String, CachedOutput)>) -> bool {
    forall|i: int, j: int| 0 <= i < j < v.len() ==> v[i].0@ != v[j].0@
}

pub proof fn lemma_entry_map(v: Seq<(String, CachedOutput)>)
    requires
        unique_keys(v),
    ensures
        forall|k: Seq<char>| entry_map(v).dom().contains(k) <==> exists|i: int| 0 <= i < v.len() && #[trigger] v[i].0@ == k,
        forall|i: int| 0 <= i < v.len() ==> #[trigger] entry_map(v)[v[i].0@] == cached_view(v[i].1),
    decreases v.len(),
{
    if v.len() > 0 {
        let init = v.drop_last();
        assert(unique_keys(init));
        lemma_entry_map(init);
        assert forall|k: Seq<char>| entry_map(v).dom().contains(k) <==> exists|i: int|
            0 <= i < v.len() && #[trigger] v[i].0@ == k by {
            if entry_map(v).dom().contains(k) && k != v.last().0@ {
                assert(entry_map(init).dom().contains(k));
                let i = choose|i: int| 0 <= i < init.len() && #[trigger] init[i].0@ == k;
                assert(v[i].0@ == k);
            }
            if exists|i: int| 0 <= i < v.len() && #[trigger] v[i].0@ == k {
                let i = choose|i: int| 0 <= i < v.len() && #[trigger] v[i].0@ == k;
                if i < v.len() - 1 {
                    assert(init[i].0@ == k);
                    assert(entry_map(init).dom().contains(k));
                }
            }
        }
        assert forall|i: int| 0 <= i < v.len() implies #[trigger] entry_map(v)[v[i].0@] == cached_view(v[i].1) by {
            if i < v.len() - 1 {
                assert(init[i] == v[i]);
                assert(v[i].0@ != v.last().0@);
                assert(entry_map(init)[init[i].0@] == cached_view(init[i].1));
                assert(entry_map(init).dom().contains(init[i].0@));
            }
        }
    }
}

/// The output directory holds the output below it: its path relative to
/// the directory, components joined with `/`, and not the directory
/// itself.
pub open spec fn relative_output(root: Seq<char>, path: Seq<char>) -> Option<Seq<char>> {
    match strip_path_prefix(path, root) {
        Some(r) => if r.len() > 0 {
            Some(r)
        } else {
            None
        },
        None => None,
    }
}

pub fn relative_path(root: &str, path: &str) -> (r: Option<String>)
    ensures
        crate::trace::opt_string_view(r) == relative_output(root@, path@),
{
    match strip_path_prefix_of(path, root) {
        Some(rel) => if rel.as_str().unicode_len() > 0 {
            Some(rel)
        } else {
            None
        },
        None => None,
    }
}

/// A cached output still stands for the output: it was made from the same
/// inputs, for the same output path, and the output's bytes are those it
/// recorded.
pub open spec fn cached_matches(
    cached: (Seq<char>, Seq<char>, Seq<char>),
    input_digest: Seq<char>,
    root: Seq<char>,
    output: Seq<char>,
    output_bytes: Option<Seq<u8>>,
) -> bool {
    &&& cached.0 == input_digest
    &&& relative_output(root, output) == Some(cached.1)
    &&& output_bytes matches Some(b) && digest_text(b) == cached.2
}

pub open spec fn bytes_view(b: Option<&[u8]>) -> Option<Seq<u8>> {
    match b {
        Some(x) => Some(x@),
        None => None,
    }
}

pub fn cached_output_matches(
    cached: &CachedOutput,
    input_digest: &str,
    output_root: &str,
    output: &str,
    output_bytes: Option<&[u8]>,
) -> (r: bool)
    ensures
        r == cached_matches(cached_view(*cached), input_digest@, output_root@, output@, bytes_view(output_bytes)),
{
    if !eq_str(&chars_of(cached.input_digest.as_str()), input_digest) {
        return false;
    }
    let same_path = match relative_path(output_root, output) {
        Some(rel) => eq_str(&chars_of(rel.as_str()), cached.output.as_str()),
        None => false,
    };
    if !same_path {
        return false;
    }
    match output_bytes {
        Some(bytes) => {
            let d = digest(bytes);
            eq_str(&chars_of(d.as_str()), cached.output_digest.as_str())
        },
        None => false,
    }
}

/// Reusable outputs, and the keys the current build has used.
pub struct OutputCache {
    entries: Vec<(String, CachedOutput)>,
    seen: Vec<String>,
}

pub open spec fn seen_set(v: Seq<String>) -> Set<Seq<char>> {
    v.map_values(|s: String| s@).to_set()
}

impl OutputCache {
    /// Keys occur once.
    pub closed spec fn wf(self) -> bool {
        unique_keys(self.entries@)
    }

    /// The entries, by key.
    pub closed spec fn entries_view(self) -> Map<Seq<char>, (Seq<char>, Seq<char>, Seq<char>)> {
        entry_map(self.entries@)
    }

    /// The keys used so far.
    pub closed spec fn seen_view(self) -> Set<Seq<char>> {
        seen_set(self.seen@)
    }

    pub fn new() -> (r: OutputCache)
        ensures
            r.wf(),
            r.entries_view() == Map::<Seq<char>, (Seq<char>, Seq<char>, Seq<char>)>::empty(),
            r.seen_view() == Set::<Seq<char>>::empty(),
    {
        let r = OutputCache { entries: Vec::new(), seen: Vec::new() };
        assert(seen_set(r.seen@) =~= Set::<Seq<char>>::empty());
        r
    }

    /// A cache that starts from the entries an earlier build kept.
    pub fn from_entries(entries: Vec<(String, CachedOutput)>) -> (r: OutputCache)
        requires
            unique_keys(entries@),
        ensures
            r.wf(),
            r.entries_view() == entry_map(entries@),
            r.seen_view() == Set::<Seq<char>>::empty(),
    {
        let r = OutputCache { entries, seen: Vec::new() };
        assert(seen_set(r.seen@) =~= Set::<Seq<char>>::empty());
        r
    }

    fn mark_seen(&mut self, key: &str)
        ensures
            final(self).entries == old(self).entries,
            final(self).seen_view() == old(self).seen_view().insert(key@),
    {
        let ghost before = self.seen@;
        self.seen.push(String::from_str(key));
        proof {
            let f = |s: String| s@;
            assert(self.seen@.map_values(f) =~= before.map_values(f).push(key@));
            before.map_values(f).lemma_push_to_set_commute(key@);
        }
    }

    /// Marks a key as used by this build.
    pub fn retain(&mut self, key: Option<&str>)
        requires
            old(self).wf(),
        ensures
            final(self).wf(),
            final(self).entries_view() == old(self).entries_view(),
            final(self).seen_view() == match key {
                Some(k) => old(self).seen_view().insert(k@),
                None => old(self).seen_view(),
            },
    {
        if let Some(k) = key {
            self.mark_seen(k);
        }
    }

    fn find(&self, key: &str) -> (r: Option<usize>)
        requires
            self.wf(),
        ensures
            match r {
                Some(i) => i < self.entries@.len() && self.entries@[i as int].0@ == key@,
                None => !self.entries_view().dom().contains(key@),
            },
    {
        proof {
            lemma_entry_map(self.entries@);
        }
        let mut i: usize = 0;
        while i < self.entries.len()
            invariant
                i <= self.entries@.len(),
                forall|j: int| 0 <= j < i ==> self.entries@[j].0@ != key@,
            decreases self.entries.len() - i,
        {
            if eq_str(&chars_of(self.entries[i].0.as_str()), key) {
                return Some(i);
            }
            i += 1;
        }
        None
    }

    /// Whether the output under `key` can be reused: the key is marked as
    /// used, and the answer is whether its entry still matches the inputs
    /// and the output's bytes (`None` where the output cannot be read).
    pub fn restore(
        &mut self,
        key: Option<&str>,
        input_digest: &str,
        output_root: &str,
        output: &str,
        output_bytes: Option<&[u8]>,
    ) -> (r: bool)
        requires
            old(self).wf(),
        ensures
            final(self).wf(),
            final(self).entries_view() == old(self).entries_view(),
            final(self).seen_view() == match key {
                Some(k) => old(self).seen_view().insert(k@),
                None => old(self).seen_view(),
            },
            r == (key matches Some(k) && old(self).entries_view().dom().contains(k@) && cached_matches(
                old(self).entries_view()[k@],
                input_digest@,
                output_root@,
                output@,
                bytes_view(output_bytes),
            )),
    {
        let k = match key {
            Some(k) => k,
            None => return false,
        };
        self.mark_seen(k);
        proof {
            lemma_entry_map(self.entries@);
        }
        match self.find(k) {
            Some(i) => cached_output_matches(&self.entries[i].1, input_digest, output_root, output, output_bytes),
            None => false,
        }
    }

    /// Remembers the output under `key` once it exists: the digest of the
    /// inputs that made it, its path below the output directory, and the
    /// digest of its bytes (`None` where it cannot be read, which records
    /// nothing). The key is marked as used either way.
    pub fn record(
        &mut self,
        key: Option<String>,
        input_digest: &str,
        output_root: &str,
        output: &str,
        output_bytes: Option<&[u8]>,
    )
        requires
            old(self).wf(),
        ensures
            final(self).wf(),
            final(self).seen_view() == match key {
                Some(k) => old(self).seen_view().insert(k@),
                None => old(self).seen_view(),
            },
            final(self).entries_view() == match (key, relative_output(output_root@, output@), bytes_view(output_bytes)) {
                (Some(k), Some(rel), Some(b)) => old(self).entries_view().insert(k@, (input_digest@, rel, digest_text(b))),
                _ => old(self).entries_view(),
            },
    {
        let k = match key {
            Some(k) => k,
            None => return,
        };
        self.mark_seen(k.as_str());
        let rel = match relative_path(output_root, output) {
            Some(rel) => rel,
            None => return,
        };
        let bytes = match output_bytes {
            Some(b) => b,
            None => return,
        };
        let entry = CachedOutput { input_digest: String::from_str(input_digest), output: rel, output_digest: digest(bytes) };
        let ghost old_entries = self.entries@;
        proof {
            lemma_entry_map(self.entries@);
        }
        match self.find(k.as_str()) {
            Some(i) => {
                let ghost kv = k@;
                let ghost ev = cached_view(entry);
                self.entries.set(i, (k, entry));
                proof {
                    let nv = self.entries@;
                    assert(nv == old_entries.update(i as int, nv[i as int]));
                    assert(unique_keys(nv)) by {
                        assert forall|a: int, b: int| 0 <= a < b < nv.len() implies nv[a].0@ != nv[b].0@ by {
                            if a != i && b != i {
                                assert(nv[a] == old_entries[a] && nv[b] == old_entries[b]);
                            } else if a == i {
                                assert(nv[b] == old_entries[b]);
                            } else {
                                assert(nv[a] == old_entries[a]);
                            }
                        }
                    }
                    lemma_entry_map(nv);
                    assert(entry_map(nv) =~= entry_map(old_entries).insert(kv, ev)) by {
                        assert forall|q: Seq<char>| entry_map(nv).dom().contains(q) <==> entry_map(old_entries).insert(kv, ev).dom().contains(q) by {
                            if entry_map(nv).dom().contains(q) {
                                let j = choose|j: int| 0 <= j < nv.len() && #[trigger] nv[j].0@ == q;
                                if j != i {
                                    assert(old_entries[j].0@ == q);
                                }
                            }
                            if entry_map(old_entries).dom().contains(q) {
                                let j = choose|j: int| 0 <= j < old_entries.len() && #[trigger] old_entries[j].0@ == q;
                                if j != i {
                                    assert(nv[j].0@ == q);
                                } else {
                                    assert(nv[i as int].0@ == kv);
                                }
                            }
                            if q == kv {
                                assert(nv[i as int].0@ == q);
                            }
                        }
                        assert forall|q: Seq<char>| entry_map(nv).dom().contains(q) implies entry_map(nv)[q] == entry_map(old_entries).insert(kv, ev)[q] by {
                            let j = choose|j: int| 0 <= j < nv.len() && #[trigger] nv[j].0@ == q;
                            if j != i {
                                assert(old_entries[j] == nv[j]);
                                assert(entry_map(old_entries)[old_entries[j].0@] == cached_view(old_entries[j].1));
                            }
                        }
                    }
                }
            },
            None => {
                let ghost kv = k@;
                let ghost ev = cached_view(entry);
                self.entries.push((k, entry));
                proof {
                    let nv = self.entries@;
                    assert(nv.drop_last() =~= old_entries);
                    assert(unique_keys(nv)) by {
                        assert forall|a: int, b: int| 0 <= a < b < nv.len() implies nv[a].0@ != nv[b].0@ by {
                            if b == nv.len() - 1 {
                                assert(nv[a] == old_entries[a]);
                                if old_entries[a].0@ == kv {
                                    assert(entry_map(old_entries).dom().contains(kv));
                                }
                            } else {
                                assert(nv[a] == old_entries[a] && nv[b] == old_entries[b]);
                            }
                        }
                    }
                }
            },
        }
    }

    /// The entries the current build used, for the cache it writes.
    pub fn retained_entries(&self) -> (r: Vec<(String, CachedOutput)>)
        requires
            self.wf(),
        ensures
            unique_keys(r@),
            entry_map(r@) == self.entries_view().restrict(self.seen_view()),
    {
        proof {
            lemma_entry_map(self.entries@);
        }
        let mut r: Vec<(String, CachedOutput)> = Vec::new();
        let mut i: usize = 0;
        while i < self.entries.len()
            invariant
                i <= self.entries@.len(),
                self.wf(),
                forall|q: Seq<char>| #[trigger] entry_map(self.entries@).dom().contains(q) <==> exists|j: int| 0 <= j < self.entries@.len() && #[trigger] self.entries@[j].0@ == q,
                forall|j: int| 0 <= j < self.entries@.len() ==> #[trigger] entry_map(self.entries@)[self.entries@[j].0@] == cached_view(self.entries@[j].1),
                unique_keys(r@),
                forall|a: int| #![trigger r@[a]] 0 <= a < r@.len() ==> exists|j: int| 0 <= j < i && #[trigger] self.entries@[j].0@ == r@[a].0@,
                entry_map(r@) == entry_map(self.entries@.subrange(0, i as int)).restrict(self.seen_view()),
            decreases self.entries.len() - i,
        {
            let key = &self.entries[i].0;
            let mut used = false;
            let mut s: usize = 0;
            while s < self.seen.len()
                invariant
                    s <= self.seen@.len(),
                    used == exists|t: int| 0 <= t < s && #[trigger] self.seen@[t]@ == key@,
                decreases self.seen.len() - s,
            {
                if eq_str(&chars_of(self.seen[s].as_str()), key.as_str()) {
                    used = true;
                }
                s += 1;
            }
            proof {
                let f = |x: String| x@;
                if used {
                    let t = choose|t: int| 0 <= t < self.seen@.len() && #[trigger] self.seen@[t]@ == key@;
                    assert(self.seen@.map_values(f)[t] == key@);
                    assert(self.seen_view().contains(key@));
                } else {
                    if self.seen_view().contains(key@) {
                        let t = choose|t: int| 0 <= t < self.seen@.map_values(f).len() && self.seen@.map_values(f)[t] == key@;
                        assert(self.seen@[t]@ == key@);
                    }
                }
            }
            let ghost before = r@;
            let ghost prefix = self.entries@.subrange(0, i as int);
            let ghost next = self.entries@.subrange(0, i + 1);
            assert(next.drop_last() =~= prefix);
            assert(next.last() == self.entries@[i as int]);
            if used {
                let copy = (self.entries[i].0.clone(), self.entries[i].1.copy());
                r.push(copy);
                proof {
                    assert(r@.drop_last() =~= before);
                    assert forall|a: int, b: int| 0 <= a < b < r@.len() implies r@[a].0@ != r@[b].0@ by {
                        if b == r@.len() - 1 {
                            let j = choose|j: int| 0 <= j < i && #[trigger] self.entries@[j].0@ == before[a].0@;
                            assert(r@[a] == before[a]);
                        } else {
                            assert(r@[a] == before[a] && r@[b] == before[b]);
                        }
                    }
                    assert forall|a: int| #![trigger r@[a]] 0 <= a < r@.len() implies exists|j: int| 0 <= j < i + 1 && #[trigger] self.entries@[j].0@ == r@[a].0@ by {
                        if a < before.len() {
                            assert(r@[a] == before[a]);
                            let j = choose|j: int| 0 <= j < i && #[trigger] self.entries@[j].0@ == before[a].0@;
                        } else {
                            assert(self.entries@[i as int].0@ == r@[a].0@);
                        }
                    }
                    assert(entry_map(r@) =~= entry_map(next).restrict(self.seen_view()));
                }
            } else {
                proof {
                    assert(entry_map(r@) =~= entry_map(next).restrict(self.seen_view()));
                }
            }
            i += 1;
        }
        assert(self.entries@.subrange(0, self.entries@.len() as int) =~= self.entries@);
        r
    }
}

} // verus!
