//! Content-addressed cache of transformed images.
//!
//! A cache entry is keyed by its file name, which spells out the image
//! identity, the crop rectangle and the DPI ceiling; the same name on disk
//! holds the same bytes across runs.  The store itself is an in-memory
//! association from key to encoded bytes; loading it from and persisting it
//! to a cache directory is the embedding program's concern.
//!
//! The key deliberately carries no codec or filter version: changing either
//! silently revives stale entries until the cache directory is cleared.

use crate::codec::{decodable, transform_image, transformed_of, TransformError};
use crate::crop::CropRectangle;
use crate::text::{dec_digits, sanitize_filename, sanitized, u64_to_dec_string};
use vstd::prelude::*;

verus! {

/// The cache entry name before sanitization:
/// `identity-cropped(x,y,w,h)-dpi(ceiling).jpg`, the ceiling spelled
/// `native` when there is none.
pub open spec fn raw_cache_name(
    id: Seq<char>,
    crop: CropRectangle,
    max_dpi: Option<u32>,
) -> Seq<char> {
    id + "-cropped("@ + dec_digits(crop.x as nat) + ","@ + dec_digits(crop.y as nat) + ","@
        + dec_digits(crop.width as nat) + ","@ + dec_digits(crop.height as nat) + ")-dpi("@ + (
    match max_dpi {
        Some(d) => dec_digits(d as nat),
        None => "native"@,
    }) + ").jpg"@
}

/// The cache key and file name for one transform: the raw name with
/// filename-hostile characters replaced.
pub open spec fn spec_cache_name(id: Seq<char>, crop: CropRectangle, max_dpi: Option<u32>) -> Seq<
    char,
> {
    sanitized(raw_cache_name(id, crop, max_dpi))
}

/// Build the cache file name for one transform.
pub fn cache_file_name(identity: &String, crop: &CropRectangle, max_dpi: Option<u32>) -> (r: String)
    ensures
        r@ == spec_cache_name(identity@, *crop, max_dpi),
{
    let mut s: String = identity.clone();
    s.append("-cropped(");
    let xs: String = u64_to_dec_string(crop.x as u64);
    s.append(xs.as_str());
    s.append(",");
    let ys: String = u64_to_dec_string(crop.y as u64);
    s.append(ys.as_str());
    s.append(",");
    let ws: String = u64_to_dec_string(crop.width as u64);
    s.append(ws.as_str());
    s.append(",");
    let hs: String = u64_to_dec_string(crop.height as u64);
    s.append(hs.as_str());
    s.append(")-dpi(");
    match max_dpi {
        Some(d) => {
            let ds: String = u64_to_dec_string(d as u64);
            s.append(ds.as_str());
        },
        None => s.append("native"),
    }
    s.append(").jpg");
    proof {
        assert(s@ =~= raw_cache_name(identity@, *crop, max_dpi));
    }
    sanitize_filename(&s)
}

/// The association the cache entries spell out, later entries winning.
pub open spec fn entries_map(s: Seq<(String, Vec<u8>)>) -> Map<Seq<char>, Seq<u8>>
    decreases s.len(),
{
    if s.len() == 0 {
        Map::empty()
    } else {
        entries_map(s.drop_last()).insert(s.last().0@, s.last().1@)
    }
}

/// A key occurs in `entries_map(s)` exactly when some entry carries it.
proof fn lemma_entries_map_contains(s: Seq<(String, Vec<u8>)>, k: Seq<char>)
    ensures
        entries_map(s).contains_key(k) <==> exists|i: int| 0 <= i < s.len() && s[i].0@ == k,
    decreases s.len(),
{
    if s.len() > 0 {
        lemma_entries_map_contains(s.drop_last(), k);
        if s.last().0@ == k {
            assert(s[s.len() - 1].0@ == k);
        } else if entries_map(s).contains_key(k) {
            let i = choose|i: int| 0 <= i < s.drop_last().len() && s.drop_last()[i].0@ == k;
            assert(s[i].0@ == k);
        } else {
            assert(forall|i: int|
                0 <= i < s.drop_last().len() ==> s.drop_last()[i].0@ == #[trigger] s[i].0@);
        }
    }
}

/// With pairwise distinct keys, the map holds each entry's own bytes.
proof fn lemma_entries_map_at(s: Seq<(String, Vec<u8>)>, i: int)
    requires
        0 <= i < s.len(),
        forall|a: int, b: int| 0 <= a < b < s.len() ==> s[a].0@ != s[b].0@,
    ensures
        entries_map(s).contains_key(s[i].0@),
        entries_map(s)[s[i].0@] == s[i].1@,
    decreases s.len(),
{
    if i == s.len() - 1 {
    } else {
        lemma_entries_map_at(s.drop_last(), i);
        assert(s.drop_last()[i] == s[i]);
        assert(s[i].0@ != s.last().0@);
    }
}

/// A content-addressed store of transformed image bytes, counting how many
/// transforms it has computed.
pub struct TransformCache {
    entries: Vec<(String, Vec<u8>)>,
    computed: u64,
}

impl View for TransformCache {
    type V = Map<Seq<char>, Seq<u8>>;

    closed spec fn view(&self) -> Map<Seq<char>, Seq<u8>> {
        entries_map(self.entries@)
    }
}

/// The cache contents after one ask for `key` whose fresh computation would
/// yield `v`: a hit changes nothing, a miss stores `v`.
pub open spec fn cache_step(
    m: Map<Seq<char>, Seq<u8>>,
    key: Seq<char>,
    v: Seq<u8>,
) -> Map<Seq<char>, Seq<u8>> {
    if m.contains_key(key) {
        m
    } else {
        m.insert(key, v)
    }
}

/// The bytes one ask for `key` returns: the stored bytes on a hit, the
/// fresh `v` on a miss.
pub open spec fn cache_result(m: Map<Seq<char>, Seq<u8>>, key: Seq<char>, v: Seq<u8>) -> Seq<u8> {
    if m.contains_key(key) {
        m[key]
    } else {
        v
    }
}

/// How many transforms one ask for `key` computes.
pub open spec fn cache_cost(m: Map<Seq<char>, Seq<u8>>, key: Seq<char>) -> nat {
    if m.contains_key(key) {
        0
    } else {
        1
    }
}

/// Asking twice for the same key over an intact cache: the second ask leaves
/// the cache as it is, returns exactly what the first ask returned, and
/// computes nothing — at most one transform runs across the two asks.
pub proof fn lemma_cache_idempotent(m: Map<Seq<char>, Seq<u8>>, key: Seq<char>, v: Seq<u8>)
    ensures
        cache_step(cache_step(m, key, v), key, v) == cache_step(m, key, v),
        cache_result(cache_step(m, key, v), key, v) == cache_result(m, key, v),
        cache_cost(cache_step(m, key, v), key) == 0,
        cache_cost(m, key) + cache_cost(cache_step(m, key, v), key) <= 1,
{
    if !m.contains_key(key) {
        assert(cache_step(m, key, v).contains_key(key));
    }
}

impl TransformCache {
    /// Entry keys are pairwise distinct, so the entries and the map they
    /// spell out carry the same information; the miss counter never exceeds
    /// the entry count, so it cannot wrap.
    pub closed spec fn wf(&self) -> bool {
        &&& forall|a: int, b: int|
            0 <= a < b < self.entries@.len() ==> self.entries@[a].0@ != self.entries@[b].0@
        &&& self.computed <= self.entries@.len()
    }

    /// How many transforms this cache has computed (its misses so far).
    pub closed spec fn computed_count(&self) -> nat {
        self.computed as nat
    }

    /// How many entries the cache holds.
    pub closed spec fn entry_count(&self) -> nat {
        self.entries@.len()
    }

    /// An empty cache.
    pub fn new() -> (c: TransformCache)
        ensures
            c.wf(),
            c@ == Map::<Seq<char>, Seq<u8>>::empty(),
            c.computed_count() == 0,
    {
        TransformCache { entries: Vec::new(), computed: 0 }
    }

    /// Read how many transforms this cache has computed.
    pub fn computed(&self) -> (n: u64)
        ensures
            n == self.computed_count(),
    {
        self.computed
    }

    /// The position of `key` among the entries, if it is there.
    fn position_of(&self, key: &String) -> (r: Option<usize>)
        requires
            self.wf(),
        ensures
            match r {
                Some(i) => i < self.entries@.len() && self.entries@[i as int].0@ == key@
                    && self@.contains_key(key@) && self@[key@] == self.entries@[i as int].1@,
                None => !self@.contains_key(key@),
            },
    {
        let n: usize = self.entries.len();
        let mut i: usize = 0;
        while i < n
            invariant
                i <= n,
                n == self.entries@.len(),
                self.wf(),
                forall|j: int| 0 <= j < i ==> self.entries@[j].0@ != key@,
            decreases n - i,
        {
            if self.entries[i].0.eq(key) {
                proof {
                    lemma_entries_map_at(self.entries@, i as int);
                }
                return Some(i);
            }
            i = i + 1;
        }
        proof {
            lemma_entries_map_contains(self.entries@, key@);
        }
        None
    }

    /// The stored bytes under `key`, if the cache holds them.
    pub fn lookup(&self, key: &String) -> (r: Option<&Vec<u8>>)
        requires
            self.wf(),
        ensures
            match r {
                Some(b) => self@.contains_key(key@) && b@ == self@[key@],
                None => !self@.contains_key(key@),
            },
    {
        match self.position_of(key) {
            Some(i) => Some(&self.entries[i].1),
            None => None,
        }
    }

    /// Store `bytes` under `key` unless the key is already taken: how a
    /// cache directory read back from disk enters the store.  Does not count
    /// as a computed transform.
    pub fn seed(&mut self, key: String, bytes: Vec<u8>)
        requires
            old(self).wf(),
        ensures
            final(self).wf(),
            final(self)@ == if old(self)@.contains_key(key@) {
                old(self)@
            } else {
                old(self)@.insert(key@, bytes@)
            },
            final(self).computed_count() == old(self).computed_count(),
    {
        match self.position_of(&key) {
            Some(_) => {},
            None => {
                proof {
                    lemma_entries_map_contains(self.entries@, key@);
                }
                let ghost before = self.entries@;
                self.entries.push((key, bytes));
                proof {
                    assert(self.entries@.drop_last() =~= before);
                    assert forall|a: int, b: int|
                        0 <= a < b < self.entries@.len() implies self.entries@[a].0@
                        != self.entries@[b].0@ by {
                        if b < self.entries@.len() - 1 {
                            assert(before[a] == self.entries@[a]);
                        } else {
                            lemma_entries_map_contains(before, self.entries@[b].0@);
                        }
                    }
                }
            },
        }
    }

    /// Return the bytes for `key`: the stored bytes on a hit; on a miss run
    /// the transform on `data`, store its output under `key` and return it.
    ///
    /// A hit never re-validates against the transform arguments: a stale
    /// entry is returned as stored.
    pub fn get_or_compute(
        &mut self,
        key: &String,
        data: &Vec<u8>,
        crop: &CropRectangle,
        resize_to: &Option<(u32, u32)>,
    ) -> (r: Result<Vec<u8>, TransformError>)
        requires
            old(self).wf(),
        ensures
            final(self).wf(),
            old(self)@.contains_key(key@) ==> (r matches Ok(b) && b@ == old(self)@[key@]),
            !old(self)@.contains_key(key@) ==> {
                let t = transformed_of(data@, crop.x, crop.y, crop.width, crop.height, *resize_to);
                &&& (r is Ok <==> t is Some)
                &&& (r matches Ok(b) ==> Some(b@) == t)
                &&& (r == Err::<Vec<u8>, TransformError>(TransformError::Decode) <==> !decodable(
                    data@,
                ))
                &&& (r is Err ==> final(self)@ == old(self)@ && final(self).computed_count() == old(
                    self,
                ).computed_count())
            },
            r matches Ok(b) ==> final(self)@ == cache_step(old(self)@, key@, b@) && b@
                == cache_result(old(self)@, key@, b@) && final(self).computed_count() == old(
                self,
            ).computed_count() + cache_cost(old(self)@, key@),
    {
        match self.position_of(key) {
            Some(i) => {
                let b: Vec<u8> = clone_bytes(&self.entries[i].1);
                Ok(b)
            },
            None => {
                match transform_image(data, crop, resize_to) {
                    Ok(b) => {
                        proof {
                            lemma_entries_map_contains(self.entries@, key@);
                        }
                        let ghost before = self.entries@;
                        let kept: Vec<u8> = clone_bytes(&b);
                        self.entries.push((key.clone(), kept));
                        // Reading the length pins it as a `usize`, which
                        // bounds the counter below its own maximum.
                        let n: usize = self.entries.len();
                        self.computed = self.computed + 1;
                        proof {
                            assert(self.entries@.drop_last() =~= before);
                            assert forall|a: int, c: int|
                                0 <= a < c < self.entries@.len() implies self.entries@[a].0@
                                != self.entries@[c].0@ by {
                                if c < self.entries@.len() - 1 {
                                    assert(before[a] == self.entries@[a]);
                                } else {
                                    lemma_entries_map_contains(before, self.entries@[c].0@);
                                }
                            }
                        }
                        Ok(b)
                    },
                    Err(e) => Err(e),
                }
            },
        }
    }

    /// How many entries the cache holds.
    pub fn len(&self) -> (n: usize)
        ensures
            n == self.entry_count(),
    {
        self.entries.len()
    }

    /// The `i`-th entry: its key and its bytes, for persisting the store.
    pub fn entry_at(&self, i: usize) -> (r: (&String, &Vec<u8>))
        requires
            self.wf(),
            i < self.entry_count(),
        ensures
            self@.contains_key(r.0@),
            self@[r.0@] == r.1@,
    {
        proof {
            lemma_entries_map_at(self.entries@, i as int);
        }
        (&self.entries[i].0, &self.entries[i].1)
    }
}

/// Byte-for-byte copy.
fn clone_bytes(v: &Vec<u8>) -> (r: Vec<u8>)
    ensures
        r@ == v@,
{
    let mut r: Vec<u8> = Vec::new();
    let n: usize = v.len();
    let mut i: usize = 0;
    while i < n
        invariant
            i <= n,
            n == v@.len(),
            r@ == v@.take(i as int),
        decreases n - i,
    {
        let b: u8 = v[i];
        r.push(b);
        proof {
            assert(r@ =~= v@.take(i + 1 as int));
        }
        i = i + 1;
    }
    proof {
        assert(v@.take(n as int) =~= v@);
    }
    r
}

} // verus!
