//! The renderer's cache of generator frames and the keys of its per-clip caches.
use vstd::prelude::*;

use std::collections::hash_map::DefaultHasher;
use std::collections::HashSet;
use std::hash::Hasher;
use vstd::std_specs::hash::DefaultHasherAdditionalSpecFns;

use crate::project::{Clip, Project};
use vstd::string::StringSliceAdditionalSpecFns;
use crate::project_options::{composition_position, find_composition};

verus! {

/// How many variants of a generator's frame the renderer keeps.
pub const GRAPH_GENERATOR_VARIANT_CAPACITY: usize = 4;

/// The position of the entry for `key`, if `entries` has one.
pub open spec fn entry_position<T>(entries: Seq<(u64, T)>, key: u64) -> Option<int> {
    if exists|i: int| 0 <= i < entries.len() && #[trigger] entries[i].0 == key {
        Some(choose|i: int| 0 <= i < entries.len() && #[trigger] entries[i].0 == key)
    } else {
        None
    }
}

/// Each key occurs at most once.
pub open spec fn keys_unique<T>(entries: Seq<(u64, T)>) -> bool {
    forall|i: int, j: int| 0 <= i < j < entries.len() ==> #[trigger] entries[i].0 != #[trigger] entries[j].0
}

/// The value stored for `key`.
pub open spec fn lookup<T>(entries: Seq<(u64, T)>, key: u64) -> Option<T> {
    match entry_position(entries, key) {
        Some(p) => Some(entries[p].1),
        None => None,
    }
}

/// The entries without the one for `key`.
pub open spec fn without_key<T>(entries: Seq<(u64, T)>, key: u64) -> Seq<(u64, T)> {
    match entry_position(entries, key) {
        Some(p) => entries.remove(p),
        None => entries,
    }
}

/// The entries after `key` was stored with `value`: the value replaces an earlier one for the
/// key and becomes the most recent, and the least recent entries leave until at most
/// `GRAPH_GENERATOR_VARIANT_CAPACITY` are kept.
pub open spec fn inserted<T>(entries: Seq<(u64, T)>, key: u64, value: T) -> Seq<(u64, T)> {
    let all = without_key(entries, key).push((key, value));
    if all.len() > 4 {
        all.skip(all.len() - 4)
    } else {
        all
    }
}

/// The entries after a read of `key`: a stored entry becomes the most recent.
pub open spec fn touched<T>(entries: Seq<(u64, T)>, key: u64) -> Seq<(u64, T)> {
    match entry_position(entries, key) {
        Some(p) => entries.remove(p).push(entries[p]),
        None => entries,
    }
}

/// The variants of one generator's frame, keyed by what they were rendered from, least
/// recently used first.
pub struct GraphGeneratorVariants<T> {
    entries: Vec<(u64, T)>,
}

impl<T> View for GraphGeneratorVariants<T> {
    type V = Seq<(u64, T)>;

    closed spec fn view(&self) -> Seq<(u64, T)> {
        self.entries@
    }
}

proof fn lemma_position_unique<T>(entries: Seq<(u64, T)>, key: u64, i: int)
    requires
        keys_unique(entries),
        0 <= i < entries.len(),
        entries[i].0 == key,
    ensures
        entry_position(entries, key) == Some(i),
{
    let p = choose|p: int| 0 <= p < entries.len() && #[trigger] entries[p].0 == key;
    if p != i {
        if p < i {
            assert(entries[p].0 != entries[i].0);
        } else {
            assert(entries[i].0 != entries[p].0);
        }
    }
}

proof fn lemma_remove_keeps_unique<T>(entries: Seq<(u64, T)>, p: int)
    requires
        keys_unique(entries),
        0 <= p < entries.len(),
    ensures
        keys_unique(entries.remove(p)),
        forall|i: int| 0 <= i < entries.remove(p).len() ==> #[trigger] entries.remove(p)[i].0 != entries[p].0,
{
    let r = entries.remove(p);
    assert forall|i: int, j: int| 0 <= i < j < r.len() implies #[trigger] r[i].0 != #[trigger] r[j].0 by {
        let a = if i < p { i } else { i + 1 };
        let b = if j < p { j } else { j + 1 };
        assert(r[i] == entries[a] && r[j] == entries[b]);
    }
    assert forall|i: int| 0 <= i < r.len() implies #[trigger] r[i].0 != entries[p].0 by {
        let a = if i < p { i } else { i + 1 };
        assert(r[i] == entries[a]);
        if a < p {
            assert(entries[a].0 != entries[p].0);
        } else {
            assert(entries[p].0 != entries[a].0);
        }
    }
}

proof fn lemma_without_key<T>(entries: Seq<(u64, T)>, key: u64)
    requires
        keys_unique(entries),
    ensures
        keys_unique(without_key(entries, key)),
        forall|i: int| 0 <= i < without_key(entries, key).len() ==> #[trigger] without_key(entries, key)[i].0 != key,
        without_key(entries, key).len() == if entry_position(entries, key) is Some {
            entries.len() - 1
        } else {
            entries.len() as int
        },
{
    match entry_position(entries, key) {
        Some(p) => {
            lemma_remove_keeps_unique(entries, p);
        },
        None => {
            assert forall|i: int| 0 <= i < entries.len() implies #[trigger] entries[i].0 != key by {
                if entries[i].0 == key {
                    assert(exists|i: int| 0 <= i < entries.len() && #[trigger] entries[i].0 == key);
                }
            }
        },
    }
}

/// A write keeps each key once and at most four entries, and makes the written entry the most
/// recent one.
pub proof fn lemma_inserted<T>(entries: Seq<(u64, T)>, key: u64, value: T)
    requires
        keys_unique(entries),
    ensures
        keys_unique(inserted(entries, key, value)),
        inserted(entries, key, value).len() <= 4,
        inserted(entries, key, value).len() > 0,
        inserted(entries, key, value).last() == (key, value),
{
    lemma_without_key(entries, key);
    let w = without_key(entries, key);
    let all = w.push((key, value));
    assert forall|i: int, j: int| 0 <= i < j < all.len() implies #[trigger] all[i].0 != #[trigger] all[j].0 by {
        if j == all.len() - 1 {
            assert(all[i] == w[i]);
        } else {
            assert(all[i] == w[i] && all[j] == w[j]);
        }
    }
    if all.len() > 4 {
        let s = all.skip(all.len() - 4);
        assert forall|i: int, j: int| 0 <= i < j < s.len() implies #[trigger] s[i].0 != #[trigger] s[j].0 by {
            assert(s[i] == all[i + all.len() - 4] && s[j] == all[j + all.len() - 4]);
        }
        assert(s.last() == all.last());
    }
}

/// A read after a write: the key just stored gives back the value stored with it.
pub proof fn lemma_lookup_after_insert<T>(entries: Seq<(u64, T)>, key: u64, value: T)
    requires
        keys_unique(entries),
    ensures
        lookup(inserted(entries, key, value), key) == Some(value),
{
    lemma_inserted(entries, key, value);
    let s = inserted(entries, key, value);
    lemma_position_unique(s, key, s.len() - 1);
}

/// A write leaves every other key's value as it was, unless that entry was the least recently
/// used one and had to leave to keep the cache within its capacity.
pub proof fn lemma_insert_keeps_others<T>(entries: Seq<(u64, T)>, key: u64, value: T, other: u64)
    requires
        keys_unique(entries),
        entries.len() <= 4,
        other != key,
        entries.len() < 4 || entry_position(entries, key) is Some,
    ensures
        lookup(inserted(entries, key, value), other) == lookup(entries, other),
{
    lemma_without_key(entries, key);
    lemma_inserted(entries, key, value);
    let w = without_key(entries, key);
    let all = w.push((key, value));
    assert(all.len() <= 4);
    let s = inserted(entries, key, value);
    assert(s == all);
    match entry_position(entries, other) {
        Some(q) => {
            let i = match entry_position(entries, key) {
                Some(p) => if q < p { q } else { q - 1 },
                None => q,
            };
            assert(0 <= i < w.len() && w[i] == entries[q]);
            assert(s[i] == entries[q]);
            lemma_position_unique(s, other, i);
        },
        None => {
            if entry_position(s, other) is Some {
                let i = choose|i: int| 0 <= i < s.len() && #[trigger] s[i].0 == other;
                let q = match entry_position(entries, key) {
                    Some(p) => if i < p { i } else { i + 1 },
                    None => i,
                };
                assert(i < w.len());
                assert(w[i] == entries[q]);
                assert(entries[q].0 == other);
            }
        },
    }
}

impl<T> GraphGeneratorVariants<T> {
    /// The cache's own invariant: each key once, at most the capacity.
    pub open spec fn wf(&self) -> bool {
        &&& keys_unique(self@)
        &&& self@.len() <= 4
    }

    /// An empty cache.
    pub fn new() -> (cache: Self)
        ensures
            cache.wf(),
            cache@ == Seq::<(u64, T)>::empty(),
    {
        GraphGeneratorVariants { entries: Vec::new() }
    }

    fn position(&self, key: u64) -> (position: Option<usize>)
        requires
            keys_unique(self@),
        ensures
            match position {
                Some(p) => entry_position(self@, key) == Some(p as int) && p < self@.len(),
                None => entry_position(self@, key) is None,
            },
    {
        let mut i: usize = 0;
        while i < self.entries.len()
            invariant
                i <= self.entries.len(),
                keys_unique(self@),
                forall|j: int| 0 <= j < i ==> #[trigger] self.entries@[j].0 != key,
            decreases self.entries.len() - i,
        {
            if self.entries[i].0 == key {
                proof {
                    lemma_position_unique(self@, key, i as int);
                }
                return Some(i);
            }
            i = i + 1;
        }
        proof {
            if entry_position(self@, key) is Some {
                let j = choose|j: int| 0 <= j < self@.len() && #[trigger] self@[j].0 == key;
                assert(self.entries@[j].0 != key);
            }
        }
        None
    }
}

impl<T: Clone> GraphGeneratorVariants<T> {
    /// The variant rendered for `key`, which becomes the most recently used one.
    pub fn get(&mut self, key: u64) -> (found: Option<T>)
        requires
            old(self).wf(),
        ensures
            final(self).wf(),
            final(self)@ == touched(old(self)@, key),
            match lookup(old(self)@, key) {
                Some(v) => found is Some && cloned(v, found->0),
                None => found is None,
            },
    {
        let position = self.position(key);
        match position {
            Some(p) => {
                let ghost before = self@;
                let entry = self.entries.remove(p);
                let value = entry.1.clone();
                self.entries.push(entry);
                proof {
                    lemma_remove_keeps_unique(before, p as int);
                    let r = before.remove(p as int);
                    assert(self@ == r.push(before[p as int]));
                    assert forall|i: int, j: int| 0 <= i < j < self@.len() implies #[trigger] self@[i].0 != #[trigger] self@[j].0 by {
                        if j == self@.len() - 1 {
                            assert(self@[i] == r[i]);
                        } else {
                            assert(self@[i] == r[i] && self@[j] == r[j]);
                        }
                    }
                }
                Some(value)
            },
            None => None,
        }
    }

    /// The most recently stored or read variant.
    pub fn latest(&self) -> (found: Option<T>)
        ensures
            self@.len() == 0 ==> found is None,
            self@.len() > 0 ==> found is Some && cloned(self@.last().1, found->0),
    {
        if self.entries.len() == 0 {
            None
        } else {
            Some(self.entries[self.entries.len() - 1].1.clone())
        }
    }
}

impl<T> GraphGeneratorVariants<T> {
    /// Stores `value` for `key` as the most recent variant, replacing an earlier one for the
    /// key; the least recently used variants leave until the capacity is kept.
    pub fn insert(&mut self, key: u64, value: T)
        requires
            old(self).wf(),
        ensures
            final(self).wf(),
            final(self)@ == inserted(old(self)@, key, value),
    {
        proof {
            lemma_without_key(self@, key);
            lemma_inserted(self@, key, value);
        }
        let position = self.position(key);
        if let Some(p) = position {
            self.entries.remove(p);
        }
        self.entries.push((key, value));
        let ghost all = self@;
        if self.entries.len() > GRAPH_GENERATOR_VARIANT_CAPACITY {
            self.entries.remove(0);
            assert(self@ =~= all.skip(all.len() - 4));
        }
    }
}

/// The bytes of `x` in the machine's native byte order.
pub open spec fn native_u64_bytes(x: u64) -> Seq<u8> {
    match vstd::endian::endianness() {
        vstd::endian::Endian::Little => vstd::bytes::spec_u64_to_le_bytes(x),
        vstd::endian::Endian::Big => vstd::bytes::spec_u64_to_le_bytes(x).reverse(),
    }
}

/// The bytes of `x` in the machine's native byte order.
pub open spec fn native_u32_bytes(x: u32) -> Seq<u8> {
    match vstd::endian::endianness() {
        vstd::endian::Endian::Little => vstd::bytes::spec_u32_to_le_bytes(x),
        vstd::endian::Endian::Big => vstd::bytes::spec_u32_to_le_bytes(x).reverse(),
    }
}

/// `u64::to_ne_bytes`: the memory representation of the number, in the machine's native byte
/// order (its little-endian bytes on a little-endian machine, reversed on a big-endian one).
#[verifier::external_body]
fn u64_native_bytes(value: u64) -> (bytes: [u8; 8])
    ensures
        bytes@ == native_u64_bytes(value),
{
    value.to_ne_bytes()
}

/// `u32::to_ne_bytes`: the memory representation of the number, in the machine's native byte
/// order (its little-endian bytes on a little-endian machine, reversed on a big-endian one).
#[verifier::external_body]
fn u32_native_bytes(value: u32) -> (bytes: [u8; 4])
    ensures
        bytes@ == native_u32_bytes(value),
{
    value.to_ne_bytes()
}

/// The top bit of a 64-bit key.
pub open spec fn scoped_bit() -> u64 {
    0x8000_0000_0000_0000
}

/// The cache key of a nested clip made from a hash: the hash with its top bit set.
pub open spec fn scoped_id_of(hash: u64) -> u64 {
    hash | 0x8000_0000_0000_0000
}

/// The cache key of a nested clip made from a hash. It has the top bit set, so it never equals
/// the id of a top-level clip, and otherwise keeps the hash's bits.
pub fn scoped_id_from_hash(hash: u64) -> (id: u64)
    ensures
        id == scoped_id_of(hash),
        id >= scoped_bit(),
        id % 0x8000_0000_0000_0000 == hash % 0x8000_0000_0000_0000,
{
    let id = hash | 0x8000_0000_0000_0000u64;
    assert(id >= 0x8000_0000_0000_0000u64) by (bit_vector)
        requires
            id == hash | 0x8000_0000_0000_0000u64,
    ;
    assert(id % 0x8000_0000_0000_0000u64 == hash % 0x8000_0000_0000_0000u64) by (bit_vector)
        requires
            id == hash | 0x8000_0000_0000_0000u64,
    ;
    id
}

/// A key made from a hash has the top bit set.
pub proof fn lemma_scoped_id_is_scoped(hash: u64)
    ensures
        scoped_id_of(hash) >= scoped_bit(),
{
    let id = scoped_id_of(hash);
    assert(id >= 0x8000_0000_0000_0000u64) by (bit_vector)
        requires
            id == hash | 0x8000_0000_0000_0000u64,
    ;
}

/// The cache key of a nested clip never equals the cache key of a top-level clip, which is
/// the clip's 32-bit id.
pub proof fn lemma_scoped_never_plain(hash: u64, clip: u32)
    ensures
        scoped_id_of(hash) != clip as u64,
{
    lemma_scoped_id_is_scoped(hash);
}

/// The cache key of clip `clip` under `scope`: the default hasher's digest of the bytes of
/// `scope` and then of `clip`, in native byte order, with the top bit set.
pub open spec fn scoped_key(scope: u64, clip: u32) -> u64 {
    scoped_id_of(DefaultHasher::spec_finish(seq![native_u64_bytes(scope), native_u32_bytes(clip)]))
}

/// The scope of the clips of composition `composition` shown by the clip with cache key
/// `parent`: the default hasher's digest of the bytes of both, in native byte order.
pub open spec fn scope_key(parent: u64, composition: u64) -> u64 {
    DefaultHasher::spec_finish(seq![native_u64_bytes(parent), native_u64_bytes(composition)])
}

/// The cache key of clip `clip` of a nested composition shown under `scope`: a hash of both
/// with the top bit set.
pub fn scoped_clip_id(scope: u64, clip: u32) -> (id: u64)
    ensures
        id == scoped_key(scope, clip),
        id >= scoped_bit(),
{
    let mut hasher = DefaultHasher::new();
    let scope_bytes = u64_native_bytes(scope);
    hasher.write(scope_bytes.as_slice());
    let clip_bytes = u32_native_bytes(clip);
    hasher.write(clip_bytes.as_slice());
    let hash = hasher.finish();
    assert(hasher@ =~= seq![native_u64_bytes(scope), native_u32_bytes(clip)]);
    scoped_id_from_hash(hash)
}

/// The scope of the clips of composition `composition` shown by the clip with cache key
/// `parent_clip_key`: a hash of both.
pub fn nested_cache_scope(parent_clip_key: u64, composition: u64) -> (scope: u64)
    ensures
        scope == scope_key(parent_clip_key, composition),
{
    let mut hasher = DefaultHasher::new();
    let parent_bytes = u64_native_bytes(parent_clip_key);
    hasher.write(parent_bytes.as_slice());
    let composition_bytes = u64_native_bytes(composition);
    hasher.write(composition_bytes.as_slice());
    assert(hasher@ =~= seq![native_u64_bytes(parent_clip_key), native_u64_bytes(composition)]);
    hasher.finish()
}

/// The keys below the top bit of `ids`: those of top-level clips.
pub open spec fn plain_ids(ids: Set<u64>) -> Set<u64> {
    ids.filter(|x: u64| x < scoped_bit())
}

/// The ids of `clips`, as cache keys.
pub open spec fn clip_ids(clips: Seq<Clip>) -> Set<u64> {
    Set::new(|x: u64| exists|i: int| 0 <= i < clips.len() && #[trigger] clips[i].id as u64 == x)
}

/// The cache keys of `clips` under `scope`.
pub open spec fn scoped_keys(scope: u64, clips: Seq<Clip>) -> Set<u64> {
    Set::new(|x: u64| exists|i: int| 0 <= i < clips.len() && #[trigger] scoped_key(scope, clips[i].id) == x)
}

/// The cache key of clip `clip` under `scope`, or its plain id at the top level.
pub open spec fn parent_key(scope: Option<u64>, clip: u32) -> u64 {
    match scope {
        Some(s) => scoped_key(s, clip),
        None => clip as u64,
    }
}

/// The cache keys of the clips of the compositions that `clips` (shown under `scope`, at
/// `depth`) show, and of those the clips of those compositions show in turn: a composition
/// already on `path` is passed over, and nothing is reached from depth 16 on. A composition
/// shown by a clip with key `k` gives its clips the scope `scope_key(k, composition)`.
pub open spec fn nested_keys(project: Project, clips: Seq<Clip>, scope: Option<u64>, path: Seq<u64>, depth: nat) -> Set<u64>
    decreases 16 - depth, clips.len(),
{
    if depth >= 16 || clips.len() == 0 {
        Set::empty()
    } else {
        let rest = nested_keys(project, clips.drop_last(), scope, path, depth);
        let clip = clips.last();
        match clip.composition {
            Some(id) => match composition_position(project.compositions@, id) {
                Some(p) => if path.contains(id) {
                    rest
                } else {
                    let child = scope_key(parent_key(scope, clip.id), id);
                    rest.union(scoped_keys(child, project.compositions@[p].clips@)).union(
                        nested_keys(project, project.compositions@[p].clips@, Some(child), path.push(id), depth + 1),
                    )
                },
                None => rest,
            },
            None => rest,
        }
    }
}

/// Every key that a descent adds has the top bit set.
pub proof fn lemma_nested_keys_scoped(project: Project, clips: Seq<Clip>, scope: Option<u64>, path: Seq<u64>, depth: nat)
    ensures
        forall|x: u64| #[trigger] nested_keys(project, clips, scope, path, depth).contains(x) ==> x >= scoped_bit(),
    decreases 16 - depth, clips.len(),
{
    if depth < 16 && clips.len() > 0 {
        let rest = nested_keys(project, clips.drop_last(), scope, path, depth);
        let all = nested_keys(project, clips, scope, path, depth);
        lemma_nested_keys_scoped(project, clips.drop_last(), scope, path, depth);
        let clip = clips.last();
        let opened = match clip.composition {
            Some(id) => composition_position(project.compositions@, id) is Some && !path.contains(id),
            None => false,
        };
        if opened {
            let id = clip.composition->0;
            let p = composition_position(project.compositions@, id)->0;
            let child = scope_key(parent_key(scope, clip.id), id);
            let inner = project.compositions@[p].clips@;
            lemma_nested_keys_scoped(project, inner, Some(child), path.push(id), depth + 1);
            assert forall|x: u64| #[trigger] scoped_keys(child, inner).contains(x) implies x >= scoped_bit() by {
                let i = choose|i: int| 0 <= i < inner.len() && #[trigger] scoped_key(child, inner[i].id) == x;
                lemma_scoped_id_is_scoped(
                    DefaultHasher::spec_finish(seq![native_u64_bytes(child), native_u32_bytes(inner[i].id)]),
                );
            }
            let deeper = nested_keys(project, inner, Some(child), path.push(id), depth + 1);
            assert(all == rest.union(scoped_keys(child, inner)).union(deeper));
        } else {
            assert(all == rest);
        }
    }
}

/// `list` holds `x`.
fn contains_u64(list: &Vec<u64>, x: u64) -> (found: bool)
    ensures
        found == list@.contains(x),
{
    let mut k: usize = 0;
    while k < list.len()
        invariant
            k <= list.len(),
            forall|q: int| 0 <= q < k ==> list@[q] != x,
        decreases list.len() - k,
    {
        if list[k] == x {
            return true;
        }
        k = k + 1;
    }
    false
}

/// Adds the cache key of each of `clips` under `scope` to `ids`.
fn insert_scoped_keys(ids: &mut HashSet<u64>, scope: u64, clips: &[Clip])
    ensures
        final(ids)@ == old(ids)@.union(scoped_keys(scope, clips@)),
{
    let ghost start = ids@;
    let mut c: usize = 0;
    while c < clips.len()
        invariant
            c <= clips.len(),
            start == old(ids)@,
            ids@ == start.union(scoped_keys(scope, clips@.take(c as int))),
        decreases clips.len() - c,
    {
        let key = scoped_clip_id(scope, clips[c].id);
        ids.insert(key);
        proof {
            let before = scoped_keys(scope, clips@.take(c as int));
            let after = scoped_keys(scope, clips@.take(c + 1));
            assert forall|x: u64| after.contains(x) <==> before.insert(key).contains(x) by {
                if after.contains(x) {
                    let i = choose|i: int| 0 <= i < c + 1 && #[trigger] scoped_key(scope, clips@.take(c + 1)[i].id) == x;
                    if i < c {
                        assert(clips@.take(c as int)[i] == clips@.take(c + 1)[i]);
                    }
                }
                if before.contains(x) {
                    let i = choose|i: int| 0 <= i < c && #[trigger] scoped_key(scope, clips@.take(c as int)[i].id) == x;
                    assert(clips@.take(c as int)[i] == clips@.take(c + 1)[i]);
                }
                if x == key {
                    assert(clips@.take(c + 1)[c as int] == clips@[c as int]);
                }
            }
            assert(after =~= before.insert(key));
            assert(ids@ =~= start.union(after));
        }
        c = c + 1;
    }
    assert(clips@.take(clips.len() as int) =~= clips@);
}

/// Adds to `ids` the cache keys of the clips of the compositions that `clips` (shown under
/// `scope`) show, and of the compositions those show in turn. A composition already on
/// `active_path` (the compositions being descended through) is passed over, and the descent
/// stops at depth 16.
#[verifier::rlimit(50)]
fn collect_nested_cache_clip_ids(
    project: &Project,
    clips: &[Clip],
    scope: Option<u64>,
    depth: usize,
    active_path: &mut Vec<u64>,
    ids: &mut HashSet<u64>,
)
    requires
        depth <= 16,
    ensures
        final(active_path)@ == old(active_path)@,
        final(ids)@ == old(ids)@.union(nested_keys(*project, clips@, scope, old(active_path)@, depth as nat)),
    decreases 16 - depth,
{
    if depth >= 16 {
        assert(nested_keys(*project, clips@, scope, old(active_path)@, depth as nat) =~= Set::empty());
        assert(ids@ =~= ids@.union(Set::empty()));
        return;
    }
    let ghost start_ids = ids@;
    let ghost path = active_path@;
    let mut i: usize = 0;
    assert(clips@.take(0) =~= Seq::<Clip>::empty());
    assert(start_ids =~= start_ids.union(Set::empty()));
    while i < clips.len()
        invariant
            i <= clips.len(),
            depth < 16,
            path == old(active_path)@,
            active_path@ == path,
            start_ids == old(ids)@,
            ids@ == start_ids.union(nested_keys(*project, clips@.take(i as int), scope, path, depth as nat)),
        decreases clips.len() - i,
    {
        let clip = clips[i];
        let ghost before = ids@;
        let ghost prefix = clips@.take(i + 1);
        proof {
            assert(prefix.drop_last() =~= clips@.take(i as int));
            assert(prefix.last() == clip);
        }
        if let Some(composition_id) = clip.composition {
            let position = find_composition(&project.compositions, composition_id);
            if let Some(p) = position {
                let composition = &project.compositions[p];
                if !contains_u64(active_path, composition.id) {
                    active_path.push(composition.id);
                    let parent_clip_key = match scope {
                        Some(scope) => scoped_clip_id(scope, clip.id),
                        None => clip.id as u64,
                    };
                    let child_scope = nested_cache_scope(parent_clip_key, composition.id);
                    insert_scoped_keys(ids, child_scope, composition.clips.as_slice());
                    collect_nested_cache_clip_ids(
                        project,
                        composition.clips.as_slice(),
                        Some(child_scope),
                        depth + 1,
                        active_path,
                        ids,
                    );
                    active_path.pop();
                    proof {
                        assert(parent_clip_key == parent_key(scope, clip.id));
                        assert(ids@ =~= start_ids.union(nested_keys(*project, prefix, scope, path, depth as nat)));
                    }
                } else {
                    assert(ids@ =~= start_ids.union(nested_keys(*project, prefix, scope, path, depth as nat)));
                }
            } else {
                assert(ids@ =~= start_ids.union(nested_keys(*project, prefix, scope, path, depth as nat)));
            }
        } else {
            assert(ids@ =~= start_ids.union(nested_keys(*project, prefix, scope, path, depth as nat)));
        }
        i = i + 1;
    }
    assert(clips@.take(clips.len() as int) =~= clips@);
}

/// The cache keys of every clip that can still be drawn: the ids of the clips of the timeline
/// shown, and the scoped keys of the clips of the compositions they show, at any depth below
/// 16, a composition never being descended into from within itself.
pub fn live_cache_clip_ids(project: &Project, clips: &[Clip]) -> (ids: HashSet<u64>)
    ensures
        ids@ == clip_ids(clips@).union(nested_keys(*project, clips@, None, seq![project.active_composition], 0)),
        plain_ids(ids@) == clip_ids(clips@),
{
    let mut ids: HashSet<u64> = HashSet::new();
    let mut i: usize = 0;
    while i < clips.len()
        invariant
            i <= clips.len(),
            ids@ == Set::new(|x: u64| exists|j: int| 0 <= j < i && #[trigger] clips@[j].id as u64 == x),
        decreases clips.len() - i,
    {
        ids.insert(clips[i].id as u64);
        proof {
            let want = Set::new(|x: u64| exists|j: int| 0 <= j < i + 1 && #[trigger] clips@[j].id as u64 == x);
            assert forall|x: u64| ids@.contains(x) <==> want.contains(x) by {
                if want.contains(x) {
                    let j = choose|j: int| 0 <= j < i + 1 && #[trigger] clips@[j].id as u64 == x;
                    if j < i {
                        assert(0 <= j < i && clips@[j].id as u64 == x);
                    }
                }
                if ids@.contains(x) && x != clips@[i as int].id as u64 {
                    let j = choose|j: int| 0 <= j < i && #[trigger] clips@[j].id as u64 == x;
                    assert(0 <= j < i + 1 && clips@[j].id as u64 == x);
                }
                if x == clips@[i as int].id as u64 {
                    assert(0 <= i < i + 1 && clips@[i as int].id as u64 == x);
                }
            }
            assert(ids@ =~= want);
        }
        i = i + 1;
    }
    let ghost top = ids@;
    assert(top =~= clip_ids(clips@));
    let mut active_path: Vec<u64> = Vec::new();
    active_path.push(project.active_composition);
    assert(active_path@ =~= seq![project.active_composition]);
    collect_nested_cache_clip_ids(project, clips, None, 0, &mut active_path, &mut ids);
    proof {
        let nested = nested_keys(*project, clips@, None, seq![project.active_composition], 0);
        lemma_nested_keys_scoped(*project, clips@, None, seq![project.active_composition], 0);
        assert forall|x: u64| plain_ids(ids@).contains(x) <==> top.contains(x) by {
            if top.contains(x) {
                let j = choose|j: int| 0 <= j < clips.len() && #[trigger] clips@[j].id as u64 == x;
                assert(x < 0x1_0000_0000);
            }
            if nested.contains(x) {
                assert(x >= scoped_bit());
            }
        }
        assert(plain_ids(ids@) =~= top);
    }
    ids
}

/// The tint seed of a placeholder frame: the label's bytes folded from 0, each step
/// multiplying by 16777619 (wrapping) and xor-ing in the byte.
pub open spec fn label_hash(bytes: Seq<u8>) -> u32
    decreases bytes.len(),
{
    if bytes.len() == 0 {
        0
    } else {
        label_hash(bytes.drop_last()).wrapping_mul(16777619) ^ (bytes.last() as u32)
    }
}

/// The tint seed of a placeholder frame for `label`.
pub fn placeholder_label_hash(label: &str) -> (hash: u32)
    ensures
        hash == label_hash(label.spec_bytes()),
{
    let bytes = label.as_bytes();
    let mut hash: u32 = 0;
    let mut i: usize = 0;
    while i < bytes.len()
        invariant
            i <= bytes.len(),
            bytes@ == label.spec_bytes(),
            hash == label_hash(bytes@.take(i as int)),
        decreases bytes.len() - i,
    {
        assert(bytes@.take(i + 1).drop_last() =~= bytes@.take(i as int));
        hash = hash.wrapping_mul(16777619) ^ (bytes[i] as u32);
        i = i + 1;
    }
    assert(bytes@.take(bytes.len() as int) =~= bytes@);
    hash
}

/// The red, green and blue seeds of a placeholder's tint: the low three bytes of the label's
/// hash, lowest first.
pub fn placeholder_tint_seeds(label: &str) -> (seeds: [u8; 3])
    ensures
        seeds[0] == label_hash(label.spec_bytes()) % 256,
        seeds[1] == (label_hash(label.spec_bytes()) / 256) % 256,
        seeds[2] == (label_hash(label.spec_bytes()) / 65536) % 256,
{
    let hash = placeholder_label_hash(label);
    let red = (hash & 0xff) as u8;
    let green = ((hash >> 8) & 0xff) as u8;
    let blue = ((hash >> 16) & 0xff) as u8;
    assert(hash & 0xff == hash % 256) by (bit_vector);
    assert((hash >> 8) & 0xff == (hash / 256) % 256) by (bit_vector);
    assert((hash >> 16) & 0xff == (hash / 65536) % 256) by (bit_vector);
    [red, green, blue]
}

/// The pixel at (`x`, `y`) lies on a lighter square of the placeholder's 32-pixel checker.
pub fn placeholder_checker(x: u32, y: u32) -> (light: bool)
    ensures
        light == ((x / 32 + y / 32) % 2 == 1),
{
    (x / 32 + y / 32) % 2 == 1
}

} // verus!
