//! The branch-mask map, and the map that a list of entries denotes.
use vstd::prelude::*;
use crate::primitives::Nibbles;

verus! {

/// The map that a list of entries denotes: each entry in turn is written over
/// what came before.
pub open spec fn fold_map<K, V>(s: Seq<(K, V)>) -> Map<K, V>
    decreases s.len(),
{
    if s.len() == 0 {
        Map::empty()
    } else {
        fold_map(s.drop_last()).insert(s.last().0, s.last().1)
    }
}

pub proof fn lemma_fold_push<K, V>(s: Seq<(K, V)>, e: (K, V))
    ensures
        fold_map(s.push(e)) == fold_map(s).insert(e.0, e.1),
{
    assert(s.push(e).drop_last() =~= s);
}

/// The entry at `i` is the last one for its key: the map gives its value.
pub proof fn lemma_fold_last<K, V>(s: Seq<(K, V)>, i: int)
    requires
        0 <= i < s.len(),
        forall|j: int| i < j < s.len() ==> s[j].0 != s[i].0,
    ensures
        fold_map(s).contains_key(s[i].0),
        fold_map(s)[s[i].0] == s[i].1,
    decreases s.len(),
{
    if i < s.len() - 1 {
        let t = s.drop_last();
        assert(forall|j: int| i < j < t.len() ==> t[j] == s[j]);
        lemma_fold_last(t, i);
    }
}

/// No entry has key `k`: the map holds no `k`.
pub proof fn lemma_fold_absent<K, V>(s: Seq<(K, V)>, k: K)
    requires
        forall|j: int| 0 <= j < s.len() ==> s[j].0 != k,
    ensures
        !fold_map(s).contains_key(k),
    decreases s.len(),
{
    if s.len() > 0 {
        let t = s.drop_last();
        assert(forall|j: int| 0 <= j < t.len() ==> t[j] == s[j]);
        lemma_fold_absent(t, k);
    }
}

/// A list of entries whose keys are distinct and whose entries are exactly those
/// of `m` denotes `m`.
pub proof fn lemma_fold_distinct<K, V>(s: Seq<(K, V)>, m: Map<K, V>)
    requires
        forall|i: int, j: int| 0 <= i < j < s.len() ==> s[i].0 != s[j].0,
        forall|i: int| 0 <= i < s.len() ==> m.contains_key(s[i].0) && m[s[i].0] == s[i].1,
        forall|k: K| m.contains_key(k) ==> exists|i: int| 0 <= i < s.len() && s[i].0 == k,
    ensures
        fold_map(s) == m,
{
    assert forall|k: K| #[trigger] m.contains_key(k) implies fold_map(s).contains_key(k) && fold_map(s)[k] == m[k] by {
        let i = choose|i: int| 0 <= i < s.len() && s[i].0 == k;
        lemma_fold_last(s, i);
    }
    assert forall|k: K| #[trigger] fold_map(s).contains_key(k) implies m.contains_key(k) by {
        if !m.contains_key(k) {
            assert(forall|j: int| 0 <= j < s.len() ==> s[j].0 != k);
            lemma_fold_absent(s, k);
        }
    }
    assert(fold_map(s) =~= m);
}

/// A 16-bit mask (one bit per child) for each branch path, held in alloy's
/// `HashMap<Nibbles, TrieMask>`.
#[verifier::external_body]
pub struct MaskMap {
    inner: alloy_primitives::map::HashMap<alloy_trie::Nibbles, alloy_trie::TrieMask>,
}

/// What a `MaskMap` holds: mask bits by path.
pub uninterp spec fn mask_contents(masks: MaskMap) -> Map<Seq<u8>, u16>;

impl View for MaskMap {
    type V = Map<Seq<u8>, u16>;

    open spec fn view(&self) -> Map<Seq<u8>, u16> {
        mask_contents(*self)
    }
}

/// Relies on `Default` of alloy_primitives' `HashMap`: no entry.
#[verifier::external_body]
fn masks_new() -> (r: MaskMap)
    ensures
        mask_contents(r).dom() == Set::<Seq<u8>>::empty(),
{
    MaskMap { inner: alloy_primitives::map::HashMap::default() }
}

/// Relies on `HashMap::insert`, which adds or replaces the mask at a path.
#[verifier::external_body]
fn masks_insert(masks: &mut MaskMap, path: &Nibbles, mask: u16)
    requires
        path.wf(),
    ensures
        mask_contents(*final(masks)) == mask_contents(*old(masks)).insert(path@, mask),
{
    masks.inner.insert(
        alloy_trie::Nibbles::from_nibbles(&path.data),
        alloy_trie::TrieMask::new(mask),
    );
}

/// Relies on `HashMap::get`: the mask at a path, if any.
#[verifier::external_body]
fn masks_get(masks: &MaskMap, path: &Nibbles) -> (r: Option<u16>)
    requires
        path.wf(),
    ensures
        r == (if mask_contents(*masks).contains_key(path@) {
            Some(mask_contents(*masks)[path@])
        } else {
            None
        }),
{
    masks.inner.get(&alloy_trie::Nibbles::from_nibbles(&path.data)).map(|m| m.get())
}

/// Relies on `HashMap::is_empty`.
#[verifier::external_body]
fn masks_is_empty(masks: &MaskMap) -> (r: bool)
    ensures
        r == (mask_contents(*masks).dom() == Set::<Seq<u8>>::empty()),
{
    masks.inner.is_empty()
}

/// Relies on `Extend` of `HashMap`: the entries of `other` are added, replacing
/// those at the same path.
#[verifier::external_body]
fn masks_extend(masks: &mut MaskMap, other: MaskMap)
    ensures
        mask_contents(*final(masks)) == mask_contents(*old(masks)).union_prefer_right(
            mask_contents(other),
        ),
{
    masks.inner.extend(other.inner)
}

impl MaskMap {
    /// A map with no mask.
    pub fn new() -> (r: MaskMap)
        ensures
            r@ == Map::<Seq<u8>, u16>::empty(),
    {
        let r = masks_new();
        assert(r@ =~= Map::<Seq<u8>, u16>::empty());
        r
    }

    /// Records `mask` for `path`, replacing any mask there.
    pub fn insert(&mut self, path: Nibbles, mask: u16)
        requires
            path.wf(),
        ensures
            final(self)@ == old(self)@.insert(path@, mask),
    {
        masks_insert(self, &path, mask)
    }

    /// The mask recorded for `path`.
    pub fn get(&self, path: &Nibbles) -> (r: Option<u16>)
        requires
            path.wf(),
        ensures
            r == (if self@.contains_key(path@) {
                Some(self@[path@])
            } else {
                None
            }),
    {
        masks_get(self, path)
    }

    pub fn is_empty(&self) -> (r: bool)
        ensures
            r == (self@ == Map::<Seq<u8>, u16>::empty()),
    {
        let r = masks_is_empty(self);
        if r {
            assert(self@ =~= Map::<Seq<u8>, u16>::empty());
        }
        r
    }

    /// Records every mask of `other`; at a path that both hold, `other`'s mask is kept.
    pub fn extend(&mut self, other: MaskMap)
        ensures
            final(self)@ == old(self)@.union_prefer_right(other@),
    {
        masks_extend(self, other)
    }
}

} // verus!
