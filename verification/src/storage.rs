//! Persistent storage with cold/warm access tracking, and transient storage.
//!
//! Both keep their entries as a journal of `(key, value)` pairs: the newest
//! entry for a key wins, and a zero value marks a deletion.  The view is the
//! partial map that journal spells, which never maps a key to zero — so a
//! load of zero and an absent key are the same thing, as the machine wants.

use vstd::prelude::*;

use crate::word::Word;

verus! {

/// The partial map a journal spells: later entries shadow earlier ones, and
/// a zero value removes the key.
pub open spec fn map_of(s: Seq<(Word, Word)>) -> Map<nat, nat>
    decreases s.len(),
{
    if s.len() == 0 {
        Map::empty()
    } else {
        let m = map_of(s.drop_last());
        if s.last().1@ == 0 {
            m.remove(s.last().0@)
        } else {
            m.insert(s.last().0@, s.last().1@)
        }
    }
}

/// The value the journal gives a key: the newest entry's value, or zero.
pub open spec fn assoc_val(s: Seq<(Word, Word)>, k: nat) -> nat
    decreases s.len(),
{
    if s.len() == 0 {
        0
    } else if s.last().0@ == k {
        s.last().1@
    } else {
        assoc_val(s.drop_last(), k)
    }
}

/// What a map gives a key, with zero for an absent one.
pub open spec fn lookup(m: Map<nat, nat>, k: nat) -> nat {
    if m.dom().contains(k) {
        m[k]
    } else {
        0
    }
}

/// The set a sequence of words spells.
pub open spec fn set_of(s: Seq<Word>) -> Set<nat>
    decreases s.len(),
{
    if s.len() == 0 {
        Set::empty()
    } else {
        set_of(s.drop_last()).insert(s.last()@)
    }
}

/// The journal's map and its newest-entry scan agree, and the map holds a
/// key exactly when that scan finds a nonzero value.
pub proof fn lemma_assoc(s: Seq<(Word, Word)>, k: nat)
    ensures
        lookup(map_of(s), k) == assoc_val(s, k),
        map_of(s).dom().contains(k) <==> assoc_val(s, k) != 0,
    decreases s.len(),
{
    if s.len() > 0 {
        lemma_assoc(s.drop_last(), k);
    }
}

/// Membership in the set a word sequence spells.
pub proof fn lemma_set_of(s: Seq<Word>, k: nat)
    ensures
        set_of(s).contains(k) <==> exists|i: int| 0 <= i < s.len() && s[i]@ == k,
    decreases s.len(),
{
    if s.len() > 0 {
        lemma_set_of(s.drop_last(), k);
        if exists|i: int| 0 <= i < s.len() && s[i]@ == k {
            let i = choose|i: int| 0 <= i < s.len() && s[i]@ == k;
            if i < s.len() - 1 {
                assert(s.drop_last()[i]@ == k);
            }
        }
    }
}

/// Persistent key/value storage with its access set.
pub struct Storage {
    /// The journal of writes.
    pub storage: Vec<(Word, Word)>,
    /// The keys touched during this execution: the access set.
    pub cache: Vec<Word>,
}

impl Storage {
    /// The stored map: what the journal spells.
    pub open spec fn as_map(&self) -> Map<nat, nat> {
        map_of(self.storage@)
    }

    /// The access set: a key is warm exactly when it is in here.
    pub open spec fn warm(&self) -> Set<nat> {
        set_of(self.cache@)
    }

    /// Empty storage, nothing warm.
    pub fn new() -> (r: Storage)
        ensures
            r.as_map() =~= Map::<nat, nat>::empty(),
            r.warm() =~= Set::<nat>::empty(),
    {
        Storage { storage: Vec::new(), cache: Vec::new() }
    }

    /// The newest value for a key, or zero.
    fn load_raw(&self, key: &Word) -> (r: Word)
        ensures
            r@ == lookup(self.as_map(), key@),
    {
        let mut i: usize = self.storage.len();
        proof {
            assert(self.storage@.take(self.storage@.len() as int) =~= self.storage@);
        }
        while i > 0
            invariant
                i <= self.storage@.len(),
                assoc_val(self.storage@, key@) == assoc_val(
                    self.storage@.take(i as int), key@),
            decreases i,
        {
            i = i - 1;
            let entry = self.storage[i];
            proof {
                lemma_assoc(self.storage@, key@);
                assert(self.storage@.take(i + 1).drop_last() =~= self.storage@.take(i as int));
                assert(self.storage@.take(i + 1).last() == self.storage@[i as int]);
            }
            if entry.0.equals(key) {
                return entry.1;
            }
        }
        proof {
            lemma_assoc(self.storage@, key@);
            assert(self.storage@.take(0) =~= Seq::<(Word, Word)>::empty());
        }
        Word::zero()
    }

    /// Whether a key is in the access set.
    fn is_cached(&self, key: &Word) -> (r: bool)
        ensures
            r == self.warm().contains(key@),
    {
        let mut i: usize = 0;
        while i < self.cache.len()
            invariant
                i <= self.cache@.len(),
                forall|j: int| 0 <= j < i ==> self.cache@[j]@ != key@,
            decreases self.cache@.len() - i,
        {
            if self.cache[i].equals(key) {
                proof {
                    lemma_set_of(self.cache@, key@);
                }
                return true;
            }
            i = i + 1;
        }
        proof {
            lemma_set_of(self.cache@, key@);
        }
        false
    }

    /// Put a key into the access set, reporting whether it already was warm.
    fn touch(&mut self, key: &Word) -> (r: bool)
        ensures
            r == old(self).warm().contains(key@),
            final(self).warm() =~= old(self).warm().insert(key@),
            final(self).as_map() == old(self).as_map(),
            final(self).storage@ == old(self).storage@,
    {
        let warm = self.is_cached(key);
        if !warm {
            let ghost pre = self.cache@;
            self.cache.push(*key);
            proof {
                assert(self.cache@.drop_last() =~= pre);
            }
        } else {
            proof {
                assert(self.warm().insert(key@) =~= self.warm());
            }
        }
        warm
    }

    /// Load a value and warm its key: reports whether the key already was
    /// warm, and the stored value (zero when absent).
    pub fn load(&mut self, key: Word) -> (r: (bool, Word))
        ensures
            r.0 == old(self).warm().contains(key@),
            r.1@ == lookup(old(self).as_map(), key@),
            final(self).warm() =~= old(self).warm().insert(key@),
            final(self).as_map() == old(self).as_map(),
    {
        let is_warm = self.touch(&key);
        (is_warm, self.load_raw(&key))
    }

    /// Store a value and warm its key: reports whether the key already was
    /// warm, and the value it held before (zero when absent).  Storing zero
    /// removes the key.
    pub fn store(&mut self, key: Word, value: Word) -> (r: (bool, Word))
        ensures
            r.0 == old(self).warm().contains(key@),
            r.1@ == lookup(old(self).as_map(), key@),
            final(self).warm() =~= old(self).warm().insert(key@),
            value@ == 0 ==> final(self).as_map() =~= old(self).as_map().remove(key@),
            value@ != 0 ==> final(self).as_map() =~= old(self).as_map().insert(key@, value@),
    {
        let is_warm = self.touch(&key);
        let old_value = self.load_raw(&key);
        let ghost pre = self.storage@;
        self.storage.push((key, value));
        proof {
            assert(self.storage@.drop_last() =~= pre);
        }
        (is_warm, old_value)
    }

    /// Read a key and its warmth without touching anything: the helper the
    /// SSTORE gas rule uses.
    pub fn peek(&self, key: &Word) -> (r: (bool, Word))
        ensures
            r.0 == self.warm().contains(key@),
            r.1@ == lookup(self.as_map(), key@),
    {
        (self.is_cached(key), self.load_raw(key))
    }
}

/// Every key a storage map holds has a nonzero value: a load of zero and an
/// absent key are the same observation.
pub proof fn lemma_zero_means_absent(s: Storage, k: nat)
    ensures
        lookup(s.as_map(), k) == 0 <==> !s.as_map().dom().contains(k),
{
    lemma_assoc(s.storage@, k);
}

/// Per-execution storage: the same journal, no access set.
pub struct TransientStorage {
    pub entries: Vec<(Word, Word)>,
}

impl TransientStorage {
    /// The stored map.
    pub open spec fn as_map(&self) -> Map<nat, nat> {
        map_of(self.entries@)
    }

    /// Empty transient storage.
    pub fn new() -> (r: TransientStorage)
        ensures
            r.as_map() =~= Map::<nat, nat>::empty(),
    {
        TransientStorage { entries: Vec::new() }
    }

    /// The stored value for a key, zero when absent.
    pub fn load(&self, key: &Word) -> (r: Word)
        ensures
            r@ == lookup(self.as_map(), key@),
    {
        let mut i: usize = self.entries.len();
        proof {
            assert(self.entries@.take(self.entries@.len() as int) =~= self.entries@);
        }
        while i > 0
            invariant
                i <= self.entries@.len(),
                assoc_val(self.entries@, key@) == assoc_val(
                    self.entries@.take(i as int), key@),
            decreases i,
        {
            i = i - 1;
            let entry = self.entries[i];
            proof {
                lemma_assoc(self.entries@, key@);
                assert(self.entries@.take(i + 1).drop_last() =~= self.entries@.take(i as int));
                assert(self.entries@.take(i + 1).last() == self.entries@[i as int]);
            }
            if entry.0.equals(key) {
                return entry.1;
            }
        }
        proof {
            lemma_assoc(self.entries@, key@);
            assert(self.entries@.take(0) =~= Seq::<(Word, Word)>::empty());
        }
        Word::zero()
    }

    /// Store a value; zero removes the key.
    pub fn store(&mut self, key: Word, value: Word)
        ensures
            value@ == 0 ==> final(self).as_map() =~= old(self).as_map().remove(key@),
            value@ != 0 ==> final(self).as_map() =~= old(self).as_map().insert(key@, value@),
    {
        let ghost pre = self.entries@;
        self.entries.push((key, value));
        proof {
            assert(self.entries@.drop_last() =~= pre);
        }
    }
}

} // verus!
