//! The Script State Store: a session-scoped table of named flags and
//! variables read and written by commands to implement branching and
//! persistence of quest progress.  Keys that were never written read as
//! zero; writes are immediately visible to every later read in the same
//! frame, and a write to one key never disturbs another.

use vstd::prelude::*;

verus! {

/// Value of `key` in the entry list: the first matching entry wins, and a
/// key with no entry reads as zero.
pub open spec fn lookup(s: Seq<(u32, i32)>, key: u32) -> i32
    decreases s.len(),
{
    if s.len() == 0 {
        0
    } else if s[0].0 == key {
        s[0].1
    } else {
        lookup(s.drop_first(), key)
    }
}

proof fn lemma_lookup_update(s: Seq<(u32, i32)>, i: int, key: u32, value: i32)
    requires
        0 <= i < s.len(),
        s[i].0 == key,
        forall|j: int| 0 <= j < i ==> (#[trigger] s[j]).0 != key,
    ensures
        lookup(s.update(i, (key, value)), key) == value,
        forall|k: u32| k != key ==> lookup(s.update(i, (key, value)), k) == lookup(s, k),
    decreases i,
{
    let t = s.update(i, (key, value));
    if i == 0 {
        assert(t[0] == (key, value));
        assert(t.drop_first() =~= s.drop_first());
        assert forall|k: u32| k != key implies lookup(t, k) == lookup(s, k) by {
            assert(t[0].0 == key);
            assert(s[0].0 == key);
        }
    } else {
        assert(t[0] == s[0]);
        assert(s[0].0 != key);
        assert(t.drop_first() =~= s.drop_first().update(i - 1, (key, value)));
        assert(s.drop_first()[i - 1].0 == key);
        assert forall|j: int| 0 <= j < i - 1 implies (#[trigger] s.drop_first()[j]).0 != key by {
            assert(s.drop_first()[j] == s[j + 1]);
        }
        lemma_lookup_update(s.drop_first(), i - 1, key, value);
        assert(lookup(t, key) == lookup(t.drop_first(), key));
        assert forall|k: u32| k != key implies lookup(t, k) == lookup(s, k) by {
            if t[0].0 == k {
                assert(s[0].0 == k);
            } else {
                assert(lookup(t, k) == lookup(t.drop_first(), k));
                assert(lookup(s, k) == lookup(s.drop_first(), k));
            }
        }
    }
}

proof fn lemma_lookup_push(s: Seq<(u32, i32)>, key: u32, value: i32)
    requires
        forall|j: int| 0 <= j < s.len() ==> (#[trigger] s[j]).0 != key,
    ensures
        lookup(s.push((key, value)), key) == value,
        forall|k: u32| k != key ==> lookup(s.push((key, value)), k) == lookup(s, k),
    decreases s.len(),
{
    let t = s.push((key, value));
    if s.len() == 0 {
        assert(t[0] == (key, value));
        assert(t.drop_first() =~= Seq::<(u32, i32)>::empty());
        assert forall|k: u32| k != key implies lookup(t, k) == lookup(s, k) by {
            assert(lookup(t.drop_first(), k) == 0);
        }
    } else {
        assert(t[0] == s[0]);
        assert(s[0].0 != key);
        assert(t.drop_first() =~= s.drop_first().push((key, value)));
        assert forall|j: int| 0 <= j < s.drop_first().len()
            implies (#[trigger] s.drop_first()[j]).0 != key by {
            assert(s.drop_first()[j] == s[j + 1]);
        }
        lemma_lookup_push(s.drop_first(), key, value);
        assert forall|k: u32| k != key implies lookup(t, k) == lookup(s, k) by {
            if t[0].0 != k {
                assert(lookup(t, k) == lookup(t.drop_first(), k));
                assert(lookup(s, k) == lookup(s.drop_first(), k));
            }
        }
    }
}

/// The store itself: created at session start, passed by reference to
/// every command of the session.
pub struct SceState {
    entries: Vec<(u32, i32)>,
}

impl SceState {
    /// The value a read of `key` observes.
    pub closed spec fn value_of(&self, key: u32) -> i32 {
        lookup(self.entries@, key)
    }

    /// A fresh store: every key reads as zero.
    pub fn new() -> (r: SceState)
        ensures
            forall|k: u32| r.value_of(k) == 0,
    {
        let r = SceState { entries: Vec::new() };
        proof {
            assert(r.entries@.len() == 0);
        }
        r
    }

    /// Read `key`, defaulting to zero when it was never set.
    pub fn get(&self, key: u32) -> (r: i32)
        ensures
            r == self.value_of(key),
    {
        let n = self.entries.len();
        let mut i: usize = 0;
        proof {
            assert(self.entries@.skip(0) =~= self.entries@);
        }
        while i < n
            invariant
                i <= n,
                n == self.entries.len(),
                lookup(self.entries@.skip(i as int), key) == lookup(self.entries@, key),
            decreases n - i,
        {
            let e = self.entries[i];
            proof {
                assert(self.entries@.skip(i as int)[0] == self.entries@[i as int]);
                assert(self.entries@.skip(i as int).drop_first()
                    =~= self.entries@.skip(i as int + 1));
            }
            if e.0 == key {
                return e.1;
            }
            i = i + 1;
        }
        proof {
            assert(self.entries@.skip(n as int) =~= Seq::<(u32, i32)>::empty());
        }
        0
    }

    /// Write `value` under `key`.  The write is visible to every later
    /// read of `key`, and no other key changes.
    pub fn set(&mut self, key: u32, value: i32)
        ensures
            final(self).value_of(key) == value,
            forall|k: u32| k != key ==> final(self).value_of(k) == old(self).value_of(k),
    {
        let n = self.entries.len();
        let mut i: usize = 0;
        while i < n
            invariant
                i <= n,
                n == self.entries.len(),
                *self == *old(self),
                forall|j: int| 0 <= j < i ==> (#[trigger] self.entries@[j]).0 != key,
            decreases n - i,
        {
            let e = self.entries[i];
            if e.0 == key {
                proof {
                    lemma_lookup_update(self.entries@, i as int, key, value);
                }
                self.entries[i] = (key, value);
                return;
            }
            i = i + 1;
        }
        proof {
            lemma_lookup_push(self.entries@, key, value);
        }
        self.entries.push((key, value));
    }
}

} // verus!

