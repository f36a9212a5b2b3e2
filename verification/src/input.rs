//! The pressed-input set: which keys are currently held.
//!
//! Key-down inserts idempotently (auto-repeat duplicates leave the set
//! unchanged), key-up removes the key fully, so one release always undoes
//! any number of presses of the same key and no duplicate entry can ever
//! cause a repeated impulse.

use vstd::prelude::*;

verus! {

/// Identity of a key: the directional keys the game binds, or any other key
/// by its raw code.
#[derive(Clone, Copy, PartialEq, Eq, Structural, Debug)]
pub enum Key {
    Left,
    Right,
    Up,
    Other(u32),
}

/// What a key-down does to the held sequence: nothing if the key is already
/// held, else it is appended.
pub open spec fn press_spec(s: Seq<Key>, k: Key) -> Seq<Key> {
    if s.contains(k) {
        s
    } else {
        s.push(k)
    }
}

/// What a key-up does to the held sequence: every occurrence of the key is
/// removed, the order of the others is kept.
pub open spec fn release_spec(s: Seq<Key>, k: Key) -> Seq<Key>
    decreases s.len(),
{
    if s.len() == 0 {
        Seq::empty()
    } else {
        let pre = release_spec(s.drop_last(), k);
        if s.last() == k {
            pre
        } else {
            pre.push(s.last())
        }
    }
}

/// A sequence extended by one element contains exactly what it contained
/// before, plus that element.
proof fn lemma_contains_push(s: Seq<Key>, v: Key, x: Key)
    ensures
        s.push(v).contains(x) <==> s.contains(x) || x == v,
{
    if s.contains(x) {
        let i = choose|i: int| 0 <= i < s.len() && s[i] == x;
        assert(s.push(v)[i] == x);
    }
    assert(s.push(v)[s.len() as int] == v);
    if s.push(v).contains(x) {
        let i = choose|i: int| 0 <= i < s.push(v).len() && s.push(v)[i] == x;
        if i < s.len() {
            assert(s[i] == x);
        }
    }
}

/// A non-empty sequence contains exactly what its front contains, plus its
/// last element.
proof fn lemma_contains_drop_last(s: Seq<Key>, x: Key)
    requires
        s.len() > 0,
    ensures
        s.contains(x) <==> s.drop_last().contains(x) || s.last() == x,
{
    if s.contains(x) {
        let i = choose|i: int| 0 <= i < s.len() && s[i] == x;
        if i < s.len() - 1 {
            assert(s.drop_last()[i] == x);
        }
    }
    if s.drop_last().contains(x) {
        let i = choose|i: int| 0 <= i < s.len() - 1 && s.drop_last()[i] == x;
        assert(s[i] == x);
    }
}

/// A key is held after a release exactly when it was held before and is not
/// the released key.
pub proof fn lemma_release_contains(s: Seq<Key>, k: Key, x: Key)
    ensures
        release_spec(s, k).contains(x) <==> s.contains(x) && x != k,
    decreases s.len(),
{
    if s.len() > 0 {
        lemma_release_contains(s.drop_last(), k, x);
        lemma_contains_drop_last(s, x);
        if s.last() != k {
            lemma_contains_push(release_spec(s.drop_last(), k), s.last(), x);
        }
    }
}

/// The sequence of currently held keys, in the order they went down.
/// Invariant: no key occurs twice.
pub struct PressedSet {
    keys: Vec<Key>,
}

impl View for PressedSet {
    type V = Seq<Key>;

    closed spec fn view(&self) -> Seq<Key> {
        self.keys@
    }
}

impl PressedSet {
    /// No key occurs twice.
    pub open spec fn wf(&self) -> bool {
        forall|i: int, j: int| 0 <= i < j < self@.len() ==> self@[i] != self@[j]
    }

    /// An empty set: no key held.
    pub fn new() -> (s: PressedSet)
        ensures
            s@ == Seq::<Key>::empty(),
            s.wf(),
    {
        PressedSet { keys: Vec::new() }
    }

    /// How many distinct keys are held.
    pub fn len(&self) -> (n: usize)
        ensures
            n == self@.len(),
    {
        self.keys.len()
    }

    /// The held key at position `i`, in key-down order.
    pub fn get(&self, i: usize) -> (k: Key)
        requires
            i < self@.len(),
        ensures
            k == self@[i as int],
    {
        self.keys[i]
    }

    /// Whether `k` is currently held.
    pub fn contains(&self, k: Key) -> (r: bool)
        ensures
            r == self@.contains(k),
    {
        let n = self.keys.len();
        let mut i: usize = 0;
        while i < n
            invariant
                n == self@.len(),
                i <= n,
                forall|j: int| 0 <= j < i ==> self@[j] != k,
            decreases n - i,
        {
            if self.keys[i] == k {
                return true;
            }
            i = i + 1;
        }
        false
    }

    /// Record a key going down. Inserting an already-held key is a no-op,
    /// so auto-repeat events never duplicate an entry.
    pub fn key_down(&mut self, k: Key)
        requires
            old(self).wf(),
        ensures
            final(self)@ == press_spec(old(self)@, k),
            final(self).wf(),
            final(self)@.contains(k),
    {
        if !self.contains(k) {
            self.keys.push(k);
            assert(self@[self@.len() - 1] == k);
        }
    }

    /// Record a key going up: the key is removed fully, whatever state the
    /// set is in; the order of the other keys is kept.
    pub fn key_up(&mut self, k: Key)
        ensures
            final(self)@ == release_spec(old(self)@, k),
            !final(self)@.contains(k),
            old(self).wf() ==> final(self).wf(),
    {
        let ghost orig: Seq<Key> = self.keys@;
        let n = self.keys.len();
        let mut kept: Vec<Key> = Vec::new();
        let mut i: usize = 0;
        while i < n
            invariant
                n == orig.len(),
                self@ == orig,
                i <= n,
                kept@ == release_spec(orig.take(i as int), k),
            decreases n - i,
        {
            let x = self.keys[i];
            proof {
                assert(orig.take(i + 1).drop_last() =~= orig.take(i as int));
                assert(orig.take(i + 1).last() == orig[i as int]);
            }
            if !(x == k) {
                kept.push(x);
            }
            i = i + 1;
        }
        proof {
            assert(orig.take(n as int) =~= orig);
        }
        self.keys = kept;
        proof {
            lemma_release_contains(orig, k, k);
            if forall|i: int, j: int| 0 <= i < j < orig.len() ==> orig[i] != orig[j] {
                assert forall|i: int, j: int|
                    0 <= i < j < self@.len() implies self@[i] != self@[j] by {
                    lemma_release_distinct(orig, k);
                }
            }
        }
    }
}

/// Releasing a key from a duplicate-free sequence leaves it duplicate-free.
proof fn lemma_release_distinct(s: Seq<Key>, k: Key)
    requires
        forall|i: int, j: int| 0 <= i < j < s.len() ==> s[i] != s[j],
    ensures
        forall|i: int, j: int|
            0 <= i < j < release_spec(s, k).len() ==> release_spec(s, k)[i] != release_spec(
                s,
                k,
            )[j],
    decreases s.len(),
{
    if s.len() > 0 {
        let front = s.drop_last();
        let v = s.last();
        assert forall|i: int, j: int| 0 <= i < j < front.len() implies front[i] != front[j] by {
            assert(front[i] == s[i] && front[j] == s[j]);
        }
        lemma_release_distinct(front, k);
        let pre = release_spec(front, k);
        if v == k {
            assert(release_spec(s, k) == pre);
        } else {
            let r = pre.push(v);
            assert(release_spec(s, k) == r);
            assert(!front.contains(v)) by {
                if front.contains(v) {
                    let m = choose|m: int| 0 <= m < front.len() && front[m] == v;
                    assert(s[m] == s[s.len() - 1]);
                }
            }
            lemma_release_contains(front, k, v);
            assert forall|i: int, j: int| 0 <= i < j < r.len() implies r[i] != r[j] by {
                if j < r.len() - 1 {
                    assert(r[i] == pre[i] && r[j] == pre[j]);
                } else {
                    assert(r[j] == v);
                    assert(r[i] == pre[i]);
                    if r[i] == v {
                        assert(pre.contains(v));
                    }
                }
            }
        }
    }
}

} // verus!
