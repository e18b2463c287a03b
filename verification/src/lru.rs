use vstd::prelude::*;

verus! {

/// A cache entry seen abstractly: the key's characters and the value.
pub type Entry<V> = (Seq<char>, V);

/// No key occurs twice.
pub open spec fn keys_distinct<V>(s: Seq<Entry<V>>) -> bool {
    forall|i: int, j: int| 0 <= i < j < s.len() ==> s[i].0 != s[j].0
}

/// Some entry has key `k`.
pub open spec fn has_key<V>(s: Seq<Entry<V>>, k: Seq<char>) -> bool {
    exists|i: int| 0 <= i < s.len() && s[i].0 == k
}

/// The position of key `k` (meaningful when `has_key(s, k)`).
pub open spec fn key_pos<V>(s: Seq<Entry<V>>, k: Seq<char>) -> int {
    choose|i: int| 0 <= i < s.len() && s[i].0 == k
}

/// The value stored under `k`, if any.
pub open spec fn lookup<V>(s: Seq<Entry<V>>, k: Seq<char>) -> Option<V> {
    if has_key(s, k) {
        Some(s[key_pos(s, k)].1)
    } else {
        None
    }
}

/// The entries after a hit on `k`: its entry becomes the most recent one.
pub open spec fn touched<V>(s: Seq<Entry<V>>, k: Seq<char>) -> Seq<Entry<V>> {
    if has_key(s, k) {
        let i = key_pos(s, k);
        s.remove(i).push(s[i])
    } else {
        s
    }
}

/// The entries after storing `v` under `k` in a cache bounded by `max`:
/// an older entry for `k` is dropped, the new one becomes the most recent,
/// and when the bound is exceeded the least recently used entry leaves.
pub open spec fn inserted<V>(s: Seq<Entry<V>>, k: Seq<char>, v: V, max: nat) -> Seq<Entry<V>> {
    let without = if has_key(s, k) {
        s.remove(key_pos(s, k))
    } else {
        s
    };
    let grown = without.push((k, v));
    if grown.len() > max {
        grown.drop_first()
    } else {
        grown
    }
}

/// A least-recently-used cache of decoded tracks, keyed by file path.
/// Entries are kept from least to most recently used.
pub struct LruTrackCache<V> {
    entries: Vec<(String, V)>,
    max_items: usize,
}

impl<V> View for LruTrackCache<V> {
    type V = Seq<Entry<V>>;

    closed spec fn view(&self) -> Seq<Entry<V>> {
        self.entries@.map_values(|e: (String, V)| (e.0@, e.1))
    }
}

impl<V> LruTrackCache<V> {
    /// The number of entries the cache holds at most.
    pub closed spec fn capacity(&self) -> nat {
        self.max_items as nat
    }

    /// The cache's invariant: distinct keys, within capacity, capacity at least two.
    pub open spec fn wf(&self) -> bool {
        &&& keys_distinct(self@)
        &&& self@.len() <= self.capacity()
        &&& self.capacity() >= 2
    }

    /// An empty cache bounded by `max_items`, raised to two when smaller.
    pub fn new(max_items: usize) -> (c: Self)
        ensures
            c.wf(),
            c@ == Seq::<Entry<V>>::empty(),
            c.capacity() == if max_items < 2 { 2 } else { max_items as nat },
    {
        let max = if max_items < 2 { 2 } else { max_items };
        let c = LruTrackCache { entries: Vec::new(), max_items: max };
        assert(c@ =~= Seq::<Entry<V>>::empty());
        c
    }

    /// Position of `key` among the entries.
    fn find(&self, key: &String) -> (r: Option<usize>)
        requires
            self.wf(),
        ensures
            match r {
                Some(i) => i < self@.len() && self@[i as int].0 == key@ && i == key_pos(self@, key@)
                    && has_key(self@, key@),
                None => !has_key(self@, key@),
            },
    {
        let n = self.entries.len();
        let mut i: usize = 0;
        while i < n
            invariant
                n == self.entries.len(),
                self.wf(),
                i <= n,
                forall|j: int| 0 <= j < i ==> self@[j].0 != key@,
            decreases n - i,
        {
            if self.entries[i].0 == *key {
                assert(self@[i as int].0 == key@);
                proof {
                    let p = key_pos(self@, key@);
                    assert(0 <= p < self@.len() && self@[p].0 == key@);
                    if p != i as int {
                        if p < i {
                        } else {
                            assert(self@[i as int].0 != self@[p].0);
                        }
                    }
                }
                return Some(i);
            }
            i = i + 1;
        }
        None
    }

    /// Looks `path` up; on a hit its entry becomes the most recently used
    /// and a clone of its value is returned.
    pub fn get(&mut self, path: &str) -> (r: Option<V>) where V: Clone
        requires
            old(self).wf(),
        ensures
            final(self).wf(),
            final(self).capacity() == old(self).capacity(),
            final(self)@ == touched(old(self)@, path@),
            match r {
                Some(v) => lookup(old(self)@, path@) matches Some(w) && cloned(w, v),
                None => lookup(old(self)@, path@) is None,
            },
    {
        let key = String::from_str(path);
        match self.find(&key) {
            Some(i) => {
                let ghost before = self@;
                let e = self.entries.remove(i);
                let v = e.1.clone();
                self.entries.push(e);
                proof {
                    assert(self@ =~= before.remove(i as int).push(before[i as int]));
                    lemma_remove_push_distinct(before, i as int);
                }
                Some(v)
            }
            None => None,
        }
    }

    /// Stores `track` under `path` as the most recently used entry,
    /// evicting the least recently used entry when the cache overflows.
    pub fn insert(&mut self, path: String, track: V)
        requires
            old(self).wf(),
        ensures
            final(self).wf(),
            final(self).capacity() == old(self).capacity(),
            final(self)@ == inserted(old(self)@, path@, track, old(self).capacity()),
    {
        let ghost before = self@;
        let ghost k = path@;
        match self.find(&path) {
            Some(i) => {
                self.entries.remove(i);
                proof {
                    assert(self@ =~= before.remove(i as int));
                }
            }
            None => {}
        }
        let ghost without = self@;
        proof {
            lemma_without_key(before, k, track);
        }
        self.entries.push((path, track));
        let ghost grown = self@;
        assert(grown =~= without.push((k, track)));
        if self.entries.len() > self.max_items {
            self.entries.remove(0);
            assert(self@ =~= grown.drop_first());
        }
    }
}

/// Removing entry `i` and appending it again keeps the keys distinct.
proof fn lemma_remove_push_distinct<V>(s: Seq<Entry<V>>, i: int)
    requires
        keys_distinct(s),
        0 <= i < s.len(),
    ensures
        keys_distinct(s.remove(i).push(s[i])),
{
    let t = s.remove(i).push(s[i]);
    assert forall|a: int, b: int| 0 <= a < b < t.len() implies t[a].0 != t[b].0 by {
        let ia = if a < i { a } else { a + 1 };
        if b == t.len() - 1 {
            assert(t[b] == s[i]);
        } else {
            let ib = if b < i { b } else { b + 1 };
            assert(t[b] == s[ib]);
        }
        assert(t[a] == s[ia]);
    }
}

/// The entries left after dropping any entry for `k` have distinct keys,
/// none of them `k`, and at most as many as before.
proof fn lemma_without_key<V>(s: Seq<Entry<V>>, k: Seq<char>, v: V)
    requires
        keys_distinct(s),
    ensures
        ({
            let w = if has_key(s, k) { s.remove(key_pos(s, k)) } else { s };
            &&& keys_distinct(w)
            &&& !has_key(w, k)
            &&& keys_distinct(w.push((k, v)))
            &&& w.len() + 1 <= s.len() + 1
            &&& (has_key(s, k) ==> w.len() + 1 == s.len())
        }),
{
    let w = if has_key(s, k) { s.remove(key_pos(s, k)) } else { s };
    if has_key(s, k) {
        let p = key_pos(s, k);
        assert forall|j: int| 0 <= j < w.len() implies w[j].0 != k by {
            let jj = if j < p { j } else { j + 1 };
            assert(w[j] == s[jj]);
        }
        assert forall|a: int, b: int| 0 <= a < b < w.len() implies w[a].0 != w[b].0 by {
            let ia = if a < p { a } else { a + 1 };
            let ib = if b < p { b } else { b + 1 };
            assert(w[a] == s[ia] && w[b] == s[ib]);
        }
    }
    let g = w.push((k, v));
    assert forall|a: int, b: int| 0 <= a < b < g.len() implies g[a].0 != g[b].0 by {
        if b == g.len() - 1 {
            assert(g[a] == w[a]);
        } else {
            assert(g[a] == w[a] && g[b] == w[b]);
        }
    }
}

/// With distinct keys, the entry at `i` is what a lookup of its key finds.
proof fn lemma_lookup_at<V>(s: Seq<Entry<V>>, i: int)
    requires
        keys_distinct(s),
        0 <= i < s.len(),
    ensures
        has_key(s, s[i].0),
        key_pos(s, s[i].0) == i,
        lookup(s, s[i].0) == Some(s[i].1),
{
    assert(s[i].0 == s[i].0);
    let p = key_pos(s, s[i].0);
    if p != i {
        if p < i {
            assert(s[p].0 != s[i].0);
        } else {
            assert(s[i].0 != s[p].0);
        }
    }
}

/// Lookups agree on two entry sequences that hold the same entries for key `k`.
proof fn lemma_lookup_same<V>(s: Seq<Entry<V>>, t: Seq<Entry<V>>, k: Seq<char>)
    requires
        keys_distinct(s),
        keys_distinct(t),
        forall|i: int| 0 <= i < s.len() && s[i].0 == k ==> exists|j: int| 0 <= j < t.len() && t[j] == s[i],
        forall|j: int| 0 <= j < t.len() && t[j].0 == k ==> exists|i: int| 0 <= i < s.len() && s[i] == t[j],
    ensures
        lookup(s, k) == lookup(t, k),
{
    if has_key(s, k) {
        let i = key_pos(s, k);
        let j = choose|j: int| 0 <= j < t.len() && t[j] == s[i];
        lemma_lookup_at(s, i);
        lemma_lookup_at(t, j);
    } else if has_key(t, k) {
        let j = key_pos(t, k);
        let i = choose|i: int| 0 <= i < s.len() && s[i] == t[j];
        assert(s[i].0 == k);
    }
}

/// Reading a key right after storing it gives back the stored value.
pub proof fn law_lookup_after_insert<V>(s: Seq<Entry<V>>, k: Seq<char>, v: V, max: nat)
    requires
        keys_distinct(s),
        s.len() <= max,
        max >= 2,
    ensures
        lookup(inserted(s, k, v, max), k) == Some(v),
        keys_distinct(inserted(s, k, v, max)),
        inserted(s, k, v, max).len() <= max,
{
    lemma_without_key(s, k, v);
    let w = if has_key(s, k) { s.remove(key_pos(s, k)) } else { s };
    let g = w.push((k, v));
    let r = inserted(s, k, v, max);
    if g.len() > max {
        assert(r == g.drop_first());
        assert(r[r.len() - 1] == (k, v));
        assert forall|a: int, b: int| 0 <= a < b < r.len() implies r[a].0 != r[b].0 by {
            assert(r[a] == g[a + 1] && r[b] == g[b + 1]);
        }
        lemma_lookup_at(r, r.len() - 1);
    } else {
        assert(r[r.len() - 1] == (k, v));
        lemma_lookup_at(r, r.len() - 1);
    }
}

/// A lookup hit moves the key to the most recent position and changes no
/// stored value; the number of entries stays the same.
pub proof fn law_touch_keeps_contents<V>(s: Seq<Entry<V>>, k: Seq<char>, other: Seq<char>)
    requires
        keys_distinct(s),
    ensures
        touched(s, k).len() == s.len(),
        keys_distinct(touched(s, k)),
        lookup(touched(s, k), other) == lookup(s, other),
        has_key(s, k) ==> touched(s, k).last().0 == k,
{
    if has_key(s, k) {
        let i = key_pos(s, k);
        let t = touched(s, k);
        lemma_remove_push_distinct(s, i);
        assert(t == s.remove(i).push(s[i]));
        assert forall|a: int| 0 <= a < s.len() && s[a].0 == other implies exists|b: int| 0 <= b < t.len() && t[b] == s[a] by {
            if a < i {
                assert(t[a] == s[a]);
            } else if a == i {
                assert(t[t.len() - 1] == s[a]);
            } else {
                assert(t[a - 1] == s[a]);
            }
        }
        assert forall|b: int| 0 <= b < t.len() && t[b].0 == other implies exists|a: int| 0 <= a < s.len() && s[a] == t[b] by {
            if b == t.len() - 1 {
                assert(t[b] == s[i]);
            } else if b < i {
                assert(t[b] == s[b]);
            } else {
                assert(t[b] == s[b + 1]);
            }
        }
        lemma_lookup_same(s, t, other);
    }
}

/// Storing a new key into a full cache evicts exactly the least recently
/// used entry; every other key keeps its value.
#[verifier::rlimit(30)]
pub proof fn law_insert_evicts_least_recent<V>(s: Seq<Entry<V>>, k: Seq<char>, v: V, max: nat, other: Seq<char>)
    requires
        keys_distinct(s),
        s.len() == max,
        max >= 2,
        !has_key(s, k),
    ensures
        inserted(s, k, v, max) == s.drop_first().push((k, v)),
        !has_key(inserted(s, k, v, max), s[0].0),
        other != k && other != s[0].0 ==> lookup(inserted(s, k, v, max), other) == lookup(s, other),
{
    let g = s.push((k, v));
    assert(inserted(s, k, v, max) == g.drop_first());
    let r = g.drop_first();
    assert(r =~= s.drop_first().push((k, v)));
    assert forall|a: int, b: int| 0 <= a < b < r.len() implies r[a].0 != r[b].0 by {
        assert(r[a] == g[a + 1] && r[b] == g[b + 1]);
        if b + 1 == g.len() - 1 {
            assert(g[b + 1] == (k, v));
            assert(g[a + 1] == s[a + 1]);
        } else {
            assert(g[a + 1] == s[a + 1] && g[b + 1] == s[b + 1]);
        }
    }
    assert forall|j: int| 0 <= j < r.len() implies r[j].0 != s[0].0 by {
        if j == r.len() - 1 {
            assert(r[j] == (k, v));
            assert(s[0].0 != k);
        } else {
            assert(r[j] == s[j + 1]);
        }
    }
    if other != k && other != s[0].0 {
        assert forall|a: int| 0 <= a < s.len() && s[a].0 == other implies exists|b: int| 0 <= b < r.len() && r[b] == s[a] by {
            assert(a != 0);
            assert(r[a - 1] == s[a]);
        }
        assert forall|b: int| 0 <= b < r.len() && r[b].0 == other implies exists|a: int| 0 <= a < s.len() && s[a] == r[b] by {
            if b == r.len() - 1 {
                assert(r[b].0 == k);
            } else {
                assert(r[b] == s[b + 1]);
            }
        }
        lemma_lookup_same(s, r, other);
    }
}

} // verus!
