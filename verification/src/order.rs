use vstd::prelude::*;

verus! {

/// `a` comes before `b` in the order `String` compares by: character by
/// character, a proper prefix first.
pub open spec fn lex_lt(a: Seq<char>, b: Seq<char>) -> bool
    decreases a.len(),
{
    if a.len() == 0 {
        b.len() > 0
    } else if b.len() == 0 {
        false
    } else if a[0] < b[0] {
        true
    } else if a[0] == b[0] {
        lex_lt(a.drop_first(), b.drop_first())
    } else {
        false
    }
}

pub proof fn lemma_lex_irreflexive(a: Seq<char>)
    ensures
        !lex_lt(a, a),
    decreases a.len(),
{
    if a.len() > 0 {
        lemma_lex_irreflexive(a.drop_first());
    }
}

pub proof fn lemma_lex_asymmetric(a: Seq<char>, b: Seq<char>)
    ensures
        !(lex_lt(a, b) && lex_lt(b, a)),
    decreases a.len(),
{
    if a.len() > 0 && b.len() > 0 && a[0] == b[0] {
        lemma_lex_asymmetric(a.drop_first(), b.drop_first());
    }
}

pub proof fn lemma_lex_transitive(a: Seq<char>, b: Seq<char>, c: Seq<char>)
    requires
        lex_lt(a, b),
        lex_lt(b, c),
    ensures
        lex_lt(a, c),
    decreases a.len(),
{
    if a.len() > 0 && b.len() > 0 && c.len() > 0 && a[0] == b[0] && b[0] == c[0] {
        lemma_lex_transitive(a.drop_first(), b.drop_first(), c.drop_first());
    }
}

pub proof fn lemma_lex_total(a: Seq<char>, b: Seq<char>)
    ensures
        a == b || lex_lt(a, b) || lex_lt(b, a),
    decreases a.len(),
{
    if a.len() > 0 && b.len() > 0 && a[0] == b[0] {
        lemma_lex_total(a.drop_first(), b.drop_first());
        if a.drop_first() == b.drop_first() {
            assert(a =~= seq![a[0]] + a.drop_first());
            assert(b =~= seq![b[0]] + b.drop_first());
        }
    } else if a.len() == 0 && b.len() == 0 {
        assert(a =~= b);
    }
}

/// Whether `a` comes before `b`.
pub fn lex_less(a: &[char], b: &[char]) -> (r: bool)
    ensures
        r == lex_lt(a@, b@),
{
    let mut i: usize = 0;
    assert(a@.skip(0) =~= a@ && b@.skip(0) =~= b@);
    while i < a.len() && i < b.len()
        invariant
            i <= a@.len(),
            i <= b@.len(),
            lex_lt(a@, b@) == lex_lt(a@.skip(i as int), b@.skip(i as int)),
        decreases a@.len() - i,
    {
        let x = a[i];
        let y = b[i];
        assert(a@.skip(i as int)[0] == x && b@.skip(i as int)[0] == y);
        if x < y {
            return true;
        }
        if x != y {
            return false;
        }
        assert(a@.skip(i as int).drop_first() =~= a@.skip(i + 1));
        assert(b@.skip(i as int).drop_first() =~= b@.skip(i + 1));
        i = i + 1;
    }
    i < b.len()
}

/// What a listing is sorted by: a group number (lower first), then a text
/// (by `lex_lt`).
pub type SortKey = (u8, Seq<char>);

/// Item `i` with key `ki` strictly precedes item `j` with key `kj`: by
/// group, then text, then (for equal keys) position in the input.
pub open spec fn precedes(ki: SortKey, i: int, kj: SortKey, j: int) -> bool {
    ki.0 < kj.0 || (ki.0 == kj.0 && (lex_lt(ki.1, kj.1) || (ki.1 == kj.1 && i < j)))
}

pub proof fn lemma_precedes_transitive(ka: SortKey, a: int, kb: SortKey, b: int, kc: SortKey, c: int)
    requires
        precedes(ka, a, kb, b),
        precedes(kb, b, kc, c),
    ensures
        precedes(ka, a, kc, c),
{
    if ka.0 == kb.0 && kb.0 == kc.0 {
        if lex_lt(ka.1, kb.1) && lex_lt(kb.1, kc.1) {
            lemma_lex_transitive(ka.1, kb.1, kc.1);
        }
    }
}

pub proof fn lemma_precedes_total(ka: SortKey, a: int, kb: SortKey, b: int)
    requires
        a != b,
    ensures
        precedes(ka, a, kb, b) || precedes(kb, b, ka, a),
        !(precedes(ka, a, kb, b) && precedes(kb, b, ka, a)),
{
    lemma_lex_total(ka.1, kb.1);
    lemma_lex_asymmetric(ka.1, kb.1);
    if ka.1 == kb.1 {
        lemma_lex_irreflexive(ka.1);
    }
}

/// `p` lists the positions `0..n`, each once.
pub open spec fn is_permutation(p: Seq<usize>, n: nat) -> bool {
    &&& p.len() == n
    &&& forall|i: int| 0 <= i < p.len() ==> #[trigger] p[i] < n
    &&& forall|i: int, j: int| 0 <= i < j < p.len() ==> p[i] != p[j]
}

/// `p` lists the items in sorted order, ties in their input order.
pub open spec fn sorted_by(p: Seq<usize>, keys: Seq<SortKey>) -> bool {
    forall|a: int, b: int| 0 <= a < b < p.len()
        ==> precedes(keys[p[a] as int], p[a] as int, keys[p[b] as int], p[b] as int)
}

/// An item to sort: its group and the characters it is sorted by.
#[derive(Debug)]
pub struct KeyedItem {
    pub group: u8,
    pub text: Vec<char>,
}

pub open spec fn key_of(k: KeyedItem) -> SortKey {
    (k.group, k.text@)
}

fn precedes_exec(keys: &[KeyedItem], i: usize, j: usize) -> (r: bool)
    requires
        i < keys@.len(),
        j < keys@.len(),
    ensures
        r == precedes(key_of(keys@[i as int]), i as int, key_of(keys@[j as int]), j as int),
{
    let a = &keys[i];
    let b = &keys[j];
    if a.group != b.group {
        return a.group < b.group;
    }
    if lex_less(a.text.as_slice(), b.text.as_slice()) {
        return true;
    }
    if lex_less(b.text.as_slice(), a.text.as_slice()) {
        proof {
            lemma_lex_asymmetric(a.text@, b.text@);
        }
        return false;
    }
    proof {
        lemma_lex_total(a.text@, b.text@);
    }
    i < j
}

/// The order in which to list the items: by group, then text, ties kept
/// in their input order (a stable sort).
pub fn sorted_order(keys: &[KeyedItem]) -> (p: Vec<usize>)
    ensures
        is_permutation(p@, keys@.len()),
        sorted_by(p@, keys@.map_values(|k: KeyedItem| key_of(k))),
{
    let ghost ks = keys@.map_values(|k: KeyedItem| key_of(k));
    let mut p: Vec<usize> = Vec::new();
    let n = keys.len();
    let mut i: usize = 0;
    while i < n
        invariant
            n == keys@.len(),
            ks == keys@.map_values(|k: KeyedItem| key_of(k)),
            i <= n,
            p@.len() == i,
            forall|x: int| 0 <= x < p@.len() ==> #[trigger] p@[x] < i,
            forall|x: int, y: int| 0 <= x < y < p@.len() ==> p@[x] != p@[y],
            sorted_by(p@, ks),
        decreases n - i,
    {
        // Find the first listed item that the new item precedes.
        let mut j: usize = 0;
        while j < p.len() && !precedes_exec(keys, i, p[j])
            invariant
                n == keys@.len(),
                ks == keys@.map_values(|k: KeyedItem| key_of(k)),
                i < n,
                j <= p@.len(),
                forall|x: int| 0 <= x < p@.len() ==> #[trigger] p@[x] < i,
                forall|x: int| 0 <= x < j ==> precedes(ks[p@[x] as int], p@[x] as int, ks[i as int], i as int),
            decreases p@.len() - j,
        {
            proof {
                lemma_precedes_total(ks[i as int], i as int, ks[p@[j as int] as int], p@[j as int] as int);
            }
            j = j + 1;
        }
        let ghost old_p = p@;
        p.insert(j, i);
        proof {
            assert(p@ =~= old_p.take(j as int).push(i) + old_p.skip(j as int));
            assert forall|a: int, b: int| 0 <= a < b < p@.len() implies
                precedes(ks[p@[a] as int], p@[a] as int, ks[p@[b] as int], p@[b] as int) by {
                if b < j {
                    assert(p@[a] == old_p[a] && p@[b] == old_p[b]);
                } else if b == j {
                    assert(p@[a] == old_p[a]);
                } else if a == j {
                    assert(p@[b] == old_p[b - 1]);
                    if j < old_p.len() {
                        if b - 1 > j {
                            lemma_precedes_transitive(ks[i as int], i as int, ks[old_p[j as int] as int], old_p[j as int] as int,
                                ks[old_p[b - 1] as int], old_p[b - 1] as int);
                        }
                    }
                } else if a < j {
                    assert(p@[a] == old_p[a] && p@[b] == old_p[b - 1]);
                } else {
                    assert(p@[a] == old_p[a - 1] && p@[b] == old_p[b - 1]);
                }
            }
            assert forall|x: int, y: int| 0 <= x < y < p@.len() implies p@[x] != p@[y] by {
                if x < j && y < j {
                } else if x < j && y == j {
                    assert(p@[x] < i);
                } else if x < j {
                    assert(p@[y] == old_p[y - 1]);
                } else if x == j {
                    assert(p@[y] == old_p[y - 1]);
                    assert(old_p[y - 1] < i);
                } else {
                    assert(p@[x] == old_p[x - 1] && p@[y] == old_p[y - 1]);
                }
            }
            assert forall|x: int| 0 <= x < p@.len() implies #[trigger] p@[x] < i + 1 by {
                if x < j {
                } else if x > j {
                    assert(p@[x] == old_p[x - 1]);
                }
            }
        }
        i = i + 1;
    }
    p
}

/// The items listed in the order `p`.
pub fn apply_order<T>(items: Vec<T>, p: &[usize]) -> (r: Vec<T>)
    requires
        is_permutation(p@, items@.len()),
    ensures
        r@.len() == p@.len(),
        forall|k: int| 0 <= k < p@.len() ==> #[trigger] r@[k] == items@[p@[k] as int],
{
    let ghost orig = items@;
    let mut slots: Vec<Option<T>> = Vec::new();
    let mut items = items;
    let n = items.len();
    while items.len() > 0
        invariant
            items@.len() + slots@.len() == n,
            n == orig.len(),
            forall|x: int| 0 <= x < items@.len() ==> items@[x] == orig[x],
            forall|x: int| 0 <= x < slots@.len() ==> #[trigger] slots@[x] == Some(orig[n - 1 - x]),
        decreases items@.len(),
    {
        let x = items.pop().unwrap();
        slots.push(Some(x));
    }
    let mut r: Vec<T> = Vec::new();
    let mut k: usize = 0;
    while k < p.len()
        invariant
            is_permutation(p@, n as nat),
            slots@.len() == n,
            n == orig.len(),
            k <= p@.len(),
            r@.len() == k,
            forall|x: int| 0 <= x < k ==> #[trigger] r@[x] == orig[p@[x] as int],
            forall|x: int| 0 <= x < n ==> (slots@[x] is None <==> exists|y: int| 0 <= y < k && p@[y] == n - 1 - x),
            forall|x: int| 0 <= x < n ==> (slots@[x] is Some ==> slots@[x] == Some(orig[n - 1 - x])),
        decreases p@.len() - k,
    {
        let idx = n - 1 - p[k];
        let mut slot: Option<T> = None;
        std::mem::swap(&mut slot, &mut slots[idx]);
        proof {
            if slot is None {
                let y = choose|y: int| 0 <= y < k && p@[y] == n - 1 - idx;
                assert(p@[y] != p@[k as int]);
            }
        }
        let x = slot.unwrap();
        r.push(x);
        proof {
            assert forall|z: int| 0 <= z < n implies (slots@[z] is None <==> exists|y: int| 0 <= y < k + 1 && p@[y] == n - 1 - z) by {
                if z == idx {
                    assert(p@[k as int] == n - 1 - z);
                } else {
                    if exists|y: int| 0 <= y < k + 1 && p@[y] == n - 1 - z {
                        let y = choose|y: int| 0 <= y < k + 1 && p@[y] == n - 1 - z;
                        assert(y != k);
                    }
                }
            }
        }
        k = k + 1;
    }
    r
}

/// The name order is `String`'s: a proper prefix comes before every
/// longer name it begins, and after a common prefix the first differing
/// character decides.
pub proof fn law_lex_prefix_first(p: Seq<char>, s: Seq<char>)
    requires
        s.len() > 0,
    ensures
        lex_lt(p, p + s),
        !lex_lt(p + s, p),
    decreases p.len(),
{
    if p.len() > 0 {
        assert((p + s).drop_first() =~= p.drop_first() + s);
        assert((p + s)[0] == p[0]);
        law_lex_prefix_first(p.drop_first(), s);
    }
}

/// After a common prefix, the first differing character decides the order.
pub proof fn law_lex_first_difference(p: Seq<char>, c: char, x: Seq<char>, d: char, y: Seq<char>)
    requires
        c < d,
    ensures
        lex_lt(p + seq![c] + x, p + seq![d] + y),
        !lex_lt(p + seq![d] + y, p + seq![c] + x),
    decreases p.len(),
{
    if p.len() > 0 {
        assert((p + seq![c] + x).drop_first() =~= p.drop_first() + seq![c] + x);
        assert((p + seq![d] + y).drop_first() =~= p.drop_first() + seq![d] + y);
        assert((p + seq![c] + x)[0] == p[0]);
        assert((p + seq![d] + y)[0] == p[0]);
        law_lex_first_difference(p.drop_first(), c, x, d, y);
    } else {
        assert((p + seq![c] + x)[0] == c);
        assert((p + seq![d] + y)[0] == d);
    }
}

} // verus!
