use vstd::prelude::*;

verus! {

/// Number of tracks that keep sounding in the background after another
/// track was loaded over them.
pub const MAX_BACKGROUND_VOICES: usize = 4;

/// Number of occupied slots.
pub open spec fn occupied<V>(slots: Seq<Option<V>>) -> nat
    decreases slots.len(),
{
    if slots.len() == 0 {
        0
    } else {
        occupied(slots.drop_last()) + if slots.last() is Some { 1nat } else { 0nat }
    }
}

/// Index of the first free slot, if any.
pub open spec fn first_free<V>(slots: Seq<Option<V>>) -> Option<int>
    decreases slots.len(),
{
    if slots.len() == 0 {
        None
    } else if slots[0] is None {
        Some(0)
    } else {
        match first_free(slots.drop_first()) {
            Some(i) => Some(i + 1),
            None => None,
        }
    }
}

/// The slots after adding `v`: it takes the first free slot; when every
/// slot is taken the oldest voice (slot 0) is dropped, the others move one
/// slot down and `v` takes the last slot.
pub open spec fn with_voice<V>(slots: Seq<Option<V>>, v: V) -> Seq<Option<V>> {
    match first_free(slots) {
        Some(i) => slots.update(i, Some(v)),
        None => slots.drop_first().push(Some(v)),
    }
}

proof fn lemma_first_free<V>(slots: Seq<Option<V>>)
    ensures
        match first_free(slots) {
            Some(i) => 0 <= i < slots.len() && slots[i] is None
                && forall|j: int| 0 <= j < i ==> slots[j] is Some,
            None => forall|j: int| 0 <= j < slots.len() ==> slots[j] is Some,
        },
    decreases slots.len(),
{
    if slots.len() > 0 {
        lemma_first_free(slots.drop_first());
        if slots[0] is Some {
            match first_free(slots.drop_first()) {
                Some(i) => {
                    assert forall|j: int| 0 <= j < i + 1 implies slots[j] is Some by {
                        if j > 0 {
                            assert(slots[j] == slots.drop_first()[j - 1]);
                        }
                    }
                },
                None => {
                    assert forall|j: int| 0 <= j < slots.len() implies slots[j] is Some by {
                        if j > 0 {
                            assert(slots[j] == slots.drop_first()[j - 1]);
                        }
                    }
                },
            }
        }
    }
}

proof fn lemma_occupied_bound<V>(slots: Seq<Option<V>>)
    ensures
        occupied(slots) <= slots.len(),
        occupied(slots) == slots.len() <==> forall|j: int| 0 <= j < slots.len() ==> slots[j] is Some,
    decreases slots.len(),
{
    if slots.len() > 0 {
        lemma_occupied_bound(slots.drop_last());
        if forall|j: int| 0 <= j < slots.len() ==> slots[j] is Some {
            assert forall|j: int| 0 <= j < slots.drop_last().len() implies slots.drop_last()[j] is Some by {
                assert(slots.drop_last()[j] == slots[j]);
            }
        }
        if occupied(slots) == slots.len() {
            assert forall|j: int| 0 <= j < slots.len() implies slots[j] is Some by {
                if j < slots.len() - 1 {
                    assert(slots.drop_last()[j] == slots[j]);
                }
            }
        }
    }
}

proof fn lemma_occupied_update<V>(slots: Seq<Option<V>>, i: int, x: Option<V>)
    requires
        0 <= i < slots.len(),
    ensures
        occupied(slots.update(i, x)) + (if slots[i] is Some { 1int } else { 0int })
            == occupied(slots) + (if x is Some { 1int } else { 0int }),
    decreases slots.len(),
{
    let u = slots.update(i, x);
    if i == slots.len() - 1 {
        assert(u.drop_last() =~= slots.drop_last());
    } else {
        assert(u.drop_last() =~= slots.drop_last().update(i, x));
        lemma_occupied_update(slots.drop_last(), i, x);
    }
}

proof fn lemma_occupied_push_front<V>(slots: Seq<Option<V>>)
    requires
        slots.len() > 0,
    ensures
        occupied(slots) == occupied(slots.drop_first()) + if slots[0] is Some { 1nat } else { 0nat },
    decreases slots.len(),
{
    if slots.len() > 1 {
        lemma_occupied_push_front(slots.drop_last());
        assert(slots.drop_last().drop_first() =~= slots.drop_first().drop_last());
        assert(slots.drop_first().last() == slots.last());
        assert(slots.drop_last()[0] == slots[0]);
    } else {
        assert(occupied(slots.drop_last()) == 0);
        assert(slots.drop_first().len() == 0);
        assert(slots.drop_last().len() == 0);
    }
}

/// A pool of background voices held in slots, oldest voices first.
pub struct VoicePool<V> {
    slots: Vec<Option<V>>,
}

impl<V> View for VoicePool<V> {
    type V = Seq<Option<V>>;

    closed spec fn view(&self) -> Seq<Option<V>> {
        self.slots@
    }
}

impl<V> VoicePool<V> {
    /// The pool's invariant: it always has its fixed number of slots.
    pub open spec fn wf(&self) -> bool {
        self@.len() == MAX_BACKGROUND_VOICES
    }

    /// A pool with every slot free.
    pub fn new() -> (p: Self)
        ensures
            p.wf(),
            forall|j: int| 0 <= j < p@.len() ==> p@[j] is None,
    {
        let mut slots: Vec<Option<V>> = Vec::new();
        let mut i: usize = 0;
        while i < MAX_BACKGROUND_VOICES
            invariant
                i <= MAX_BACKGROUND_VOICES,
                slots@.len() == i,
                forall|j: int| 0 <= j < i ==> slots@[j] is None,
            decreases MAX_BACKGROUND_VOICES - i,
        {
            slots.push(None);
            i = i + 1;
        }
        VoicePool { slots }
    }

    /// Hands a voice to the pool: it takes the first free slot, or, when the
    /// pool is full, the oldest voice is dropped to make room.
    pub fn add(&mut self, v: V)
        requires
            old(self).wf(),
        ensures
            final(self).wf(),
            final(self)@ == with_voice(old(self)@, v),
    {
        proof {
            lemma_first_free(self@);
        }
        let n = self.slots.len();
        let mut i: usize = 0;
        while i < n
            invariant
                n == self.slots@.len(),
                self@ == old(self)@,
                old(self).wf(),
                i <= n,
                forall|j: int| 0 <= j < i ==> self.slots@[j] is Some,
            decreases n - i,
        {
            if self.slots[i].is_none() {
                proof {
                    lemma_first_free(self@);
                    let f = first_free(self@);
                    assert(f == Some(i as int)) by {
                        match f {
                            Some(k) => {
                                if k < i {
                                } else if k > i {
                                    assert(self@[i as int] is Some);
                                }
                            },
                            None => {
                                assert(self@[i as int] is Some);
                            },
                        }
                    }
                }
                self.slots.set(i, Some(v));
                return;
            }
            i = i + 1;
        }
        proof {
            lemma_first_free(self@);
            if first_free(self@) is Some {
                let k = first_free(self@)->0;
                assert(self@[k] is Some);
            }
        }
        let ghost before = self@;
        self.slots.remove(0);
        self.slots.push(Some(v));
        assert(self@ =~= before.drop_first().push(Some(v)));
    }

    /// Frees every slot.
    pub fn clear(&mut self)
        requires
            old(self).wf(),
        ensures
            final(self).wf(),
            forall|j: int| 0 <= j < final(self)@.len() ==> final(self)@[j] is None,
    {
        let n = self.slots.len();
        let mut i: usize = 0;
        while i < n
            invariant
                n == self.slots@.len(),
                n == MAX_BACKGROUND_VOICES,
                i <= n,
                forall|j: int| 0 <= j < i ==> self.slots@[j] is None,
            decreases n - i,
        {
            self.slots.set(i, None);
            i = i + 1;
        }
    }

    /// Frees slot `i` (a voice that has played to its end).
    pub fn release(&mut self, i: usize)
        requires
            old(self).wf(),
            i < MAX_BACKGROUND_VOICES,
        ensures
            final(self).wf(),
            final(self)@ == old(self)@.update(i as int, None),
    {
        self.slots.set(i, None);
    }

    /// The voice in slot `i`, if any.
    pub fn slot(&self, i: usize) -> (r: Option<&V>)
        requires
            self.wf(),
            i < MAX_BACKGROUND_VOICES,
        ensures
            r == match self@[i as int] {
                Some(v) => Some(&v),
                None => None::<&V>,
            },
    {
        match &self.slots[i] {
            Some(v) => Some(v),
            None => None,
        }
    }

    /// Takes the voice out of slot `i`, leaving the slot free.
    pub fn take(&mut self, i: usize) -> (r: Option<V>)
        requires
            old(self).wf(),
            i < MAX_BACKGROUND_VOICES,
        ensures
            final(self).wf(),
            r == old(self)@[i as int],
            final(self)@ == old(self)@.update(i as int, None),
    {
        let mut slot: Option<V> = None;
        std::mem::swap(&mut slot, &mut self.slots[i]);
        slot
    }

    /// Puts a voice back into the free slot `i` it was taken from.
    pub fn put_back(&mut self, i: usize, v: V)
        requires
            old(self).wf(),
            i < MAX_BACKGROUND_VOICES,
            old(self)@[i as int] is None,
        ensures
            final(self).wf(),
            final(self)@ == old(self)@.update(i as int, Some(v)),
    {
        self.slots.set(i, Some(v));
    }

    /// Number of voices in the pool.
    pub fn active_count(&self) -> (n: usize)
        requires
            self.wf(),
        ensures
            n == occupied(self@),
            n <= MAX_BACKGROUND_VOICES,
    {
        let mut n: usize = 0;
        let mut i: usize = 0;
        proof {
            lemma_occupied_bound(self@);
        }
        while i < self.slots.len()
            invariant
                self.wf(),
                i <= self.slots@.len(),
                n == occupied(self@.take(i as int)),
                n <= i,
            decreases self.slots@.len() - i,
        {
            assert(self@.take(i + 1).drop_last() =~= self@.take(i as int));
            if self.slots[i].is_some() {
                n = n + 1;
            }
            i = i + 1;
        }
        assert(self@.take(i as int) =~= self@);
        n
    }
}

/// Adding a voice never exceeds the pool size: the count grows by one,
/// or stays at the maximum when the oldest voice had to give way; the new
/// voice is always in the pool, and when displacing, the surviving voices
/// keep their order.
pub proof fn law_add_voice<V>(slots: Seq<Option<V>>, v: V)
    requires
        slots.len() == MAX_BACKGROUND_VOICES,
    ensures
        with_voice(slots, v).len() == MAX_BACKGROUND_VOICES,
        occupied(slots) < MAX_BACKGROUND_VOICES ==> occupied(with_voice(slots, v)) == occupied(slots) + 1,
        occupied(slots) == MAX_BACKGROUND_VOICES ==> occupied(with_voice(slots, v)) == MAX_BACKGROUND_VOICES
            && with_voice(slots, v) == slots.drop_first().push(Some(v)),
        exists|j: int| 0 <= j < MAX_BACKGROUND_VOICES && with_voice(slots, v)[j] == Some(v),
{
    lemma_first_free(slots);
    lemma_occupied_bound(slots);
    let r = with_voice(slots, v);
    match first_free(slots) {
        Some(i) => {
            lemma_occupied_update(slots, i, Some(v));
            assert(r[i] == Some(v));
            assert(occupied(slots) < MAX_BACKGROUND_VOICES);
        },
        None => {
            assert(occupied(slots) == MAX_BACKGROUND_VOICES);
            lemma_occupied_push_front(slots);
            let d = slots.drop_first();
            assert(r.drop_last() =~= d);
            assert(r[r.len() - 1] == Some(v));
        },
    }
}

/// Taking a voice out of its slot and putting it back leaves the pool as
/// it was.
pub proof fn law_take_put_back_restores<V>(slots: Seq<Option<V>>, i: int)
    requires
        0 <= i < slots.len(),
        slots[i] is Some,
    ensures
        slots.update(i, None).update(i, Some(slots[i]->0)) == slots,
{
    assert(slots.update(i, None).update(i, Some(slots[i]->0)) =~= slots);
}

} // verus!
