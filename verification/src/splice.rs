use vstd::prelude::*;

verus! {

/// A cut region of an export, in frames of the source track.
///
/// `enter` and `leave` are the first frames whose time is at or after the
/// region's start and end: a frame lies in the region when
/// `enter <= frame < leave`.  `start_frame` and `end_frame` are the
/// region's start and end times in frames, rounded down.  `fade` is the
/// length of the crossfade over the splice, in frames.
#[derive(Clone, Copy, Debug, PartialEq, Eq, Structural)]
pub struct CutRegion {
    pub enter: usize,
    pub leave: usize,
    pub start_frame: usize,
    pub end_frame: usize,
    pub fade: usize,
}

/// The start and end frames are the rounded-down times, the entry and
/// exit frames the rounded-up ones: they differ by at most one.
pub open spec fn cut_consistent(c: CutRegion) -> bool {
    c.start_frame <= c.enter && c.leave <= c.end_frame + 1
}

/// One step of building the exported audio.
#[derive(Clone, Copy, Debug, PartialEq, Eq, Structural)]
pub enum SpliceOp {
    /// Append the source frames `[from, to)`.
    Copy { from: usize, to: usize },
    /// Blend, over `frames` frames, the exported audio from position `at`
    /// into the source frames starting at `from` (fading the old out and
    /// the new in).
    Crossfade { at: usize, from: usize, frames: usize },
}

/// Index of the first cut region that holds frame `f`.
pub open spec fn cut_at(cuts: Seq<CutRegion>, f: nat) -> Option<int>
    decreases cuts.len(),
{
    if cuts.len() == 0 {
        None
    } else if cuts[0].enter <= f && f < cuts[0].leave {
        Some(0)
    } else {
        match cut_at(cuts.drop_first(), f) {
            Some(i) => Some(i + 1),
            None => None,
        }
    }
}

/// The first frame at which a cut region that starts after frame `f`
/// begins, or `end` when there is none or it lies beyond.
pub open spec fn next_cut_start(cuts: Seq<CutRegion>, f: nat, end: nat) -> nat
    decreases cuts.len(),
{
    if cuts.len() == 0 {
        end
    } else {
        let rest = next_cut_start(cuts.drop_last(), f, end);
        let c = cuts.last();
        if f < c.enter && c.start_frame < rest { c.start_frame as nat } else { rest }
    }
}

/// The splice plan from frame `curr` on, with `spliced` frames already in
/// the export: the operations, and whether the walk stopped on a frame it
/// could not get past.
pub open spec fn plan_from(cuts: Seq<CutRegion>, end: nat, total: nat, curr: nat, spliced: nat) -> (Seq<SpliceOp>, bool)
    decreases (if curr < end { end - curr } else { 0 }),
{
    if curr >= end {
        (Seq::empty(), false)
    } else {
        match cut_at(cuts, curr) {
            Some(i) => {
                let c = cuts[i];
                let cut_end: nat = if c.end_frame < end { c.end_frame as nat } else { end };
                let fades = c.fade > 0 && spliced >= c.fade && cut_end + c.fade <= total;
                let next: nat = if fades { (cut_end + c.fade) as nat } else { cut_end };
                let head: Seq<SpliceOp> = if fades {
                    seq![SpliceOp::Crossfade { at: (spliced - c.fade) as usize, from: cut_end as usize, frames: c.fade }]
                } else {
                    Seq::empty()
                };
                if next > curr {
                    let rest = plan_from(cuts, end, total, next, spliced);
                    (head + rest.0, rest.1)
                } else {
                    (head, true)
                }
            },
            None => {
                let next = next_cut_start(cuts, curr, end);
                let next = if next < end { next } else { end };
                if next > curr {
                    let rest = plan_from(cuts, end, total, next, (spliced + (next - curr)) as nat);
                    (seq![SpliceOp::Copy { from: curr as usize, to: next as usize }] + rest.0, rest.1)
                } else {
                    (Seq::empty(), false)
                }
            },
        }
    }
}

proof fn lemma_cut_at(cuts: Seq<CutRegion>, f: nat, i: int)
    requires
        0 <= i <= cuts.len(),
        forall|j: int| 0 <= j < i ==> !(#[trigger] cuts[j].enter <= f && f < cuts[j].leave),
        i < cuts.len() ==> cuts[i].enter <= f && f < cuts[i].leave,
    ensures
        cut_at(cuts, f) == if i < cuts.len() { Some(i) } else { None::<int> },
    decreases cuts.len(),
{
    if cuts.len() > 0 && i > 0 {
        assert forall|j: int| 0 <= j < i - 1 implies !(#[trigger] cuts.drop_first()[j].enter <= f && f < cuts.drop_first()[j].leave) by {
            assert(cuts.drop_first()[j] == cuts[j + 1]);
        }
        if i < cuts.len() {
            assert(cuts.drop_first()[i - 1] == cuts[i]);
        }
        lemma_cut_at(cuts.drop_first(), f, i - 1);
    }
}

fn find_cut(cuts: &[CutRegion], f: usize) -> (r: Option<usize>)
    ensures
        match cut_at(cuts@, f as nat) {
            Some(i) => r == Some(i as usize) && 0 <= i < cuts@.len(),
            None => r is None,
        },
{
    let mut i: usize = 0;
    while i < cuts.len()
        invariant
            i <= cuts@.len(),
            forall|j: int| 0 <= j < i ==> !(#[trigger] cuts@[j].enter <= f && f < cuts@[j].leave),
        decreases cuts@.len() - i,
    {
        if cuts[i].enter <= f && f < cuts[i].leave {
            proof {
                lemma_cut_at(cuts@, f as nat, i as int);
            }
            return Some(i);
        }
        i = i + 1;
    }
    proof {
        lemma_cut_at(cuts@, f as nat, i as int);
    }
    None
}

fn find_next_cut_start(cuts: &[CutRegion], f: usize, end: usize) -> (r: usize)
    ensures
        r == next_cut_start(cuts@, f as nat, end as nat),
        r <= end,
{
    let mut best: usize = end;
    let mut i: usize = 0;
    while i < cuts.len()
        invariant
            i <= cuts@.len(),
            best == next_cut_start(cuts@.take(i as int), f as nat, end as nat),
            best <= end,
        decreases cuts@.len() - i,
    {
        assert(cuts@.take(i + 1).drop_last() =~= cuts@.take(i as int));
        assert(cuts@.take(i + 1).last() == cuts@[i as int]);
        let c = cuts[i];
        if f < c.enter && c.start_frame < best {
            best = c.start_frame;
        }
        i = i + 1;
    }
    assert(cuts@.take(cuts@.len() as int) =~= cuts@);
    best
}

/// Works out how an export is put together from the source frames
/// `[start, end)` of a track of `total` frames when the cut regions are
/// left out: walking from `start`, frames outside every cut region are
/// copied up to the next region's start; at a region the walk jumps to
/// its end, blending the splice over the region's crossfade when enough
/// audio is on both sides.  Returns the operations, and whether the walk
/// stopped at a frame it could not get past (where the walk, stepping to
/// the region's end, would stay in place).
pub fn splice_plan(start: usize, end: usize, total: usize, cuts: &[CutRegion]) -> (r: (Vec<SpliceOp>, bool))
    requires
        start <= end <= total,
    ensures
        (r.0@, r.1) == plan_from(cuts@, end as nat, total as nat, start as nat, 0),
{
    let mut ops: Vec<SpliceOp> = Vec::new();
    let mut curr: usize = start;
    let mut spliced: usize = 0;
    let ghost whole = plan_from(cuts@, end as nat, total as nat, start as nat, 0);
    while curr < end
        invariant
            start <= end <= total,
            curr <= total,
            spliced <= curr,
            whole == plan_from(cuts@, end as nat, total as nat, start as nat, 0),
            whole.0 == ops@ + plan_from(cuts@, end as nat, total as nat, curr as nat, spliced as nat).0,
            whole.1 == plan_from(cuts@, end as nat, total as nat, curr as nat, spliced as nat).1,
        decreases total - curr,
    {
        let ghost rest = plan_from(cuts@, end as nat, total as nat, curr as nat, spliced as nat);
        match find_cut(cuts, curr) {
            Some(i) => {
                let c = cuts[i];
                let cut_end = if c.end_frame < end { c.end_frame } else { end };
                let fades = c.fade > 0 && spliced >= c.fade && c.fade <= total - cut_end;
                let next = if fades { cut_end + c.fade } else { cut_end };
                if fades {
                    ops.push(SpliceOp::Crossfade { at: spliced - c.fade, from: cut_end, frames: c.fade });
                }
                if next > curr {
                    proof {
                        let r2 = plan_from(cuts@, end as nat, total as nat, next as nat, spliced as nat);
                        if fades {
                            assert(rest.0 == seq![SpliceOp::Crossfade { at: (spliced - c.fade) as usize, from: cut_end, frames: c.fade }] + r2.0);
                        } else {
                            assert(rest.0 == Seq::<SpliceOp>::empty() + r2.0);
                        }
                        assert(whole.0 =~= ops@ + r2.0);
                    }
                    curr = next;
                } else {
                    assert(whole.0 =~= ops@);
                    return (ops, true);
                }
            },
            None => {
                let n = find_next_cut_start(cuts, curr, end);
                if n > curr {
                    ops.push(SpliceOp::Copy { from: curr, to: n });
                    proof {
                        let r2 = plan_from(cuts@, end as nat, total as nat, n as nat, (spliced + (n - curr)) as nat);
                        assert(whole.0 =~= ops@ + r2.0);
                    }
                    spliced = spliced + (n - curr);
                    curr = n;
                } else {
                    assert(whole.0 =~= ops@);
                    return (ops, false);
                }
            },
        }
    }
    assert(whole.0 =~= ops@);
    (ops, false)
}

/// Without cut regions, an export copies its range in one piece.
pub proof fn law_no_cuts_copies_range(end: nat, total: nat, start: nat, spliced: nat)
    requires
        start < end,
        end <= usize::MAX,
    ensures
        plan_from(Seq::empty(), end, total, start, spliced)
            == (seq![SpliceOp::Copy { from: start as usize, to: end as usize }], false),
{
    let e: Seq<CutRegion> = Seq::empty();
    assert(cut_at(e, start) is None);
    assert(next_cut_start(e, start, end) == end);
    let r = plan_from(e, end, total, end, (spliced + (end - start)) as nat);
    assert(r == (Seq::<SpliceOp>::empty(), false));
    assert(seq![SpliceOp::Copy { from: start as usize, to: end as usize }] + r.0
        =~= seq![SpliceOp::Copy { from: start as usize, to: end as usize }]);
}

/// Frame `f` lies in no cut region.
pub open spec fn outside_cuts(cuts: Seq<CutRegion>, f: nat) -> bool {
    forall|j: int| 0 <= j < cuts.len() ==> !(#[trigger] cuts[j].enter <= f && f < cuts[j].leave)
}

/// Every copy of the plan takes a non-empty run of frames, before `end`,
/// none of which lies in a cut region.
pub open spec fn copies_clear(ops: Seq<SpliceOp>, cuts: Seq<CutRegion>, end: nat) -> bool {
    forall|k: int| 0 <= k < ops.len() ==> match #[trigger] ops[k] {
        SpliceOp::Copy { from, to } => from < to && to <= end
            && forall|f: nat| from <= f < to ==> outside_cuts(cuts, f),
        SpliceOp::Crossfade { .. } => true,
    }
}

proof fn lemma_cut_at_none(cuts: Seq<CutRegion>, f: nat)
    ensures
        cut_at(cuts, f) is None <==> outside_cuts(cuts, f),
        cut_at(cuts, f) matches Some(i) ==> 0 <= i < cuts.len() && cuts[i].enter <= f && f < cuts[i].leave,
    decreases cuts.len(),
{
    if cuts.len() > 0 {
        lemma_cut_at_none(cuts.drop_first(), f);
        if outside_cuts(cuts.drop_first(), f) && !(cuts[0].enter <= f && f < cuts[0].leave) {
            assert forall|j: int| 0 <= j < cuts.len() implies !(#[trigger] cuts[j].enter <= f && f < cuts[j].leave) by {
                if j > 0 {
                    assert(cuts[j] == cuts.drop_first()[j - 1]);
                }
            }
        }
        if outside_cuts(cuts, f) {
            assert forall|j: int| 0 <= j < cuts.drop_first().len() implies !(#[trigger] cuts.drop_first()[j].enter <= f && f < cuts.drop_first()[j].leave) by {
                assert(cuts.drop_first()[j] == cuts[j + 1]);
            }
            assert(!(cuts[0].enter <= f && f < cuts[0].leave));
        }
        match cut_at(cuts.drop_first(), f) {
            Some(i) => {
                assert(cuts.drop_first()[i] == cuts[i + 1]);
            },
            None => {},
        }
    }
}

proof fn lemma_next_cut_start_below(cuts: Seq<CutRegion>, f: nat, end: nat)
    ensures
        next_cut_start(cuts, f, end) <= end,
        forall|j: int| 0 <= j < cuts.len() && f < #[trigger] cuts[j].enter
            ==> next_cut_start(cuts, f, end) <= cuts[j].start_frame,
    decreases cuts.len(),
{
    if cuts.len() > 0 {
        lemma_next_cut_start_below(cuts.drop_last(), f, end);
        assert forall|j: int| 0 <= j < cuts.len() && f < #[trigger] cuts[j].enter
            implies next_cut_start(cuts, f, end) <= cuts[j].start_frame by {
            if j < cuts.len() - 1 {
                assert(cuts.drop_last()[j] == cuts[j]);
            }
        }
    }
}

/// No frame inside a cut region is ever copied into an export (only a
/// crossfade reads across a splice), provided each region's rounded-down
/// start is at most its entry frame and its exit frame at most one past
/// its rounded-down end.
pub proof fn law_copies_avoid_cuts(cuts: Seq<CutRegion>, end: nat, total: nat, curr: nat, spliced: nat)
    requires
        forall|j: int| 0 <= j < cuts.len() ==> cut_consistent(#[trigger] cuts[j]),
        end <= usize::MAX,
    ensures
        copies_clear(plan_from(cuts, end, total, curr, spliced).0, cuts, end),
    decreases (if curr < end { end - curr } else { 0 }),
{
    let p = plan_from(cuts, end, total, curr, spliced);
    if curr >= end {
        assert(p.0.len() == 0);
    } else {
        lemma_cut_at_none(cuts, curr);
        match cut_at(cuts, curr) {
            Some(i) => {
                let c = cuts[i];
                let cut_end: nat = if c.end_frame < end { c.end_frame as nat } else { end };
                let fades = c.fade > 0 && spliced >= c.fade && cut_end + c.fade <= total;
                let next: nat = if fades { (cut_end + c.fade) as nat } else { cut_end };
                let head: Seq<SpliceOp> = if fades {
                    seq![SpliceOp::Crossfade { at: (spliced - c.fade) as usize, from: cut_end as usize, frames: c.fade }]
                } else {
                    Seq::empty()
                };
                if next > curr {
                    law_copies_avoid_cuts(cuts, end, total, next, spliced);
                    let rest = plan_from(cuts, end, total, next, spliced);
                    assert(p.0 == head + rest.0);
                    assert forall|k: int| 0 <= k < p.0.len() implies match #[trigger] p.0[k] {
                        SpliceOp::Copy { from, to } => from < to && to <= end
                            && forall|f: nat| from <= f < to ==> outside_cuts(cuts, f),
                        SpliceOp::Crossfade { .. } => true,
                    } by {
                        if k >= head.len() {
                            assert(p.0[k] == rest.0[k - head.len()]);
                        }
                    }
                }
            },
            None => {
                lemma_next_cut_start_below(cuts, curr, end);
                let n0 = next_cut_start(cuts, curr, end);
                let next = if n0 < end { n0 } else { end };
                if next > curr {
                    let sp = (spliced + (next - curr)) as nat;
                    law_copies_avoid_cuts(cuts, end, total, next, sp);
                    let rest = plan_from(cuts, end, total, next, sp);
                    let head = seq![SpliceOp::Copy { from: curr as usize, to: next as usize }];
                    assert(p.0 == head + rest.0);
                    assert forall|f: nat| curr <= f < next implies outside_cuts(cuts, f) by {
                        assert forall|j: int| 0 <= j < cuts.len() implies !(#[trigger] cuts[j].enter <= f && f < cuts[j].leave) by {
                            assert(cut_consistent(cuts[j]));
                            if curr < cuts[j].enter {
                                assert(n0 <= cuts[j].start_frame);
                            } else {
                                assert(!(cuts[j].enter <= curr && curr < cuts[j].leave));
                            }
                        }
                    }
                    assert forall|k: int| 0 <= k < p.0.len() implies match #[trigger] p.0[k] {
                        SpliceOp::Copy { from, to } => from < to && to <= end
                            && forall|f: nat| from <= f < to ==> outside_cuts(cuts, f),
                        SpliceOp::Crossfade { .. } => true,
                    } by {
                        if k >= 1 {
                            assert(p.0[k] == rest.0[k - 1]);
                        } else {
                            assert(p.0[0] == SpliceOp::Copy { from: curr as usize, to: next as usize });
                        }
                    }
                }
            },
        }
    }
}

/// The source frames an operation takes: a copy's run, or the frames a
/// crossfade blends in.
pub open spec fn source_range(op: SpliceOp) -> (nat, nat) {
    match op {
        SpliceOp::Copy { from, to } => (from as nat, to as nat),
        SpliceOp::Crossfade { from, frames, .. } => (from as nat, (from + frames) as nat),
    }
}

/// The operations take non-empty runs of source frames at or after `lo`,
/// each one after the previous one, none overlapping.
pub open spec fn sources_in_order(ops: Seq<SpliceOp>, lo: nat) -> bool {
    &&& forall|k: int| 0 <= k < ops.len()
        ==> lo <= source_range(#[trigger] ops[k]).0 < source_range(ops[k]).1
    &&& forall|a: int, b: int| 0 <= a < b < ops.len()
        ==> source_range(#[trigger] ops[a]).1 <= source_range(#[trigger] ops[b]).0
}

/// Some operation takes source frame `f`.
pub open spec fn source_taken(ops: Seq<SpliceOp>, f: nat) -> bool {
    exists|k: int| 0 <= k < ops.len() && source_range(#[trigger] ops[k]).0 <= f && f < source_range(ops[k]).1
}

/// A cut region whose start and end fall on frames: its rounded-down
/// frames are its entry and exit frames.
pub open spec fn cut_exact(c: CutRegion) -> bool {
    c.start_frame == c.enter && c.end_frame == c.leave
}

proof fn lemma_next_cut_start_is_a_start(cuts: Seq<CutRegion>, f: nat, end: nat)
    ensures
        next_cut_start(cuts, f, end) == end
            || exists|j: int| 0 <= j < cuts.len() && f < #[trigger] cuts[j].enter
                && next_cut_start(cuts, f, end) == cuts[j].start_frame,
    decreases cuts.len(),
{
    if cuts.len() > 0 {
        lemma_next_cut_start_is_a_start(cuts.drop_last(), f, end);
        let rest = next_cut_start(cuts.drop_last(), f, end);
        let c = cuts.last();
        if f < c.enter && c.start_frame < rest {
            assert(cuts[cuts.len() - 1] == c);
        } else if rest != end {
            let j = choose|j: int| 0 <= j < cuts.drop_last().len() && f < #[trigger] cuts.drop_last()[j].enter
                && rest == cuts.drop_last()[j].start_frame;
            assert(cuts[j] == cuts.drop_last()[j]);
        }
    }
}

/// With cut regions that fall on frames, the splice walk never stalls, and
/// every frame of `[curr, end)` outside the cut regions is taken exactly
/// once, in order: the operations take non-overlapping runs of source
/// frames, one after the other, and together they take every such frame.
pub proof fn law_every_kept_frame_taken_once(cuts: Seq<CutRegion>, end: nat, total: nat, curr: nat, spliced: nat)
    requires
        forall|j: int| 0 <= j < cuts.len() ==> cut_exact(#[trigger] cuts[j]),
        end <= total <= usize::MAX,
    ensures
        !plan_from(cuts, end, total, curr, spliced).1,
        sources_in_order(plan_from(cuts, end, total, curr, spliced).0, curr),
        forall|f: nat| curr <= f < end && outside_cuts(cuts, f)
            ==> source_taken(plan_from(cuts, end, total, curr, spliced).0, f),
    decreases (if curr < end { end - curr } else { 0 }),
{
    let p = plan_from(cuts, end, total, curr, spliced);
    if curr < end {
        lemma_cut_at_none(cuts, curr);
        match cut_at(cuts, curr) {
            Some(i) => {
                let c = cuts[i];
                assert(cut_exact(c));
                let cut_end: nat = if c.end_frame < end { c.end_frame as nat } else { end };
                let fades = c.fade > 0 && spliced >= c.fade && cut_end + c.fade <= total;
                let next: nat = if fades { (cut_end + c.fade) as nat } else { cut_end };
                let head: Seq<SpliceOp> = if fades {
                    seq![SpliceOp::Crossfade { at: (spliced - c.fade) as usize, from: cut_end as usize, frames: c.fade }]
                } else {
                    Seq::empty()
                };
                assert(next > curr);
                law_every_kept_frame_taken_once(cuts, end, total, next, spliced);
                let rest = plan_from(cuts, end, total, next, spliced).0;
                assert(p.0 == head + rest);
                if fades {
                    assert(source_range(head[0]) == (cut_end, next));
                }
                assert forall|k: int| 0 <= k < p.0.len()
                    implies curr <= source_range(#[trigger] p.0[k]).0 < source_range(p.0[k]).1 by {
                    if k >= head.len() {
                        assert(p.0[k] == rest[k - head.len()]);
                    } else {
                        assert(p.0[k] == head[k]);
                    }
                }
                assert forall|a: int, b: int| 0 <= a < b < p.0.len()
                    implies source_range(#[trigger] p.0[a]).1 <= source_range(#[trigger] p.0[b]).0 by {
                    assert(p.0[b] == rest[b - head.len()]);
                    if a >= head.len() {
                        assert(p.0[a] == rest[a - head.len()]);
                    } else {
                        assert(p.0[a] == head[a]);
                    }
                }
                assert forall|f: nat| curr <= f < end && outside_cuts(cuts, f) implies source_taken(p.0, f) by {
                    assert(!(c.enter <= f && f < c.leave));
                    if fades && f < next {
                        assert(p.0[0] == head[0]);
                    } else {
                        let k = choose|k: int| 0 <= k < rest.len() && source_range(#[trigger] rest[k]).0 <= f && f < source_range(rest[k]).1;
                        assert(p.0[k + head.len()] == rest[k]);
                    }
                }
            },
            None => {
                lemma_next_cut_start_below(cuts, curr, end);
                lemma_next_cut_start_is_a_start(cuts, curr, end);
                let n0 = next_cut_start(cuts, curr, end);
                let next = if n0 < end { n0 } else { end };
                if n0 != end {
                    let j = choose|j: int| 0 <= j < cuts.len() && curr < #[trigger] cuts[j].enter
                        && n0 == cuts[j].start_frame;
                    assert(cut_exact(cuts[j]));
                }
                assert(next > curr);
                let sp = (spliced + (next - curr)) as nat;
                law_every_kept_frame_taken_once(cuts, end, total, next, sp);
                let rest = plan_from(cuts, end, total, next, sp).0;
                let head = seq![SpliceOp::Copy { from: curr as usize, to: next as usize }];
                assert(p.0 == head + rest);
                assert(source_range(head[0]) == (curr, next));
                assert forall|k: int| 0 <= k < p.0.len()
                    implies curr <= source_range(#[trigger] p.0[k]).0 < source_range(p.0[k]).1 by {
                    if k >= 1 {
                        assert(p.0[k] == rest[k - 1]);
                    } else {
                        assert(p.0[k] == head[0]);
                    }
                }
                assert forall|a: int, b: int| 0 <= a < b < p.0.len()
                    implies source_range(#[trigger] p.0[a]).1 <= source_range(#[trigger] p.0[b]).0 by {
                    assert(p.0[b] == rest[b - 1]);
                    if a >= 1 {
                        assert(p.0[a] == rest[a - 1]);
                    } else {
                        assert(p.0[a] == head[0]);
                    }
                }
                assert forall|f: nat| curr <= f < end && outside_cuts(cuts, f) implies source_taken(p.0, f) by {
                    if f < next {
                        assert(p.0[0] == head[0]);
                    } else {
                        let k = choose|k: int| 0 <= k < rest.len() && source_range(#[trigger] rest[k]).0 <= f && f < source_range(rest[k]).1;
                        assert(p.0[k + 1] == rest[k]);
                    }
                }
            },
        }
    }
}

} // verus!
