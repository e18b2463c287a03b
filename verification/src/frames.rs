use vstd::prelude::*;

verus! {

/// Most frames rendered for one voice in one audio block.
pub const MAX_BUFFER_FRAMES: usize = 16384;

/// The frames `[start, end)` of the `i`-th of `num_peaks` overview peaks of
/// a track of `len` frames, or `None` when that peak lies past the end
/// (it is drawn as silence).  Chunks are `len / num_peaks` frames long,
/// at least one.
pub open spec fn peak_chunk_of(len: nat, num_peaks: nat, i: nat) -> Option<(nat, nat)> {
    let chunk = if len / num_peaks >= 1 { len / num_peaks } else { 1 };
    let start = i * chunk;
    if start >= len {
        None
    } else {
        Some((start, if start + chunk < len { start + chunk } else { len }))
    }
}

/// The frames of one overview peak.
pub fn peak_chunk(len: usize, num_peaks: usize, i: usize) -> (r: Option<(usize, usize)>)
    requires
        num_peaks > 0,
        i < num_peaks,
    ensures
        match peak_chunk_of(len as nat, num_peaks as nat, i as nat) {
            Some((a, b)) => r == Some((a as usize, b as usize)),
            None => r is None,
        },
{
    let q = len / num_peaks;
    let chunk = if q >= 1 { q } else { 1 };
    proof {
        if q >= 1 {
            assert((i + 1) * q <= num_peaks * q) by (nonlinear_arith)
                requires i < num_peaks, q >= 1;
            assert(num_peaks * q <= len) by (nonlinear_arith)
                requires q == len / num_peaks, num_peaks > 0;
            assert((i + 1) * q == i * q + q) by (nonlinear_arith);
        }
    }
    let start = i * chunk;
    if start >= len {
        None
    } else {
        let end = if start + chunk < len { start + chunk } else { len };
        Some((start, end))
    }
}

/// Peak chunks never overlap and never leave the track: each starts where
/// the previous one ends.
pub proof fn law_peak_chunks_tile(len: nat, num_peaks: nat, i: nat)
    requires
        num_peaks > 0,
    ensures
        peak_chunk_of(len, num_peaks, i) matches Some((a, b)) ==> a < b <= len,
        peak_chunk_of(len, num_peaks, i) matches Some((a, b)) ==> (b < len ==> (peak_chunk_of(len, num_peaks, i + 1) matches Some((c, d)) && c == b)),
{
    let chunk = if len / num_peaks >= 1 { len / num_peaks } else { 1 };
    assert((i + 1) * chunk == i * chunk + chunk) by (nonlinear_arith);
}

/// The frames `[start, end)` of a window clipped to a track of `total`
/// frames, or `None` when the clipped window is empty.
pub open spec fn clipped_window(total: nat, start: nat, end: nat) -> Option<(nat, nat)> {
    let s = if start < total { start } else { total };
    let e = if end < total { end } else { total };
    if s >= e { None } else { Some((s, e)) }
}

/// The frames of the waveform window `[start_frame, end_frame)`.
pub fn waveform_range(total: usize, start_frame: usize, end_frame: usize) -> (r: Option<(usize, usize)>)
    ensures
        match clipped_window(total as nat, start_frame as nat, end_frame as nat) {
            Some((a, b)) => r == Some((a as usize, b as usize)),
            None => r is None,
        },
{
    let s = if start_frame < total { start_frame } else { total };
    let e = if end_frame < total { end_frame } else { total };
    if s >= e { None } else { Some((s, e)) }
}

/// The frames of the `count` raw samples requested from `start_frame`.
pub fn raw_sample_range(total: usize, start_frame: usize, count: usize) -> (r: Option<(usize, usize)>)
    requires
        (if start_frame < total { start_frame } else { total }) + count <= usize::MAX,
    ensures
        match clipped_window(total as nat, start_frame as nat, ((if start_frame < total { start_frame } else { total }) + count) as nat) {
            Some((a, b)) => r == Some((a as usize, b as usize)),
            None => r is None,
        },
{
    let s = if start_frame < total { start_frame } else { total };
    waveform_range(total, s, s + count)
}

/// How one block of a voice is rendered: the frames written to the output
/// and the frames read from the track, both at most `MAX_BUFFER_FRAMES`;
/// the play head after the block; whether the voice has ended.
#[derive(Clone, Copy, Debug, PartialEq, Eq, Structural)]
pub struct BlockPlan {
    pub out_frames: usize,
    pub in_frames: usize,
    pub next_frame: usize,
    pub ended: bool,
}

pub open spec fn min_nat(a: nat, b: nat) -> nat {
    if a < b { a } else { b }
}

/// The plan for a block of `num_out` output frames of a voice at `frame`
/// in a track of `len` frames, reading `wanted_in` frames (the output
/// length scaled by the speed).  A voice already past its end renders
/// silence and ends.
pub open spec fn block_plan_of(frame: nat, len: nat, num_out: nat, wanted_in: nat) -> BlockPlan {
    if frame >= len {
        BlockPlan { out_frames: 0, in_frames: 0, next_frame: frame as usize, ended: true }
    } else {
        let inf = min_nat(wanted_in, MAX_BUFFER_FRAMES as nat);
        BlockPlan {
            out_frames: min_nat(num_out, MAX_BUFFER_FRAMES as nat) as usize,
            in_frames: inf as usize,
            next_frame: (frame + inf) as usize,
            ended: frame + inf >= len,
        }
    }
}

/// Frames written to the output for a block of `num_out` frames.
pub fn block_out_frames(num_out: usize) -> (n: usize)
    ensures
        n as nat == min_nat(num_out as nat, MAX_BUFFER_FRAMES as nat),
{
    if num_out < MAX_BUFFER_FRAMES { num_out } else { MAX_BUFFER_FRAMES }
}

/// Plans one block of a voice.
pub fn block_plan(frame: usize, len: usize, num_out: usize, wanted_in: usize) -> (p: BlockPlan)
    requires
        frame < len ==> frame + MAX_BUFFER_FRAMES <= usize::MAX,
    ensures
        p == block_plan_of(frame as nat, len as nat, num_out as nat, wanted_in as nat),
{
    if frame >= len {
        return BlockPlan { out_frames: 0, in_frames: 0, next_frame: frame, ended: true };
    }
    let out_frames = block_out_frames(num_out);
    let in_frames = if wanted_in < MAX_BUFFER_FRAMES { wanted_in } else { MAX_BUFFER_FRAMES };
    let next_frame = frame + in_frames;
    BlockPlan { out_frames, in_frames, next_frame, ended: next_frame >= len }
}

/// The first `cap` slots of a fixed-size command table: the given items,
/// as many as fit, then `fill`; and the number of items kept.
pub fn fixed_prefix<T: Copy>(items: &[T], fill: T, cap: usize) -> (r: (Vec<T>, usize))
    ensures
        r.1 == if items@.len() < cap { items@.len() } else { cap as nat },
        r.0@.len() == cap,
        forall|i: int| 0 <= i < cap ==> #[trigger] r.0@[i] == if i < r.1 { items@[i] } else { fill },
{
    let count = if items.len() < cap { items.len() } else { cap };
    let mut v: Vec<T> = Vec::new();
    let mut i: usize = 0;
    while i < cap
        invariant
            count == if items@.len() < cap { items@.len() } else { cap as nat },
            i <= cap,
            v@.len() == i,
            forall|j: int| 0 <= j < i ==> #[trigger] v@[j] == if j < count { items@[j] } else { fill },
        decreases cap - i,
    {
        if i < count {
            v.push(items[i]);
        } else {
            v.push(fill);
        }
        i = i + 1;
    }
    (v, count)
}

} // verus!
