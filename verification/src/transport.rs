use vstd::prelude::*;

verus! {

/// Playback position bookkeeping of the track under the play head.
#[derive(Clone, Copy, Debug, PartialEq, Eq, Structural)]
pub struct Transport {
    pub is_playing: bool,
    /// Next frame of the active track to be rendered.
    pub playback_frame: usize,
    /// Length in frames of the active track, when one is loaded.
    pub active_len: Option<usize>,
}

/// The transport-related commands of the audio callback, with their
/// time arguments already expressed in frames.
#[derive(Clone, Copy, Debug, PartialEq, Eq, Structural)]
pub enum TransportCommand {
    Play,
    Pause,
    Stop,
    Seek { target_frame: usize },
    Load { total_frames: usize },
}

/// What the audio callback has to do besides updating the transport.
#[derive(Clone, Copy, Debug, PartialEq, Eq, Structural)]
pub struct TransportEffects {
    /// Reset the time stretcher, the filters and the compressor.
    pub reset_processing: bool,
    /// Reset the time stretcher only.
    pub reset_stretch: bool,
    /// Drop every background voice.
    pub clear_background: bool,
    /// Hand the active track, at `playback_frame` of the old transport,
    /// to the background voices.
    pub move_active_to_background: bool,
}

pub open spec fn no_effects() -> TransportEffects {
    TransportEffects {
        reset_processing: false,
        reset_stretch: false,
        clear_background: false,
        move_active_to_background: false,
    }
}

/// The transport after `cmd`, and what comes with it.
pub open spec fn step(t: Transport, cmd: TransportCommand) -> (Transport, TransportEffects) {
    match cmd {
        TransportCommand::Play => (Transport { is_playing: true, ..t }, no_effects()),
        TransportCommand::Pause => (Transport { is_playing: false, ..t }, no_effects()),
        TransportCommand::Stop => (
            Transport { is_playing: false, playback_frame: 0, ..t },
            TransportEffects { reset_processing: true, clear_background: true, ..no_effects() },
        ),
        TransportCommand::Seek { target_frame } => match t.active_len {
            Some(total) => (
                Transport {
                    playback_frame: if target_frame < total { target_frame } else { total },
                    ..t
                },
                TransportEffects { reset_stretch: true, ..no_effects() },
            ),
            None => (t, no_effects()),
        },
        TransportCommand::Load { total_frames } => (
            Transport { playback_frame: 0, active_len: Some(total_frames), ..t },
            TransportEffects {
                reset_processing: true,
                move_active_to_background: t.is_playing && match t.active_len {
                    Some(len) => t.playback_frame < len,
                    None => false,
                },
                ..no_effects()
            },
        ),
    }
}

/// The position never passes the end of the loaded track.
pub open spec fn in_bounds(t: Transport) -> bool {
    match t.active_len {
        Some(len) => t.playback_frame <= len,
        None => true,
    }
}

impl Transport {
    /// Nothing loaded, stopped at the start.
    pub fn new() -> (t: Self)
        ensures
            t == (Transport { is_playing: false, playback_frame: 0, active_len: None }),
    {
        Transport { is_playing: false, playback_frame: 0, active_len: None }
    }

    /// Applies one command of the audio callback.
    pub fn apply(&mut self, cmd: TransportCommand) -> (e: TransportEffects)
        ensures
            (*final(self), e) == step(*old(self), cmd),
    {
        match cmd {
            TransportCommand::Play => {
                self.is_playing = true;
                TransportEffects {
                    reset_processing: false,
                    reset_stretch: false,
                    clear_background: false,
                    move_active_to_background: false,
                }
            },
            TransportCommand::Pause => {
                self.is_playing = false;
                TransportEffects {
                    reset_processing: false,
                    reset_stretch: false,
                    clear_background: false,
                    move_active_to_background: false,
                }
            },
            TransportCommand::Stop => {
                self.is_playing = false;
                self.playback_frame = 0;
                TransportEffects {
                    reset_processing: true,
                    reset_stretch: false,
                    clear_background: true,
                    move_active_to_background: false,
                }
            },
            TransportCommand::Seek { target_frame } => match self.active_len {
                Some(total) => {
                    self.playback_frame = if target_frame < total { target_frame } else { total };
                    TransportEffects {
                        reset_processing: false,
                        reset_stretch: true,
                        clear_background: false,
                        move_active_to_background: false,
                    }
                },
                None => TransportEffects {
                    reset_processing: false,
                    reset_stretch: false,
                    clear_background: false,
                    move_active_to_background: false,
                },
            },
            TransportCommand::Load { total_frames } => {
                let moving = self.is_playing && match self.active_len {
                    Some(len) => self.playback_frame < len,
                    None => false,
                };
                self.playback_frame = 0;
                self.active_len = Some(total_frames);
                TransportEffects {
                    reset_processing: true,
                    reset_stretch: false,
                    clear_background: false,
                    move_active_to_background: moving,
                }
            },
        }
    }

    /// Records that a block of the active track was rendered and the play
    /// head now stands at `new_frame`; `background_left` voices still sound.
    /// Playback stops when the active track (if any) has ended and no
    /// background voice is left.  Returns whether the active track ended.
    pub fn finish_block(&mut self, new_frame: usize, background_left: usize) -> (ended: bool)
        ensures
            final(self).active_len == old(self).active_len,
            final(self).playback_frame == if old(self).active_len is Some { new_frame } else { old(self).playback_frame },
            ended == match old(self).active_len {
                Some(len) => new_frame >= len,
                None => false,
            },
            final(self).is_playing == (old(self).is_playing && !((old(self).active_len is None || ended) && background_left == 0)),
    {
        let ended = match self.active_len {
            Some(len) => {
                self.playback_frame = new_frame;
                new_frame >= len
            },
            None => false,
        };
        if (self.active_len.is_none() || ended) && background_left == 0 {
            self.is_playing = false;
        }
        ended
    }
}

/// Applying commands one after the other.
pub open spec fn run(t: Transport, cmds: Seq<TransportCommand>) -> Transport
    decreases cmds.len(),
{
    if cmds.len() == 0 {
        t
    } else {
        run(step(t, cmds[0]).0, cmds.drop_first())
    }
}

/// Seeking never moves the play head past the end of the loaded track,
/// and every command keeps the play head within the track.
pub proof fn law_transport_in_bounds(t: Transport, cmd: TransportCommand)
    requires
        in_bounds(t),
    ensures
        in_bounds(step(t, cmd).0),
{
}

/// The play head stays within the loaded track through any sequence of
/// commands.
pub proof fn law_run_in_bounds(t: Transport, cmds: Seq<TransportCommand>)
    requires
        in_bounds(t),
    ensures
        in_bounds(run(t, cmds)),
    decreases cmds.len(),
{
    if cmds.len() > 0 {
        law_transport_in_bounds(t, cmds[0]);
        law_run_in_bounds(step(t, cmds[0]).0, cmds.drop_first());
    }
}

/// Stop always rewinds to the start and stops, whatever came before, and
/// ends every background voice.
pub proof fn law_stop_rewinds(t: Transport)
    ensures
        step(t, TransportCommand::Stop).0.playback_frame == 0,
        !step(t, TransportCommand::Stop).0.is_playing,
        step(t, TransportCommand::Stop).0.active_len == t.active_len,
        step(t, TransportCommand::Stop).1 == (TransportEffects {
            reset_processing: true,
            reset_stretch: false,
            clear_background: true,
            move_active_to_background: false,
        }),
{
}

proof fn lemma_run_append(t: Transport, a: Seq<TransportCommand>, b: Seq<TransportCommand>)
    ensures
        run(t, a + b) == run(run(t, a), b),
    decreases a.len(),
{
    if a.len() == 0 {
        assert(a + b =~= b);
    } else {
        assert((a + b).drop_first() =~= a.drop_first() + b);
        assert((a + b)[0] == a[0]);
        lemma_run_append(step(t, a[0]).0, a.drop_first(), b);
    }
}

/// A command that neither seeks nor loads.
pub open spec fn keeps_position(c: TransportCommand) -> bool {
    c is Play || c is Pause || c is Stop
}

proof fn lemma_run_keeps_start(t: Transport, cmds: Seq<TransportCommand>)
    requires
        t.playback_frame == 0,
        forall|j: int| 0 <= j < cmds.len() ==> keeps_position(#[trigger] cmds[j]),
    ensures
        run(t, cmds).playback_frame == 0,
    decreases cmds.len(),
{
    if cmds.len() > 0 {
        assert(keeps_position(cmds[0]));
        assert forall|j: int| 0 <= j < cmds.drop_first().len() implies keeps_position(#[trigger] cmds.drop_first()[j]) by {
            assert(cmds.drop_first()[j] == cmds[j + 1]);
        }
        lemma_run_keeps_start(step(t, cmds[0]).0, cmds.drop_first());
    }
}

/// In any queue of commands, a Stop followed only by Play, Pause and Stop
/// leaves the play head at the start.
pub proof fn law_stop_rewinds_queue(t: Transport, cmds: Seq<TransportCommand>, i: int)
    requires
        0 <= i < cmds.len(),
        cmds[i] == TransportCommand::Stop,
        forall|j: int| i < j < cmds.len() ==> keeps_position(#[trigger] cmds[j]),
    ensures
        run(t, cmds).playback_frame == 0,
{
    let head = cmds.take(i);
    let tail = cmds.skip(i);
    assert(cmds =~= head + tail);
    lemma_run_append(t, head, tail);
    let u = run(t, head);
    assert(tail[0] == TransportCommand::Stop);
    let after = tail.drop_first();
    assert forall|j: int| 0 <= j < after.len() implies keeps_position(#[trigger] after[j]) by {
        assert(after[j] == cmds[i + 1 + j]);
    }
    lemma_run_keeps_start(step(u, TransportCommand::Stop).0, after);
}

/// Pause freezes everything: the play head stays where it is, and neither
/// the active track nor any background voice is touched.
pub proof fn law_pause_freezes(t: Transport)
    ensures
        step(t, TransportCommand::Pause).0 == (Transport { is_playing: false, ..t }),
        step(t, TransportCommand::Pause).1 == no_effects(),
{
}

/// Playing after a pause resumes at the same frame.
pub proof fn law_pause_play_resumes(t: Transport)
    ensures
        step(step(t, TransportCommand::Pause).0, TransportCommand::Play).0 == (Transport { is_playing: true, ..t }),
{
}

/// Loading a track over a playing, unfinished one hands that one to the
/// background; playback state is kept and the new track starts at frame 0.
pub proof fn law_load_keeps_playing(t: Transport, total: usize)
    ensures
        step(t, TransportCommand::Load { total_frames: total }).0 == (Transport {
            is_playing: t.is_playing,
            playback_frame: 0,
            active_len: Some(total),
        }),
        step(t, TransportCommand::Load { total_frames: total }).1 == (TransportEffects {
            reset_processing: true,
            reset_stretch: false,
            clear_background: false,
            move_active_to_background: t.is_playing && t.active_len is Some && t.playback_frame < t.active_len->0,
        }),
{
}

/// A loop or cut region as the play head meets it, in frames of the track:
/// `enter` and `leave` are the first frames at or after the region's start
/// and end times, `start_frame` and `end_frame` the frames those times
/// round down to.
#[derive(Clone, Copy, Debug, PartialEq, Eq, Structural)]
pub struct PlayRegion {
    pub is_loop: bool,
    pub is_cut: bool,
    pub enter: usize,
    pub leave: usize,
    pub start_frame: usize,
    pub end_frame: usize,
}

/// Where region `r` sends a play head at `frame`: a cut region the head is
/// inside sends it to the cut's end, a loop region whose end the head has
/// reached sends it back to the loop's start.
pub open spec fn region_target(r: PlayRegion, frame: nat) -> Option<usize> {
    if r.is_cut && r.enter <= frame && frame < r.leave {
        Some(r.end_frame)
    } else if r.is_loop && frame >= r.leave {
        Some(r.start_frame)
    } else {
        None
    }
}

/// Where the play head at `frame` jumps before a block is rendered: the
/// target of the first region, in order, that sends it somewhere.
pub open spec fn region_jump_of(regions: Seq<PlayRegion>, frame: nat) -> Option<usize>
    decreases regions.len(),
{
    if regions.len() == 0 {
        None
    } else {
        match region_target(regions[0], frame) {
            Some(target) => Some(target),
            None => region_jump_of(regions.drop_first(), frame),
        }
    }
}

/// The frame the play head at `frame` jumps to because of the loop and cut
/// regions, or `None` when it stays.
pub fn region_jump(regions: &[PlayRegion], frame: usize) -> (r: Option<usize>)
    ensures
        r == region_jump_of(regions@, frame as nat),
{
    let mut i: usize = 0;
    assert(regions@.skip(0) =~= regions@);
    while i < regions.len()
        invariant
            i <= regions@.len(),
            region_jump_of(regions@, frame as nat) == region_jump_of(regions@.skip(i as int), frame as nat),
        decreases regions@.len() - i,
    {
        let reg = regions[i];
        assert(regions@.skip(i as int)[0] == reg);
        assert(regions@.skip(i as int).drop_first() =~= regions@.skip(i + 1));
        if reg.is_cut && reg.enter <= frame && frame < reg.leave {
            return Some(reg.end_frame);
        } else if reg.is_loop && frame >= reg.leave {
            return Some(reg.start_frame);
        }
        i = i + 1;
    }
    None
}

/// A region that sends the play head somewhere decides the jump: no region
/// after it in the list is consulted.
pub proof fn law_first_region_decides(regions: Seq<PlayRegion>, frame: nat, i: int)
    requires
        0 <= i < regions.len(),
        region_target(regions[i], frame) is Some,
        forall|j: int| 0 <= j < i ==> region_target(#[trigger] regions[j], frame) is None,
    ensures
        region_jump_of(regions, frame) == region_target(regions[i], frame),
    decreases i,
{
    if i > 0 {
        assert forall|j: int| 0 <= j < i - 1 implies region_target(#[trigger] regions.drop_first()[j], frame) is None by {
            assert(regions.drop_first()[j] == regions[j + 1]);
        }
        assert(region_target(regions[0], frame) is None);
        law_first_region_decides(regions.drop_first(), frame, i - 1);
    }
}

/// A description of an equaliser band, as far as choosing the filters goes.
#[derive(Clone, Copy, Debug, PartialEq, Eq, Structural)]
pub struct BandChoice {
    pub enabled: bool,
    /// Whether the band's gain differs audibly from 0 dB.
    pub audible_gain: bool,
}

/// A band gets a filter when it is enabled and changes the gain.
pub open spec fn band_selected(b: BandChoice) -> bool {
    b.enabled && b.audible_gain
}

/// Indices of the bands among the first `n` that get a filter, in order,
/// at most `pool` of them.
pub open spec fn selected_bands(bands: Seq<BandChoice>, n: nat, pool: nat) -> Seq<usize>
    decreases n,
{
    if n == 0 {
        Seq::empty()
    } else {
        let r = selected_bands(bands, (n - 1) as nat, pool);
        if band_selected(bands[n - 1]) && r.len() < pool {
            r.push((n - 1) as usize)
        } else {
            r
        }
    }
}

/// Chooses which of the first `count` equaliser bands get one of the `pool`
/// filters: the enabled bands with an audible gain, in order, while filters
/// are left.
pub fn select_bands(bands: &[BandChoice], count: usize, pool: usize) -> (r: Vec<usize>)
    ensures
        r@ == selected_bands(bands@, if count < bands@.len() { count as nat } else { bands@.len() }, pool as nat),
{
    let n = if count < bands.len() { count } else { bands.len() };
    let mut r: Vec<usize> = Vec::new();
    let mut i: usize = 0;
    while i < n
        invariant
            n <= bands@.len(),
            n == if count < bands@.len() { count as nat } else { bands@.len() },
            i <= n,
            r@ == selected_bands(bands@, i as nat, pool as nat),
        decreases n - i,
    {
        proof {
            lemma_selected_len(bands@, i as nat, pool as nat);
        }
        let b = bands[i];
        if b.enabled && b.audible_gain && r.len() < pool {
            r.push(i);
        }
        i = i + 1;
    }
    r
}

proof fn lemma_selected_len(bands: Seq<BandChoice>, n: nat, pool: nat)
    requires
        n <= usize::MAX,
    ensures
        selected_bands(bands, n, pool).len() <= pool,
        selected_bands(bands, n, pool).len() <= n,
        forall|j: int| 0 <= j < selected_bands(bands, n, pool).len()
            ==> selected_bands(bands, n, pool)[j] < n && band_selected(bands[selected_bands(bands, n, pool)[j] as int]),
    decreases n,
{
    if n > 0 {
        lemma_selected_len(bands, (n - 1) as nat, pool);
    }
}

/// Every chosen band is enabled with an audible gain, the indices are
/// strictly increasing, and no more filters are used than there are.
pub proof fn law_selected_bands(bands: Seq<BandChoice>, n: nat, pool: nat)
    requires
        n <= bands.len(),
        n <= usize::MAX,
    ensures
        selected_bands(bands, n, pool).len() <= pool,
        forall|j: int| 0 <= j < selected_bands(bands, n, pool).len() ==> band_selected(bands[selected_bands(bands, n, pool)[j] as int]),
        forall|a: int, b: int| 0 <= a < b < selected_bands(bands, n, pool).len()
            ==> selected_bands(bands, n, pool)[a] < selected_bands(bands, n, pool)[b],
    decreases n,
{
    lemma_selected_len(bands, n, pool);
    if n > 0 {
        law_selected_bands(bands, (n - 1) as nat, pool);
        lemma_selected_len(bands, (n - 1) as nat, pool);
    }
}

/// With a track loaded, a seek puts the play head at the requested frame,
/// or at the track's end when the request lies beyond it, whether or not
/// the track is playing; nothing else of the transport changes.
pub proof fn law_seek_moves_play_head(t: Transport, total: usize, target: usize)
    requires
        t.active_len == Some(total),
    ensures
        step(t, TransportCommand::Seek { target_frame: target }).0.playback_frame
            == (if target <= total { target } else { total }),
        step(t, TransportCommand::Seek { target_frame: target }).0.is_playing == t.is_playing,
        step(t, TransportCommand::Seek { target_frame: target }).0.active_len == t.active_len,
        step(t, TransportCommand::Seek { target_frame: target }).1 == (TransportEffects {
            reset_processing: false,
            reset_stretch: true,
            clear_background: false,
            move_active_to_background: false,
        }),
{
}

/// Without a loaded track a seek changes nothing and asks for nothing.
pub proof fn law_seek_without_track(t: Transport, target: usize)
    requires
        t.active_len is None,
    ensures
        step(t, TransportCommand::Seek { target_frame: target }).0 == t,
        step(t, TransportCommand::Seek { target_frame: target }).1 == no_effects(),
{
}

/// Play starts playback where the play head stands and touches nothing
/// else.
pub proof fn law_play_starts_in_place(t: Transport)
    ensures
        step(t, TransportCommand::Play).0 == (Transport { is_playing: true, ..t }),
        step(t, TransportCommand::Play).1 == no_effects(),
{
}

} // verus!
