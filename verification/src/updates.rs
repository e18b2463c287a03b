use vstd::prelude::*;

verus! {

/// Parameter updates gathered during one audio block: for each kind of
/// update, the last value offered for it, applied once when the block
/// starts rendering.
pub struct LastOfEach<T> {
    slots: Vec<Option<T>>,
}

impl<T> View for LastOfEach<T> {
    type V = Seq<Option<T>>;

    closed spec fn view(&self) -> Seq<Option<T>> {
        self.slots@
    }
}

impl<T> LastOfEach<T> {
    /// Nothing pending, for `kinds` kinds of update.
    pub fn new(kinds: usize) -> (s: Self)
        ensures
            s@ == Seq::new(kinds as nat, |i: int| None::<T>),
    {
        let mut slots: Vec<Option<T>> = Vec::new();
        let mut i: usize = 0;
        while i < kinds
            invariant
                i <= kinds,
                slots@ == Seq::new(i as nat, |j: int| None::<T>),
            decreases kinds - i,
        {
            slots.push(None);
            i = i + 1;
            assert(slots@ =~= Seq::new(i as nat, |j: int| None::<T>));
        }
        LastOfEach { slots }
    }

    /// The number of kinds of update.
    pub fn kinds(&self) -> (n: usize)
        ensures
            n == self@.len(),
    {
        self.slots.len()
    }

    /// Offers a value for `kind`; it replaces any value pending for it.
    pub fn offer(&mut self, kind: usize, value: T)
        requires
            kind < old(self)@.len(),
        ensures
            final(self)@ == old(self)@.update(kind as int, Some(value)),
    {
        self.slots.set(kind, Some(value));
    }

    /// Takes the value pending for `kind`, leaving nothing pending for it.
    pub fn take(&mut self, kind: usize) -> (r: Option<T>)
        requires
            kind < old(self)@.len(),
        ensures
            r == old(self)@[kind as int],
            final(self)@ == old(self)@.update(kind as int, None),
    {
        let mut out: Option<T> = None;
        self.slots.set_and_swap(kind, &mut out);
        out
    }
}

/// The pending values after offering `offers`, in order, to `start`.
pub open spec fn offered<T>(start: Seq<Option<T>>, offers: Seq<(usize, T)>) -> Seq<Option<T>>
    decreases offers.len(),
{
    if offers.len() == 0 {
        start
    } else {
        offered(start, offers.drop_last()).update(offers.last().0 as int, Some(offers.last().1))
    }
}

/// The value of the last offer of `kind` among `offers`, if there is one.
pub open spec fn last_offer_of<T>(offers: Seq<(usize, T)>, kind: int) -> Option<T>
    decreases offers.len(),
{
    if offers.len() == 0 {
        None
    } else if offers.last().0 == kind {
        Some(offers.last().1)
    } else {
        last_offer_of(offers.drop_last(), kind)
    }
}

/// The last offer of each kind wins: after any sequence of offers, a kind
/// holds the value last offered for it, or what it held before when no
/// offer was of that kind.
pub proof fn law_last_offer_wins<T>(start: Seq<Option<T>>, offers: Seq<(usize, T)>, kind: int)
    requires
        0 <= kind < start.len(),
        forall|j: int| 0 <= j < offers.len() ==> (#[trigger] offers[j]).0 < start.len(),
    ensures
        offered(start, offers).len() == start.len(),
        offered(start, offers)[kind] == match last_offer_of(offers, kind) {
            Some(v) => Some(v),
            None => start[kind],
        },
    decreases offers.len(),
{
    if offers.len() > 0 {
        let rest = offers.drop_last();
        assert forall|j: int| 0 <= j < rest.len() implies (#[trigger] rest[j]).0 < start.len() by {
            assert(rest[j] == offers[j]);
        }
        assert(offers.last() == offers[offers.len() - 1]);
        law_last_offer_wins(start, rest, kind);
    }
}

/// The commands the audio callback receives, told apart by kind.
#[derive(Clone, Copy, Debug, PartialEq, Eq, Structural)]
pub enum EngineCommandKind {
    Play,
    Pause,
    Stop,
    StopBackgroundTracks,
    Seek,
    SetPitch,
    SetTempo,
    SetVolume,
    LoadAudio,
    SetEq,
    SetEqBands,
    SetCompressor,
    SetDualCompressor,
    SetRegions,
    SetVolumeEnvelope,
}

/// The kind of update a pitch command gathers into.
pub const PITCH_UPDATE: usize = 0;
/// The kind of update a tempo command gathers into.
pub const TEMPO_UPDATE: usize = 1;
/// The kind of update both equaliser commands gather into.
pub const EQ_UPDATE: usize = 2;
/// The kind of update both compressor commands gather into.
pub const COMPRESSOR_UPDATE: usize = 3;
/// The kind of update a region command gathers into.
pub const REGIONS_UPDATE: usize = 4;
/// The kind of update a volume-envelope command gathers into.
pub const ENVELOPE_UPDATE: usize = 5;
/// The number of kinds of update gathered during a block.
pub const UPDATE_KINDS: usize = 6;

/// The kind of update a command is gathered into, if it is gathered at
/// all: the three-band and the free equaliser share one kind, as do the
/// single and the dual compressor, so the last of either wins; transport
/// commands, volume and loading take effect at once.
pub open spec fn update_kind_of(k: EngineCommandKind) -> Option<usize> {
    match k {
        EngineCommandKind::SetPitch => Some(PITCH_UPDATE),
        EngineCommandKind::SetTempo => Some(TEMPO_UPDATE),
        EngineCommandKind::SetEq | EngineCommandKind::SetEqBands => Some(EQ_UPDATE),
        EngineCommandKind::SetCompressor | EngineCommandKind::SetDualCompressor => Some(COMPRESSOR_UPDATE),
        EngineCommandKind::SetRegions => Some(REGIONS_UPDATE),
        EngineCommandKind::SetVolumeEnvelope => Some(ENVELOPE_UPDATE),
        _ => None,
    }
}

/// The kind of update a command is gathered into.
pub fn update_kind(k: EngineCommandKind) -> (r: Option<usize>)
    ensures
        r == update_kind_of(k),
        r matches Some(u) ==> u < UPDATE_KINDS,
{
    match k {
        EngineCommandKind::SetPitch => Some(PITCH_UPDATE),
        EngineCommandKind::SetTempo => Some(TEMPO_UPDATE),
        EngineCommandKind::SetEq | EngineCommandKind::SetEqBands => Some(EQ_UPDATE),
        EngineCommandKind::SetCompressor | EngineCommandKind::SetDualCompressor => Some(COMPRESSOR_UPDATE),
        EngineCommandKind::SetRegions => Some(REGIONS_UPDATE),
        EngineCommandKind::SetVolumeEnvelope => Some(ENVELOPE_UPDATE),
        _ => None,
    }
}

/// The settings of the active voice that the engine counts or flags (its
/// pitch and speed, floating-point numbers, are the caller's).
#[derive(Clone, Copy, Debug, PartialEq, Eq, Structural)]
pub struct VoiceSettings {
    /// Channels the time stretcher works on.
    pub stretch_channels: usize,
    /// Equaliser filters in use.
    pub active_biquads: usize,
    pub eq_active: bool,
    /// Volume-envelope nodes in use.
    pub envelope_nodes: usize,
    /// Loop and cut regions in use.
    pub regions: usize,
}

/// The settings of a voice that starts afresh: the stretcher on
/// `default_channels`, no filters, no envelope, no regions.
pub open spec fn fresh_voice_of(default_channels: usize) -> VoiceSettings {
    VoiceSettings { stretch_channels: default_channels, active_biquads: 0, eq_active: false, envelope_nodes: 0, regions: 0 }
}

/// The active voice's settings after a load: when the load hands the
/// playing voice to the background (and there was one), the new active
/// voice starts afresh; otherwise the settings stay.
pub open spec fn settings_after_load_of(moved: bool, current: VoiceSettings, default_channels: usize) -> VoiceSettings {
    if moved { fresh_voice_of(default_channels) } else { current }
}

/// Works out the active voice's settings after a load.
pub fn settings_after_load(moved: bool, current: VoiceSettings, default_channels: usize) -> (r: VoiceSettings)
    ensures
        r == settings_after_load_of(moved, current, default_channels),
{
    if moved {
        VoiceSettings { stretch_channels: default_channels, active_biquads: 0, eq_active: false, envelope_nodes: 0, regions: 0 }
    } else {
        current
    }
}

} // verus!
