use vstd::prelude::*;
use crate::text::{
    chars_of, equals_literal, has_prefix, push_chars, push_str, string_from_chars, trim, trimmed,
};

verus! {

/// Actions a remote control can trigger without an argument.
#[derive(Clone, Copy, Debug, PartialEq, Eq, Structural)]
pub enum RemoteAction {
    PlayPause,
    Play,
    Pause,
    Stop,
    Rewind,
    NextTrack,
    PrevTrack,
    NextMarker,
    PrevMarker,
    AddMarker,
    PitchUp,
    PitchDown,
    VolumeUp,
    VolumeDown,
    SpeedUp,
    SpeedDown,
    ToggleLoop,
    ToggleCut,
}

/// The name of an action in the messages sent to the user interface.
pub open spec fn action_name(a: RemoteAction) -> Seq<char> {
    match a {
        RemoteAction::PlayPause => "play_pause"@,
        RemoteAction::Play => "play"@,
        RemoteAction::Pause => "pause"@,
        RemoteAction::Stop => "stop"@,
        RemoteAction::Rewind => "rewind"@,
        RemoteAction::NextTrack => "next_track"@,
        RemoteAction::PrevTrack => "prev_track"@,
        RemoteAction::NextMarker => "next_marker"@,
        RemoteAction::PrevMarker => "prev_marker"@,
        RemoteAction::AddMarker => "add_marker"@,
        RemoteAction::PitchUp => "pitch_up"@,
        RemoteAction::PitchDown => "pitch_down"@,
        RemoteAction::VolumeUp => "volume_up"@,
        RemoteAction::VolumeDown => "volume_down"@,
        RemoteAction::SpeedUp => "speed_up"@,
        RemoteAction::SpeedDown => "speed_down"@,
        RemoteAction::ToggleLoop => "toggle_loop"@,
        RemoteAction::ToggleCut => "toggle_cut"@,
    }
}

fn action_name_str(a: RemoteAction) -> (s: &'static str)
    ensures
        s@ == action_name(a),
{
    match a {
        RemoteAction::PlayPause => "play_pause",
        RemoteAction::Play => "play",
        RemoteAction::Pause => "pause",
        RemoteAction::Stop => "stop",
        RemoteAction::Rewind => "rewind",
        RemoteAction::NextTrack => "next_track",
        RemoteAction::PrevTrack => "prev_track",
        RemoteAction::NextMarker => "next_marker",
        RemoteAction::PrevMarker => "prev_marker",
        RemoteAction::AddMarker => "add_marker",
        RemoteAction::PitchUp => "pitch_up",
        RemoteAction::PitchDown => "pitch_down",
        RemoteAction::VolumeUp => "volume_up",
        RemoteAction::VolumeDown => "volume_down",
        RemoteAction::SpeedUp => "speed_up",
        RemoteAction::SpeedDown => "speed_down",
        RemoteAction::ToggleLoop => "toggle_loop",
        RemoteAction::ToggleCut => "toggle_cut",
    }
}

/// The JSON text that asks the user interface to perform `a`.
pub open spec fn action_json(a: RemoteAction) -> Seq<char> {
    "{\"action\":\""@ + action_name(a) + "\"}"@
}

/// Writes the JSON text that asks the user interface to perform `a`.
pub fn action_payload(a: RemoteAction) -> (s: String)
    ensures
        s@ == action_json(a),
{
    let mut v: Vec<char> = Vec::new();
    push_str(&mut v, "{\"action\":\"");
    push_str(&mut v, action_name_str(a));
    push_str(&mut v, "\"}");
    string_from_chars(v.as_slice())
}

/// The first argument of an OSC message, as far as the player reads it.
/// A 32-bit float is carried by its IEEE-754 bits.
#[derive(Clone, Copy, Debug, PartialEq, Eq, Structural)]
pub enum OscArg {
    Float { bits: u32 },
    Int { value: i32 },
    Other,
}

/// What an OSC message asks of the player.
#[derive(Clone, Copy, Debug, PartialEq, Eq, Structural)]
pub enum OscRoute {
    Action(RemoteAction),
    /// Set the pitch, in semitones, to the (float or integer) argument.
    SetPitch(OscArg),
    /// Set the volume, in dB, to the (float or integer) argument.
    SetVolume(OscArg),
    /// Set the speed to the (float) argument.
    SetSpeed(OscArg),
}

/// An OSC message: its address and its first argument, if it has one.
#[derive(Debug)]
pub struct OscMessage {
    pub addr: String,
    pub first_arg: Option<OscArg>,
}

/// The content of an OSC packet: a message, or a bundle of packets.
#[derive(Debug)]
pub enum OscNode {
    Message(OscMessage),
    Bundle(Vec<OscNode>),
}

pub open spec fn is_number(a: Option<OscArg>) -> bool {
    a matches Some(OscArg::Float { .. }) || a matches Some(OscArg::Int { .. })
}

pub open spec fn is_float(a: Option<OscArg>) -> bool {
    a matches Some(OscArg::Float { .. })
}

/// What the message at address `addr` with first argument `arg` asks for;
/// `None` when the player ignores it.
pub open spec fn osc_route_of(addr: Seq<char>, arg: Option<OscArg>) -> Option<OscRoute> {
    if addr == "/trackhelm/playpause"@ || addr == "/trackhelm/play_pause"@ {
        Some(OscRoute::Action(RemoteAction::PlayPause))
    } else if addr == "/trackhelm/play"@ {
        Some(OscRoute::Action(RemoteAction::Play))
    } else if addr == "/trackhelm/pause"@ {
        Some(OscRoute::Action(RemoteAction::Pause))
    } else if addr == "/trackhelm/stop"@ {
        Some(OscRoute::Action(RemoteAction::Stop))
    } else if addr == "/trackhelm/rewind"@ {
        Some(OscRoute::Action(RemoteAction::Rewind))
    } else if addr == "/trackhelm/track/next"@ || addr == "/trackhelm/next_track"@ {
        Some(OscRoute::Action(RemoteAction::NextTrack))
    } else if addr == "/trackhelm/track/prev"@ || addr == "/trackhelm/prev_track"@ {
        Some(OscRoute::Action(RemoteAction::PrevTrack))
    } else if addr == "/trackhelm/marker/next"@ || addr == "/trackhelm/next_marker"@ {
        Some(OscRoute::Action(RemoteAction::NextMarker))
    } else if addr == "/trackhelm/marker/prev"@ || addr == "/trackhelm/prev_marker"@ {
        Some(OscRoute::Action(RemoteAction::PrevMarker))
    } else if addr == "/trackhelm/marker/add"@ || addr == "/trackhelm/add_marker"@ {
        Some(OscRoute::Action(RemoteAction::AddMarker))
    } else if addr == "/trackhelm/pitch/inc"@ || addr == "/trackhelm/pitch/up"@ {
        Some(OscRoute::Action(RemoteAction::PitchUp))
    } else if addr == "/trackhelm/pitch/dec"@ || addr == "/trackhelm/pitch/down"@ {
        Some(OscRoute::Action(RemoteAction::PitchDown))
    } else if addr == "/trackhelm/pitch"@ {
        if is_number(arg) { Some(OscRoute::SetPitch(arg->0)) } else { None }
    } else if addr == "/trackhelm/volume/inc"@ || addr == "/trackhelm/volume/up"@ {
        Some(OscRoute::Action(RemoteAction::VolumeUp))
    } else if addr == "/trackhelm/volume/dec"@ || addr == "/trackhelm/volume/down"@ {
        Some(OscRoute::Action(RemoteAction::VolumeDown))
    } else if addr == "/trackhelm/volume"@ {
        if is_number(arg) { Some(OscRoute::SetVolume(arg->0)) } else { None }
    } else if addr == "/trackhelm/speed/inc"@ || addr == "/trackhelm/speed/up"@ {
        Some(OscRoute::Action(RemoteAction::SpeedUp))
    } else if addr == "/trackhelm/speed/dec"@ || addr == "/trackhelm/speed/down"@ {
        Some(OscRoute::Action(RemoteAction::SpeedDown))
    } else if addr == "/trackhelm/speed"@ {
        if is_float(arg) { Some(OscRoute::SetSpeed(arg->0)) } else { None }
    } else if addr == "/trackhelm/loop"@ || addr == "/trackhelm/toggle_loop"@ {
        Some(OscRoute::Action(RemoteAction::ToggleLoop))
    } else if addr == "/trackhelm/cut"@ || addr == "/trackhelm/toggle_cut"@ {
        Some(OscRoute::Action(RemoteAction::ToggleCut))
    } else {
        None
    }
}

/// The path, below `/trackhelm/`, that addresses an action by what it acts
/// on and then what it does (`marker/prev`, `pitch/up`), or by its one
/// word (`play`, `loop`).
pub open spec fn osc_path(a: RemoteAction) -> Seq<char> {
    match a {
        RemoteAction::PlayPause => "playpause"@,
        RemoteAction::Play => "play"@,
        RemoteAction::Pause => "pause"@,
        RemoteAction::Stop => "stop"@,
        RemoteAction::Rewind => "rewind"@,
        RemoteAction::NextTrack => "track/next"@,
        RemoteAction::PrevTrack => "track/prev"@,
        RemoteAction::NextMarker => "marker/next"@,
        RemoteAction::PrevMarker => "marker/prev"@,
        RemoteAction::AddMarker => "marker/add"@,
        RemoteAction::PitchUp => "pitch/up"@,
        RemoteAction::PitchDown => "pitch/down"@,
        RemoteAction::VolumeUp => "volume/up"@,
        RemoteAction::VolumeDown => "volume/down"@,
        RemoteAction::SpeedUp => "speed/up"@,
        RemoteAction::SpeedDown => "speed/down"@,
        RemoteAction::ToggleLoop => "loop"@,
        RemoteAction::ToggleCut => "cut"@,
    }
}

/// A second path for the level actions: `inc` for up, `dec` for down.
pub open spec fn osc_alt_path(a: RemoteAction) -> Option<Seq<char>> {
    match a {
        RemoteAction::PitchUp => Some("pitch/inc"@),
        RemoteAction::PitchDown => Some("pitch/dec"@),
        RemoteAction::VolumeUp => Some("volume/inc"@),
        RemoteAction::VolumeDown => Some("volume/dec"@),
        RemoteAction::SpeedUp => Some("speed/inc"@),
        RemoteAction::SpeedDown => Some("speed/dec"@),
        _ => None,
    }
}

/// Whether an action is also addressed by its name in the messages to
/// the user interface (`/trackhelm/prev_marker`); the level actions are not.
pub open spec fn addressed_by_name(a: RemoteAction) -> bool {
    !(a is PitchUp || a is PitchDown || a is VolumeUp || a is VolumeDown || a is SpeedUp || a is SpeedDown)
}

#[verifier::rlimit(40)]
proof fn lemma_osc_play_pause(arg: Option<OscArg>)
    ensures
        osc_route_of("/trackhelm/"@ + "playpause"@, arg) == Some(OscRoute::Action(RemoteAction::PlayPause)),
        osc_route_of("/trackhelm/"@ + "play_pause"@, arg) == Some(OscRoute::Action(RemoteAction::PlayPause)),
{
    reveal_strlit("/trackhelm/add_marker");
    reveal_strlit("/trackhelm/cut");
    reveal_strlit("/trackhelm/loop");
    reveal_strlit("/trackhelm/marker/add");
    reveal_strlit("/trackhelm/marker/next");
    reveal_strlit("/trackhelm/marker/prev");
    reveal_strlit("/trackhelm/next_marker");
    reveal_strlit("/trackhelm/next_track");
    reveal_strlit("/trackhelm/pause");
    reveal_strlit("/trackhelm/pitch");
    reveal_strlit("/trackhelm/pitch/dec");
    reveal_strlit("/trackhelm/pitch/down");
    reveal_strlit("/trackhelm/pitch/inc");
    reveal_strlit("/trackhelm/pitch/up");
    reveal_strlit("/trackhelm/play");
    reveal_strlit("/trackhelm/play_pause");
    reveal_strlit("/trackhelm/playpause");
    reveal_strlit("/trackhelm/prev_marker");
    reveal_strlit("/trackhelm/prev_track");
    reveal_strlit("/trackhelm/rewind");
    reveal_strlit("/trackhelm/speed");
    reveal_strlit("/trackhelm/speed/dec");
    reveal_strlit("/trackhelm/speed/down");
    reveal_strlit("/trackhelm/speed/inc");
    reveal_strlit("/trackhelm/speed/up");
    reveal_strlit("/trackhelm/stop");
    reveal_strlit("/trackhelm/toggle_cut");
    reveal_strlit("/trackhelm/toggle_loop");
    reveal_strlit("/trackhelm/track/next");
    reveal_strlit("/trackhelm/track/prev");
    reveal_strlit("/trackhelm/volume");
    reveal_strlit("/trackhelm/volume/dec");
    reveal_strlit("/trackhelm/volume/down");
    reveal_strlit("/trackhelm/volume/inc");
    reveal_strlit("/trackhelm/volume/up");
    reveal_strlit("/trackhelm/");
    reveal_strlit("playpause");
    assert("/trackhelm/"@ + "playpause"@ =~= "/trackhelm/playpause"@);
    reveal_strlit("play_pause");
    assert("/trackhelm/"@ + "play_pause"@ =~= "/trackhelm/play_pause"@);
    assert("/trackhelm/playpause"@[12] != "/trackhelm/pitch/dec"@[12]);
    assert("/trackhelm/playpause"@[12] != "/trackhelm/pitch/inc"@[12]);
    assert("/trackhelm/playpause"@[11] != "/trackhelm/speed/dec"@[11]);
    assert("/trackhelm/playpause"@[11] != "/trackhelm/speed/inc"@[11]);
    assert("/trackhelm/playpause"@[11] != "/trackhelm/volume/up"@[11]);
    assert("/trackhelm/play_pause"@[11] != "/trackhelm/add_marker"@[11]);
    assert("/trackhelm/play_pause"@[11] != "/trackhelm/marker/add"@[11]);
    assert("/trackhelm/play_pause"@[11] != "/trackhelm/next_track"@[11]);
    assert("/trackhelm/play_pause"@[12] != "/trackhelm/pitch/down"@[12]);
    assert("/trackhelm/play_pause"@[12] != "/trackhelm/prev_track"@[12]);
    assert("/trackhelm/play_pause"@[11] != "/trackhelm/speed/down"@[11]);
    assert("/trackhelm/play_pause"@[11] != "/trackhelm/toggle_cut"@[11]);
    assert("/trackhelm/play_pause"@[11] != "/trackhelm/track/next"@[11]);
    assert("/trackhelm/play_pause"@[11] != "/trackhelm/track/prev"@[11]);
    assert("/trackhelm/play_pause"@[11] != "/trackhelm/volume/dec"@[11]);
    assert("/trackhelm/play_pause"@[11] != "/trackhelm/volume/inc"@[11]);
}

#[verifier::rlimit(40)]
proof fn lemma_osc_play(arg: Option<OscArg>)
    ensures
        osc_route_of("/trackhelm/"@ + "play"@, arg) == Some(OscRoute::Action(RemoteAction::Play)),
        osc_route_of("/trackhelm/"@ + "play"@, arg) == Some(OscRoute::Action(RemoteAction::Play)),
{
    reveal_strlit("/trackhelm/add_marker");
    reveal_strlit("/trackhelm/cut");
    reveal_strlit("/trackhelm/loop");
    reveal_strlit("/trackhelm/marker/add");
    reveal_strlit("/trackhelm/marker/next");
    reveal_strlit("/trackhelm/marker/prev");
    reveal_strlit("/trackhelm/next_marker");
    reveal_strlit("/trackhelm/next_track");
    reveal_strlit("/trackhelm/pause");
    reveal_strlit("/trackhelm/pitch");
    reveal_strlit("/trackhelm/pitch/dec");
    reveal_strlit("/trackhelm/pitch/down");
    reveal_strlit("/trackhelm/pitch/inc");
    reveal_strlit("/trackhelm/pitch/up");
    reveal_strlit("/trackhelm/play");
    reveal_strlit("/trackhelm/play_pause");
    reveal_strlit("/trackhelm/playpause");
    reveal_strlit("/trackhelm/prev_marker");
    reveal_strlit("/trackhelm/prev_track");
    reveal_strlit("/trackhelm/rewind");
    reveal_strlit("/trackhelm/speed");
    reveal_strlit("/trackhelm/speed/dec");
    reveal_strlit("/trackhelm/speed/down");
    reveal_strlit("/trackhelm/speed/inc");
    reveal_strlit("/trackhelm/speed/up");
    reveal_strlit("/trackhelm/stop");
    reveal_strlit("/trackhelm/toggle_cut");
    reveal_strlit("/trackhelm/toggle_loop");
    reveal_strlit("/trackhelm/track/next");
    reveal_strlit("/trackhelm/track/prev");
    reveal_strlit("/trackhelm/volume");
    reveal_strlit("/trackhelm/volume/dec");
    reveal_strlit("/trackhelm/volume/down");
    reveal_strlit("/trackhelm/volume/inc");
    reveal_strlit("/trackhelm/volume/up");
    reveal_strlit("/trackhelm/");
    reveal_strlit("play");
    assert("/trackhelm/"@ + "play"@ =~= "/trackhelm/play"@);
    reveal_strlit("play");
    assert("/trackhelm/"@ + "play"@ =~= "/trackhelm/play"@);
    assert("/trackhelm/play"@[11] != "/trackhelm/loop"@[11]);
    assert("/trackhelm/play"@[11] != "/trackhelm/stop"@[11]);
    assert("/trackhelm/play"@[11] != "/trackhelm/loop"@[11]);
    assert("/trackhelm/play"@[11] != "/trackhelm/stop"@[11]);
}

#[verifier::rlimit(40)]
proof fn lemma_osc_pause(arg: Option<OscArg>)
    ensures
        osc_route_of("/trackhelm/"@ + "pause"@, arg) == Some(OscRoute::Action(RemoteAction::Pause)),
        osc_route_of("/trackhelm/"@ + "pause"@, arg) == Some(OscRoute::Action(RemoteAction::Pause)),
{
    reveal_strlit("/trackhelm/add_marker");
    reveal_strlit("/trackhelm/cut");
    reveal_strlit("/trackhelm/loop");
    reveal_strlit("/trackhelm/marker/add");
    reveal_strlit("/trackhelm/marker/next");
    reveal_strlit("/trackhelm/marker/prev");
    reveal_strlit("/trackhelm/next_marker");
    reveal_strlit("/trackhelm/next_track");
    reveal_strlit("/trackhelm/pause");
    reveal_strlit("/trackhelm/pitch");
    reveal_strlit("/trackhelm/pitch/dec");
    reveal_strlit("/trackhelm/pitch/down");
    reveal_strlit("/trackhelm/pitch/inc");
    reveal_strlit("/trackhelm/pitch/up");
    reveal_strlit("/trackhelm/play");
    reveal_strlit("/trackhelm/play_pause");
    reveal_strlit("/trackhelm/playpause");
    reveal_strlit("/trackhelm/prev_marker");
    reveal_strlit("/trackhelm/prev_track");
    reveal_strlit("/trackhelm/rewind");
    reveal_strlit("/trackhelm/speed");
    reveal_strlit("/trackhelm/speed/dec");
    reveal_strlit("/trackhelm/speed/down");
    reveal_strlit("/trackhelm/speed/inc");
    reveal_strlit("/trackhelm/speed/up");
    reveal_strlit("/trackhelm/stop");
    reveal_strlit("/trackhelm/toggle_cut");
    reveal_strlit("/trackhelm/toggle_loop");
    reveal_strlit("/trackhelm/track/next");
    reveal_strlit("/trackhelm/track/prev");
    reveal_strlit("/trackhelm/volume");
    reveal_strlit("/trackhelm/volume/dec");
    reveal_strlit("/trackhelm/volume/down");
    reveal_strlit("/trackhelm/volume/inc");
    reveal_strlit("/trackhelm/volume/up");
    reveal_strlit("/trackhelm/");
    reveal_strlit("pause");
    assert("/trackhelm/"@ + "pause"@ =~= "/trackhelm/pause"@);
    reveal_strlit("pause");
    assert("/trackhelm/"@ + "pause"@ =~= "/trackhelm/pause"@);
    assert("/trackhelm/pause"@[12] != "/trackhelm/pitch"@[12]);
    assert("/trackhelm/pause"@[11] != "/trackhelm/speed"@[11]);
    assert("/trackhelm/pause"@[12] != "/trackhelm/pitch"@[12]);
    assert("/trackhelm/pause"@[11] != "/trackhelm/speed"@[11]);
}

#[verifier::rlimit(40)]
proof fn lemma_osc_stop(arg: Option<OscArg>)
    ensures
        osc_route_of("/trackhelm/"@ + "stop"@, arg) == Some(OscRoute::Action(RemoteAction::Stop)),
        osc_route_of("/trackhelm/"@ + "stop"@, arg) == Some(OscRoute::Action(RemoteAction::Stop)),
{
    reveal_strlit("/trackhelm/add_marker");
    reveal_strlit("/trackhelm/cut");
    reveal_strlit("/trackhelm/loop");
    reveal_strlit("/trackhelm/marker/add");
    reveal_strlit("/trackhelm/marker/next");
    reveal_strlit("/trackhelm/marker/prev");
    reveal_strlit("/trackhelm/next_marker");
    reveal_strlit("/trackhelm/next_track");
    reveal_strlit("/trackhelm/pause");
    reveal_strlit("/trackhelm/pitch");
    reveal_strlit("/trackhelm/pitch/dec");
    reveal_strlit("/trackhelm/pitch/down");
    reveal_strlit("/trackhelm/pitch/inc");
    reveal_strlit("/trackhelm/pitch/up");
    reveal_strlit("/trackhelm/play");
    reveal_strlit("/trackhelm/play_pause");
    reveal_strlit("/trackhelm/playpause");
    reveal_strlit("/trackhelm/prev_marker");
    reveal_strlit("/trackhelm/prev_track");
    reveal_strlit("/trackhelm/rewind");
    reveal_strlit("/trackhelm/speed");
    reveal_strlit("/trackhelm/speed/dec");
    reveal_strlit("/trackhelm/speed/down");
    reveal_strlit("/trackhelm/speed/inc");
    reveal_strlit("/trackhelm/speed/up");
    reveal_strlit("/trackhelm/stop");
    reveal_strlit("/trackhelm/toggle_cut");
    reveal_strlit("/trackhelm/toggle_loop");
    reveal_strlit("/trackhelm/track/next");
    reveal_strlit("/trackhelm/track/prev");
    reveal_strlit("/trackhelm/volume");
    reveal_strlit("/trackhelm/volume/dec");
    reveal_strlit("/trackhelm/volume/down");
    reveal_strlit("/trackhelm/volume/inc");
    reveal_strlit("/trackhelm/volume/up");
    reveal_strlit("/trackhelm/");
    reveal_strlit("stop");
    assert("/trackhelm/"@ + "stop"@ =~= "/trackhelm/stop"@);
    reveal_strlit("stop");
    assert("/trackhelm/"@ + "stop"@ =~= "/trackhelm/stop"@);
    assert("/trackhelm/stop"@[11] != "/trackhelm/loop"@[11]);
    assert("/trackhelm/stop"@[11] != "/trackhelm/play"@[11]);
    assert("/trackhelm/stop"@[11] != "/trackhelm/loop"@[11]);
    assert("/trackhelm/stop"@[11] != "/trackhelm/play"@[11]);
}

#[verifier::rlimit(40)]
proof fn lemma_osc_rewind(arg: Option<OscArg>)
    ensures
        osc_route_of("/trackhelm/"@ + "rewind"@, arg) == Some(OscRoute::Action(RemoteAction::Rewind)),
        osc_route_of("/trackhelm/"@ + "rewind"@, arg) == Some(OscRoute::Action(RemoteAction::Rewind)),
{
    reveal_strlit("/trackhelm/add_marker");
    reveal_strlit("/trackhelm/cut");
    reveal_strlit("/trackhelm/loop");
    reveal_strlit("/trackhelm/marker/add");
    reveal_strlit("/trackhelm/marker/next");
    reveal_strlit("/trackhelm/marker/prev");
    reveal_strlit("/trackhelm/next_marker");
    reveal_strlit("/trackhelm/next_track");
    reveal_strlit("/trackhelm/pause");
    reveal_strlit("/trackhelm/pitch");
    reveal_strlit("/trackhelm/pitch/dec");
    reveal_strlit("/trackhelm/pitch/down");
    reveal_strlit("/trackhelm/pitch/inc");
    reveal_strlit("/trackhelm/pitch/up");
    reveal_strlit("/trackhelm/play");
    reveal_strlit("/trackhelm/play_pause");
    reveal_strlit("/trackhelm/playpause");
    reveal_strlit("/trackhelm/prev_marker");
    reveal_strlit("/trackhelm/prev_track");
    reveal_strlit("/trackhelm/rewind");
    reveal_strlit("/trackhelm/speed");
    reveal_strlit("/trackhelm/speed/dec");
    reveal_strlit("/trackhelm/speed/down");
    reveal_strlit("/trackhelm/speed/inc");
    reveal_strlit("/trackhelm/speed/up");
    reveal_strlit("/trackhelm/stop");
    reveal_strlit("/trackhelm/toggle_cut");
    reveal_strlit("/trackhelm/toggle_loop");
    reveal_strlit("/trackhelm/track/next");
    reveal_strlit("/trackhelm/track/prev");
    reveal_strlit("/trackhelm/volume");
    reveal_strlit("/trackhelm/volume/dec");
    reveal_strlit("/trackhelm/volume/down");
    reveal_strlit("/trackhelm/volume/inc");
    reveal_strlit("/trackhelm/volume/up");
    reveal_strlit("/trackhelm/");
    reveal_strlit("rewind");
    assert("/trackhelm/"@ + "rewind"@ =~= "/trackhelm/rewind"@);
    reveal_strlit("rewind");
    assert("/trackhelm/"@ + "rewind"@ =~= "/trackhelm/rewind"@);
    assert("/trackhelm/rewind"@[11] != "/trackhelm/volume"@[11]);
    assert("/trackhelm/rewind"@[11] != "/trackhelm/volume"@[11]);
}

#[verifier::rlimit(40)]
proof fn lemma_osc_next_track(arg: Option<OscArg>)
    ensures
        osc_route_of("/trackhelm/"@ + "track/next"@, arg) == Some(OscRoute::Action(RemoteAction::NextTrack)),
        osc_route_of("/trackhelm/"@ + "next_track"@, arg) == Some(OscRoute::Action(RemoteAction::NextTrack)),
{
    reveal_strlit("/trackhelm/add_marker");
    reveal_strlit("/trackhelm/cut");
    reveal_strlit("/trackhelm/loop");
    reveal_strlit("/trackhelm/marker/add");
    reveal_strlit("/trackhelm/marker/next");
    reveal_strlit("/trackhelm/marker/prev");
    reveal_strlit("/trackhelm/next_marker");
    reveal_strlit("/trackhelm/next_track");
    reveal_strlit("/trackhelm/pause");
    reveal_strlit("/trackhelm/pitch");
    reveal_strlit("/trackhelm/pitch/dec");
    reveal_strlit("/trackhelm/pitch/down");
    reveal_strlit("/trackhelm/pitch/inc");
    reveal_strlit("/trackhelm/pitch/up");
    reveal_strlit("/trackhelm/play");
    reveal_strlit("/trackhelm/play_pause");
    reveal_strlit("/trackhelm/playpause");
    reveal_strlit("/trackhelm/prev_marker");
    reveal_strlit("/trackhelm/prev_track");
    reveal_strlit("/trackhelm/rewind");
    reveal_strlit("/trackhelm/speed");
    reveal_strlit("/trackhelm/speed/dec");
    reveal_strlit("/trackhelm/speed/down");
    reveal_strlit("/trackhelm/speed/inc");
    reveal_strlit("/trackhelm/speed/up");
    reveal_strlit("/trackhelm/stop");
    reveal_strlit("/trackhelm/toggle_cut");
    reveal_strlit("/trackhelm/toggle_loop");
    reveal_strlit("/trackhelm/track/next");
    reveal_strlit("/trackhelm/track/prev");
    reveal_strlit("/trackhelm/volume");
    reveal_strlit("/trackhelm/volume/dec");
    reveal_strlit("/trackhelm/volume/down");
    reveal_strlit("/trackhelm/volume/inc");
    reveal_strlit("/trackhelm/volume/up");
    reveal_strlit("/trackhelm/");
    reveal_strlit("track/next");
    assert("/trackhelm/"@ + "track/next"@ =~= "/trackhelm/track/next"@);
    reveal_strlit("next_track");
    assert("/trackhelm/"@ + "next_track"@ =~= "/trackhelm/next_track"@);
    assert("/trackhelm/track/next"@[11] != "/trackhelm/add_marker"@[11]);
    assert("/trackhelm/track/next"@[11] != "/trackhelm/marker/add"@[11]);
    assert("/trackhelm/track/next"@[11] != "/trackhelm/next_track"@[11]);
    assert("/trackhelm/track/next"@[11] != "/trackhelm/pitch/down"@[11]);
    assert("/trackhelm/track/next"@[11] != "/trackhelm/play_pause"@[11]);
    assert("/trackhelm/track/next"@[11] != "/trackhelm/prev_track"@[11]);
    assert("/trackhelm/track/next"@[11] != "/trackhelm/speed/down"@[11]);
    assert("/trackhelm/track/next"@[12] != "/trackhelm/toggle_cut"@[12]);
    assert("/trackhelm/track/next"@[17] != "/trackhelm/track/prev"@[17]);
    assert("/trackhelm/track/next"@[11] != "/trackhelm/volume/dec"@[11]);
    assert("/trackhelm/track/next"@[11] != "/trackhelm/volume/inc"@[11]);
    assert("/trackhelm/next_track"@[11] != "/trackhelm/add_marker"@[11]);
    assert("/trackhelm/next_track"@[11] != "/trackhelm/marker/add"@[11]);
    assert("/trackhelm/next_track"@[11] != "/trackhelm/pitch/down"@[11]);
    assert("/trackhelm/next_track"@[11] != "/trackhelm/play_pause"@[11]);
    assert("/trackhelm/next_track"@[11] != "/trackhelm/prev_track"@[11]);
    assert("/trackhelm/next_track"@[11] != "/trackhelm/speed/down"@[11]);
    assert("/trackhelm/next_track"@[11] != "/trackhelm/toggle_cut"@[11]);
    assert("/trackhelm/next_track"@[11] != "/trackhelm/track/next"@[11]);
    assert("/trackhelm/next_track"@[11] != "/trackhelm/track/prev"@[11]);
    assert("/trackhelm/next_track"@[11] != "/trackhelm/volume/dec"@[11]);
    assert("/trackhelm/next_track"@[11] != "/trackhelm/volume/inc"@[11]);
}

#[verifier::rlimit(40)]
proof fn lemma_osc_prev_track(arg: Option<OscArg>)
    ensures
        osc_route_of("/trackhelm/"@ + "track/prev"@, arg) == Some(OscRoute::Action(RemoteAction::PrevTrack)),
        osc_route_of("/trackhelm/"@ + "prev_track"@, arg) == Some(OscRoute::Action(RemoteAction::PrevTrack)),
{
    reveal_strlit("/trackhelm/add_marker");
    reveal_strlit("/trackhelm/cut");
    reveal_strlit("/trackhelm/loop");
    reveal_strlit("/trackhelm/marker/add");
    reveal_strlit("/trackhelm/marker/next");
    reveal_strlit("/trackhelm/marker/prev");
    reveal_strlit("/trackhelm/next_marker");
    reveal_strlit("/trackhelm/next_track");
    reveal_strlit("/trackhelm/pause");
    reveal_strlit("/trackhelm/pitch");
    reveal_strlit("/trackhelm/pitch/dec");
    reveal_strlit("/trackhelm/pitch/down");
    reveal_strlit("/trackhelm/pitch/inc");
    reveal_strlit("/trackhelm/pitch/up");
    reveal_strlit("/trackhelm/play");
    reveal_strlit("/trackhelm/play_pause");
    reveal_strlit("/trackhelm/playpause");
    reveal_strlit("/trackhelm/prev_marker");
    reveal_strlit("/trackhelm/prev_track");
    reveal_strlit("/trackhelm/rewind");
    reveal_strlit("/trackhelm/speed");
    reveal_strlit("/trackhelm/speed/dec");
    reveal_strlit("/trackhelm/speed/down");
    reveal_strlit("/trackhelm/speed/inc");
    reveal_strlit("/trackhelm/speed/up");
    reveal_strlit("/trackhelm/stop");
    reveal_strlit("/trackhelm/toggle_cut");
    reveal_strlit("/trackhelm/toggle_loop");
    reveal_strlit("/trackhelm/track/next");
    reveal_strlit("/trackhelm/track/prev");
    reveal_strlit("/trackhelm/volume");
    reveal_strlit("/trackhelm/volume/dec");
    reveal_strlit("/trackhelm/volume/down");
    reveal_strlit("/trackhelm/volume/inc");
    reveal_strlit("/trackhelm/volume/up");
    reveal_strlit("/trackhelm/");
    reveal_strlit("track/prev");
    assert("/trackhelm/"@ + "track/prev"@ =~= "/trackhelm/track/prev"@);
    reveal_strlit("prev_track");
    assert("/trackhelm/"@ + "prev_track"@ =~= "/trackhelm/prev_track"@);
    assert("/trackhelm/track/prev"@[11] != "/trackhelm/add_marker"@[11]);
    assert("/trackhelm/track/prev"@[11] != "/trackhelm/marker/add"@[11]);
    assert("/trackhelm/track/prev"@[11] != "/trackhelm/next_track"@[11]);
    assert("/trackhelm/track/prev"@[11] != "/trackhelm/pitch/down"@[11]);
    assert("/trackhelm/track/prev"@[11] != "/trackhelm/play_pause"@[11]);
    assert("/trackhelm/track/prev"@[11] != "/trackhelm/prev_track"@[11]);
    assert("/trackhelm/track/prev"@[11] != "/trackhelm/speed/down"@[11]);
    assert("/trackhelm/track/prev"@[12] != "/trackhelm/toggle_cut"@[12]);
    assert("/trackhelm/track/prev"@[17] != "/trackhelm/track/next"@[17]);
    assert("/trackhelm/track/prev"@[11] != "/trackhelm/volume/dec"@[11]);
    assert("/trackhelm/track/prev"@[11] != "/trackhelm/volume/inc"@[11]);
    assert("/trackhelm/prev_track"@[11] != "/trackhelm/add_marker"@[11]);
    assert("/trackhelm/prev_track"@[11] != "/trackhelm/marker/add"@[11]);
    assert("/trackhelm/prev_track"@[11] != "/trackhelm/next_track"@[11]);
    assert("/trackhelm/prev_track"@[12] != "/trackhelm/pitch/down"@[12]);
    assert("/trackhelm/prev_track"@[12] != "/trackhelm/play_pause"@[12]);
    assert("/trackhelm/prev_track"@[11] != "/trackhelm/speed/down"@[11]);
    assert("/trackhelm/prev_track"@[11] != "/trackhelm/toggle_cut"@[11]);
    assert("/trackhelm/prev_track"@[11] != "/trackhelm/track/next"@[11]);
    assert("/trackhelm/prev_track"@[11] != "/trackhelm/track/prev"@[11]);
    assert("/trackhelm/prev_track"@[11] != "/trackhelm/volume/dec"@[11]);
    assert("/trackhelm/prev_track"@[11] != "/trackhelm/volume/inc"@[11]);
}

#[verifier::rlimit(40)]
proof fn lemma_osc_next_marker(arg: Option<OscArg>)
    ensures
        osc_route_of("/trackhelm/"@ + "marker/next"@, arg) == Some(OscRoute::Action(RemoteAction::NextMarker)),
        osc_route_of("/trackhelm/"@ + "next_marker"@, arg) == Some(OscRoute::Action(RemoteAction::NextMarker)),
{
    reveal_strlit("/trackhelm/add_marker");
    reveal_strlit("/trackhelm/cut");
    reveal_strlit("/trackhelm/loop");
    reveal_strlit("/trackhelm/marker/add");
    reveal_strlit("/trackhelm/marker/next");
    reveal_strlit("/trackhelm/marker/prev");
    reveal_strlit("/trackhelm/next_marker");
    reveal_strlit("/trackhelm/next_track");
    reveal_strlit("/trackhelm/pause");
    reveal_strlit("/trackhelm/pitch");
    reveal_strlit("/trackhelm/pitch/dec");
    reveal_strlit("/trackhelm/pitch/down");
    reveal_strlit("/trackhelm/pitch/inc");
    reveal_strlit("/trackhelm/pitch/up");
    reveal_strlit("/trackhelm/play");
    reveal_strlit("/trackhelm/play_pause");
    reveal_strlit("/trackhelm/playpause");
    reveal_strlit("/trackhelm/prev_marker");
    reveal_strlit("/trackhelm/prev_track");
    reveal_strlit("/trackhelm/rewind");
    reveal_strlit("/trackhelm/speed");
    reveal_strlit("/trackhelm/speed/dec");
    reveal_strlit("/trackhelm/speed/down");
    reveal_strlit("/trackhelm/speed/inc");
    reveal_strlit("/trackhelm/speed/up");
    reveal_strlit("/trackhelm/stop");
    reveal_strlit("/trackhelm/toggle_cut");
    reveal_strlit("/trackhelm/toggle_loop");
    reveal_strlit("/trackhelm/track/next");
    reveal_strlit("/trackhelm/track/prev");
    reveal_strlit("/trackhelm/volume");
    reveal_strlit("/trackhelm/volume/dec");
    reveal_strlit("/trackhelm/volume/down");
    reveal_strlit("/trackhelm/volume/inc");
    reveal_strlit("/trackhelm/volume/up");
    reveal_strlit("/trackhelm/");
    reveal_strlit("marker/next");
    assert("/trackhelm/"@ + "marker/next"@ =~= "/trackhelm/marker/next"@);
    reveal_strlit("next_marker");
    assert("/trackhelm/"@ + "next_marker"@ =~= "/trackhelm/next_marker"@);
    assert("/trackhelm/marker/next"@[18] != "/trackhelm/marker/prev"@[18]);
    assert("/trackhelm/marker/next"@[11] != "/trackhelm/next_marker"@[11]);
    assert("/trackhelm/marker/next"@[11] != "/trackhelm/prev_marker"@[11]);
    assert("/trackhelm/marker/next"@[11] != "/trackhelm/toggle_loop"@[11]);
    assert("/trackhelm/marker/next"@[11] != "/trackhelm/volume/down"@[11]);
    assert("/trackhelm/next_marker"@[11] != "/trackhelm/marker/next"@[11]);
    assert("/trackhelm/next_marker"@[11] != "/trackhelm/marker/prev"@[11]);
    assert("/trackhelm/next_marker"@[11] != "/trackhelm/prev_marker"@[11]);
    assert("/trackhelm/next_marker"@[11] != "/trackhelm/toggle_loop"@[11]);
    assert("/trackhelm/next_marker"@[11] != "/trackhelm/volume/down"@[11]);
}

#[verifier::rlimit(40)]
proof fn lemma_osc_prev_marker(arg: Option<OscArg>)
    ensures
        osc_route_of("/trackhelm/"@ + "marker/prev"@, arg) == Some(OscRoute::Action(RemoteAction::PrevMarker)),
        osc_route_of("/trackhelm/"@ + "prev_marker"@, arg) == Some(OscRoute::Action(RemoteAction::PrevMarker)),
{
    reveal_strlit("/trackhelm/add_marker");
    reveal_strlit("/trackhelm/cut");
    reveal_strlit("/trackhelm/loop");
    reveal_strlit("/trackhelm/marker/add");
    reveal_strlit("/trackhelm/marker/next");
    reveal_strlit("/trackhelm/marker/prev");
    reveal_strlit("/trackhelm/next_marker");
    reveal_strlit("/trackhelm/next_track");
    reveal_strlit("/trackhelm/pause");
    reveal_strlit("/trackhelm/pitch");
    reveal_strlit("/trackhelm/pitch/dec");
    reveal_strlit("/trackhelm/pitch/down");
    reveal_strlit("/trackhelm/pitch/inc");
    reveal_strlit("/trackhelm/pitch/up");
    reveal_strlit("/trackhelm/play");
    reveal_strlit("/trackhelm/play_pause");
    reveal_strlit("/trackhelm/playpause");
    reveal_strlit("/trackhelm/prev_marker");
    reveal_strlit("/trackhelm/prev_track");
    reveal_strlit("/trackhelm/rewind");
    reveal_strlit("/trackhelm/speed");
    reveal_strlit("/trackhelm/speed/dec");
    reveal_strlit("/trackhelm/speed/down");
    reveal_strlit("/trackhelm/speed/inc");
    reveal_strlit("/trackhelm/speed/up");
    reveal_strlit("/trackhelm/stop");
    reveal_strlit("/trackhelm/toggle_cut");
    reveal_strlit("/trackhelm/toggle_loop");
    reveal_strlit("/trackhelm/track/next");
    reveal_strlit("/trackhelm/track/prev");
    reveal_strlit("/trackhelm/volume");
    reveal_strlit("/trackhelm/volume/dec");
    reveal_strlit("/trackhelm/volume/down");
    reveal_strlit("/trackhelm/volume/inc");
    reveal_strlit("/trackhelm/volume/up");
    reveal_strlit("/trackhelm/");
    reveal_strlit("marker/prev");
    assert("/trackhelm/"@ + "marker/prev"@ =~= "/trackhelm/marker/prev"@);
    reveal_strlit("prev_marker");
    assert("/trackhelm/"@ + "prev_marker"@ =~= "/trackhelm/prev_marker"@);
    assert("/trackhelm/marker/prev"@[18] != "/trackhelm/marker/next"@[18]);
    assert("/trackhelm/marker/prev"@[11] != "/trackhelm/next_marker"@[11]);
    assert("/trackhelm/marker/prev"@[11] != "/trackhelm/prev_marker"@[11]);
    assert("/trackhelm/marker/prev"@[11] != "/trackhelm/toggle_loop"@[11]);
    assert("/trackhelm/marker/prev"@[11] != "/trackhelm/volume/down"@[11]);
    assert("/trackhelm/prev_marker"@[11] != "/trackhelm/marker/next"@[11]);
    assert("/trackhelm/prev_marker"@[11] != "/trackhelm/marker/prev"@[11]);
    assert("/trackhelm/prev_marker"@[11] != "/trackhelm/next_marker"@[11]);
    assert("/trackhelm/prev_marker"@[11] != "/trackhelm/toggle_loop"@[11]);
    assert("/trackhelm/prev_marker"@[11] != "/trackhelm/volume/down"@[11]);
}

#[verifier::rlimit(40)]
proof fn lemma_osc_add_marker(arg: Option<OscArg>)
    ensures
        osc_route_of("/trackhelm/"@ + "marker/add"@, arg) == Some(OscRoute::Action(RemoteAction::AddMarker)),
        osc_route_of("/trackhelm/"@ + "add_marker"@, arg) == Some(OscRoute::Action(RemoteAction::AddMarker)),
{
    reveal_strlit("/trackhelm/add_marker");
    reveal_strlit("/trackhelm/cut");
    reveal_strlit("/trackhelm/loop");
    reveal_strlit("/trackhelm/marker/add");
    reveal_strlit("/trackhelm/marker/next");
    reveal_strlit("/trackhelm/marker/prev");
    reveal_strlit("/trackhelm/next_marker");
    reveal_strlit("/trackhelm/next_track");
    reveal_strlit("/trackhelm/pause");
    reveal_strlit("/trackhelm/pitch");
    reveal_strlit("/trackhelm/pitch/dec");
    reveal_strlit("/trackhelm/pitch/down");
    reveal_strlit("/trackhelm/pitch/inc");
    reveal_strlit("/trackhelm/pitch/up");
    reveal_strlit("/trackhelm/play");
    reveal_strlit("/trackhelm/play_pause");
    reveal_strlit("/trackhelm/playpause");
    reveal_strlit("/trackhelm/prev_marker");
    reveal_strlit("/trackhelm/prev_track");
    reveal_strlit("/trackhelm/rewind");
    reveal_strlit("/trackhelm/speed");
    reveal_strlit("/trackhelm/speed/dec");
    reveal_strlit("/trackhelm/speed/down");
    reveal_strlit("/trackhelm/speed/inc");
    reveal_strlit("/trackhelm/speed/up");
    reveal_strlit("/trackhelm/stop");
    reveal_strlit("/trackhelm/toggle_cut");
    reveal_strlit("/trackhelm/toggle_loop");
    reveal_strlit("/trackhelm/track/next");
    reveal_strlit("/trackhelm/track/prev");
    reveal_strlit("/trackhelm/volume");
    reveal_strlit("/trackhelm/volume/dec");
    reveal_strlit("/trackhelm/volume/down");
    reveal_strlit("/trackhelm/volume/inc");
    reveal_strlit("/trackhelm/volume/up");
    reveal_strlit("/trackhelm/");
    reveal_strlit("marker/add");
    assert("/trackhelm/"@ + "marker/add"@ =~= "/trackhelm/marker/add"@);
    reveal_strlit("add_marker");
    assert("/trackhelm/"@ + "add_marker"@ =~= "/trackhelm/add_marker"@);
    assert("/trackhelm/marker/add"@[11] != "/trackhelm/add_marker"@[11]);
    assert("/trackhelm/marker/add"@[11] != "/trackhelm/next_track"@[11]);
    assert("/trackhelm/marker/add"@[11] != "/trackhelm/pitch/down"@[11]);
    assert("/trackhelm/marker/add"@[11] != "/trackhelm/play_pause"@[11]);
    assert("/trackhelm/marker/add"@[11] != "/trackhelm/prev_track"@[11]);
    assert("/trackhelm/marker/add"@[11] != "/trackhelm/speed/down"@[11]);
    assert("/trackhelm/marker/add"@[11] != "/trackhelm/toggle_cut"@[11]);
    assert("/trackhelm/marker/add"@[11] != "/trackhelm/track/next"@[11]);
    assert("/trackhelm/marker/add"@[11] != "/trackhelm/track/prev"@[11]);
    assert("/trackhelm/marker/add"@[11] != "/trackhelm/volume/dec"@[11]);
    assert("/trackhelm/marker/add"@[11] != "/trackhelm/volume/inc"@[11]);
    assert("/trackhelm/add_marker"@[11] != "/trackhelm/marker/add"@[11]);
    assert("/trackhelm/add_marker"@[11] != "/trackhelm/next_track"@[11]);
    assert("/trackhelm/add_marker"@[11] != "/trackhelm/pitch/down"@[11]);
    assert("/trackhelm/add_marker"@[11] != "/trackhelm/play_pause"@[11]);
    assert("/trackhelm/add_marker"@[11] != "/trackhelm/prev_track"@[11]);
    assert("/trackhelm/add_marker"@[11] != "/trackhelm/speed/down"@[11]);
    assert("/trackhelm/add_marker"@[11] != "/trackhelm/toggle_cut"@[11]);
    assert("/trackhelm/add_marker"@[11] != "/trackhelm/track/next"@[11]);
    assert("/trackhelm/add_marker"@[11] != "/trackhelm/track/prev"@[11]);
    assert("/trackhelm/add_marker"@[11] != "/trackhelm/volume/dec"@[11]);
    assert("/trackhelm/add_marker"@[11] != "/trackhelm/volume/inc"@[11]);
}

#[verifier::rlimit(40)]
proof fn lemma_osc_pitch_up(arg: Option<OscArg>)
    ensures
        osc_route_of("/trackhelm/"@ + "pitch/up"@, arg) == Some(OscRoute::Action(RemoteAction::PitchUp)),
        osc_route_of("/trackhelm/"@ + "pitch/inc"@, arg) == Some(OscRoute::Action(RemoteAction::PitchUp)),
{
    reveal_strlit("/trackhelm/add_marker");
    reveal_strlit("/trackhelm/cut");
    reveal_strlit("/trackhelm/loop");
    reveal_strlit("/trackhelm/marker/add");
    reveal_strlit("/trackhelm/marker/next");
    reveal_strlit("/trackhelm/marker/prev");
    reveal_strlit("/trackhelm/next_marker");
    reveal_strlit("/trackhelm/next_track");
    reveal_strlit("/trackhelm/pause");
    reveal_strlit("/trackhelm/pitch");
    reveal_strlit("/trackhelm/pitch/dec");
    reveal_strlit("/trackhelm/pitch/down");
    reveal_strlit("/trackhelm/pitch/inc");
    reveal_strlit("/trackhelm/pitch/up");
    reveal_strlit("/trackhelm/play");
    reveal_strlit("/trackhelm/play_pause");
    reveal_strlit("/trackhelm/playpause");
    reveal_strlit("/trackhelm/prev_marker");
    reveal_strlit("/trackhelm/prev_track");
    reveal_strlit("/trackhelm/rewind");
    reveal_strlit("/trackhelm/speed");
    reveal_strlit("/trackhelm/speed/dec");
    reveal_strlit("/trackhelm/speed/down");
    reveal_strlit("/trackhelm/speed/inc");
    reveal_strlit("/trackhelm/speed/up");
    reveal_strlit("/trackhelm/stop");
    reveal_strlit("/trackhelm/toggle_cut");
    reveal_strlit("/trackhelm/toggle_loop");
    reveal_strlit("/trackhelm/track/next");
    reveal_strlit("/trackhelm/track/prev");
    reveal_strlit("/trackhelm/volume");
    reveal_strlit("/trackhelm/volume/dec");
    reveal_strlit("/trackhelm/volume/down");
    reveal_strlit("/trackhelm/volume/inc");
    reveal_strlit("/trackhelm/volume/up");
    reveal_strlit("/trackhelm/");
    reveal_strlit("pitch/up");
    assert("/trackhelm/"@ + "pitch/up"@ =~= "/trackhelm/pitch/up"@);
    reveal_strlit("pitch/inc");
    assert("/trackhelm/"@ + "pitch/inc"@ =~= "/trackhelm/pitch/inc"@);
    assert("/trackhelm/pitch/up"@[11] != "/trackhelm/speed/up"@[11]);
    assert("/trackhelm/pitch/inc"@[17] != "/trackhelm/pitch/dec"@[17]);
    assert("/trackhelm/pitch/inc"@[12] != "/trackhelm/playpause"@[12]);
    assert("/trackhelm/pitch/inc"@[11] != "/trackhelm/speed/dec"@[11]);
    assert("/trackhelm/pitch/inc"@[11] != "/trackhelm/speed/inc"@[11]);
    assert("/trackhelm/pitch/inc"@[11] != "/trackhelm/volume/up"@[11]);
}

#[verifier::rlimit(40)]
proof fn lemma_osc_pitch_down(arg: Option<OscArg>)
    ensures
        osc_route_of("/trackhelm/"@ + "pitch/down"@, arg) == Some(OscRoute::Action(RemoteAction::PitchDown)),
        osc_route_of("/trackhelm/"@ + "pitch/dec"@, arg) == Some(OscRoute::Action(RemoteAction::PitchDown)),
{
    reveal_strlit("/trackhelm/add_marker");
    reveal_strlit("/trackhelm/cut");
    reveal_strlit("/trackhelm/loop");
    reveal_strlit("/trackhelm/marker/add");
    reveal_strlit("/trackhelm/marker/next");
    reveal_strlit("/trackhelm/marker/prev");
    reveal_strlit("/trackhelm/next_marker");
    reveal_strlit("/trackhelm/next_track");
    reveal_strlit("/trackhelm/pause");
    reveal_strlit("/trackhelm/pitch");
    reveal_strlit("/trackhelm/pitch/dec");
    reveal_strlit("/trackhelm/pitch/down");
    reveal_strlit("/trackhelm/pitch/inc");
    reveal_strlit("/trackhelm/pitch/up");
    reveal_strlit("/trackhelm/play");
    reveal_strlit("/trackhelm/play_pause");
    reveal_strlit("/trackhelm/playpause");
    reveal_strlit("/trackhelm/prev_marker");
    reveal_strlit("/trackhelm/prev_track");
    reveal_strlit("/trackhelm/rewind");
    reveal_strlit("/trackhelm/speed");
    reveal_strlit("/trackhelm/speed/dec");
    reveal_strlit("/trackhelm/speed/down");
    reveal_strlit("/trackhelm/speed/inc");
    reveal_strlit("/trackhelm/speed/up");
    reveal_strlit("/trackhelm/stop");
    reveal_strlit("/trackhelm/toggle_cut");
    reveal_strlit("/trackhelm/toggle_loop");
    reveal_strlit("/trackhelm/track/next");
    reveal_strlit("/trackhelm/track/prev");
    reveal_strlit("/trackhelm/volume");
    reveal_strlit("/trackhelm/volume/dec");
    reveal_strlit("/trackhelm/volume/down");
    reveal_strlit("/trackhelm/volume/inc");
    reveal_strlit("/trackhelm/volume/up");
    reveal_strlit("/trackhelm/");
    reveal_strlit("pitch/down");
    assert("/trackhelm/"@ + "pitch/down"@ =~= "/trackhelm/pitch/down"@);
    reveal_strlit("pitch/dec");
    assert("/trackhelm/"@ + "pitch/dec"@ =~= "/trackhelm/pitch/dec"@);
    assert("/trackhelm/pitch/down"@[11] != "/trackhelm/add_marker"@[11]);
    assert("/trackhelm/pitch/down"@[11] != "/trackhelm/marker/add"@[11]);
    assert("/trackhelm/pitch/down"@[11] != "/trackhelm/next_track"@[11]);
    assert("/trackhelm/pitch/down"@[12] != "/trackhelm/play_pause"@[12]);
    assert("/trackhelm/pitch/down"@[12] != "/trackhelm/prev_track"@[12]);
    assert("/trackhelm/pitch/down"@[11] != "/trackhelm/speed/down"@[11]);
    assert("/trackhelm/pitch/down"@[11] != "/trackhelm/toggle_cut"@[11]);
    assert("/trackhelm/pitch/down"@[11] != "/trackhelm/track/next"@[11]);
    assert("/trackhelm/pitch/down"@[11] != "/trackhelm/track/prev"@[11]);
    assert("/trackhelm/pitch/down"@[11] != "/trackhelm/volume/dec"@[11]);
    assert("/trackhelm/pitch/down"@[11] != "/trackhelm/volume/inc"@[11]);
    assert("/trackhelm/pitch/dec"@[17] != "/trackhelm/pitch/inc"@[17]);
    assert("/trackhelm/pitch/dec"@[12] != "/trackhelm/playpause"@[12]);
    assert("/trackhelm/pitch/dec"@[11] != "/trackhelm/speed/dec"@[11]);
    assert("/trackhelm/pitch/dec"@[11] != "/trackhelm/speed/inc"@[11]);
    assert("/trackhelm/pitch/dec"@[11] != "/trackhelm/volume/up"@[11]);
}

#[verifier::rlimit(40)]
proof fn lemma_osc_volume_up(arg: Option<OscArg>)
    ensures
        osc_route_of("/trackhelm/"@ + "volume/up"@, arg) == Some(OscRoute::Action(RemoteAction::VolumeUp)),
        osc_route_of("/trackhelm/"@ + "volume/inc"@, arg) == Some(OscRoute::Action(RemoteAction::VolumeUp)),
{
    reveal_strlit("/trackhelm/add_marker");
    reveal_strlit("/trackhelm/cut");
    reveal_strlit("/trackhelm/loop");
    reveal_strlit("/trackhelm/marker/add");
    reveal_strlit("/trackhelm/marker/next");
    reveal_strlit("/trackhelm/marker/prev");
    reveal_strlit("/trackhelm/next_marker");
    reveal_strlit("/trackhelm/next_track");
    reveal_strlit("/trackhelm/pause");
    reveal_strlit("/trackhelm/pitch");
    reveal_strlit("/trackhelm/pitch/dec");
    reveal_strlit("/trackhelm/pitch/down");
    reveal_strlit("/trackhelm/pitch/inc");
    reveal_strlit("/trackhelm/pitch/up");
    reveal_strlit("/trackhelm/play");
    reveal_strlit("/trackhelm/play_pause");
    reveal_strlit("/trackhelm/playpause");
    reveal_strlit("/trackhelm/prev_marker");
    reveal_strlit("/trackhelm/prev_track");
    reveal_strlit("/trackhelm/rewind");
    reveal_strlit("/trackhelm/speed");
    reveal_strlit("/trackhelm/speed/dec");
    reveal_strlit("/trackhelm/speed/down");
    reveal_strlit("/trackhelm/speed/inc");
    reveal_strlit("/trackhelm/speed/up");
    reveal_strlit("/trackhelm/stop");
    reveal_strlit("/trackhelm/toggle_cut");
    reveal_strlit("/trackhelm/toggle_loop");
    reveal_strlit("/trackhelm/track/next");
    reveal_strlit("/trackhelm/track/prev");
    reveal_strlit("/trackhelm/volume");
    reveal_strlit("/trackhelm/volume/dec");
    reveal_strlit("/trackhelm/volume/down");
    reveal_strlit("/trackhelm/volume/inc");
    reveal_strlit("/trackhelm/volume/up");
    reveal_strlit("/trackhelm/");
    reveal_strlit("volume/up");
    assert("/trackhelm/"@ + "volume/up"@ =~= "/trackhelm/volume/up"@);
    reveal_strlit("volume/inc");
    assert("/trackhelm/"@ + "volume/inc"@ =~= "/trackhelm/volume/inc"@);
    assert("/trackhelm/volume/up"@[11] != "/trackhelm/pitch/dec"@[11]);
    assert("/trackhelm/volume/up"@[11] != "/trackhelm/pitch/inc"@[11]);
    assert("/trackhelm/volume/up"@[11] != "/trackhelm/playpause"@[11]);
    assert("/trackhelm/volume/up"@[11] != "/trackhelm/speed/dec"@[11]);
    assert("/trackhelm/volume/up"@[11] != "/trackhelm/speed/inc"@[11]);
    assert("/trackhelm/volume/inc"@[11] != "/trackhelm/add_marker"@[11]);
    assert("/trackhelm/volume/inc"@[11] != "/trackhelm/marker/add"@[11]);
    assert("/trackhelm/volume/inc"@[11] != "/trackhelm/next_track"@[11]);
    assert("/trackhelm/volume/inc"@[11] != "/trackhelm/pitch/down"@[11]);
    assert("/trackhelm/volume/inc"@[11] != "/trackhelm/play_pause"@[11]);
    assert("/trackhelm/volume/inc"@[11] != "/trackhelm/prev_track"@[11]);
    assert("/trackhelm/volume/inc"@[11] != "/trackhelm/speed/down"@[11]);
    assert("/trackhelm/volume/inc"@[11] != "/trackhelm/toggle_cut"@[11]);
    assert("/trackhelm/volume/inc"@[11] != "/trackhelm/track/next"@[11]);
    assert("/trackhelm/volume/inc"@[11] != "/trackhelm/track/prev"@[11]);
    assert("/trackhelm/volume/inc"@[18] != "/trackhelm/volume/dec"@[18]);
}

#[verifier::rlimit(40)]
proof fn lemma_osc_volume_down(arg: Option<OscArg>)
    ensures
        osc_route_of("/trackhelm/"@ + "volume/down"@, arg) == Some(OscRoute::Action(RemoteAction::VolumeDown)),
        osc_route_of("/trackhelm/"@ + "volume/dec"@, arg) == Some(OscRoute::Action(RemoteAction::VolumeDown)),
{
    reveal_strlit("/trackhelm/add_marker");
    reveal_strlit("/trackhelm/cut");
    reveal_strlit("/trackhelm/loop");
    reveal_strlit("/trackhelm/marker/add");
    reveal_strlit("/trackhelm/marker/next");
    reveal_strlit("/trackhelm/marker/prev");
    reveal_strlit("/trackhelm/next_marker");
    reveal_strlit("/trackhelm/next_track");
    reveal_strlit("/trackhelm/pause");
    reveal_strlit("/trackhelm/pitch");
    reveal_strlit("/trackhelm/pitch/dec");
    reveal_strlit("/trackhelm/pitch/down");
    reveal_strlit("/trackhelm/pitch/inc");
    reveal_strlit("/trackhelm/pitch/up");
    reveal_strlit("/trackhelm/play");
    reveal_strlit("/trackhelm/play_pause");
    reveal_strlit("/trackhelm/playpause");
    reveal_strlit("/trackhelm/prev_marker");
    reveal_strlit("/trackhelm/prev_track");
    reveal_strlit("/trackhelm/rewind");
    reveal_strlit("/trackhelm/speed");
    reveal_strlit("/trackhelm/speed/dec");
    reveal_strlit("/trackhelm/speed/down");
    reveal_strlit("/trackhelm/speed/inc");
    reveal_strlit("/trackhelm/speed/up");
    reveal_strlit("/trackhelm/stop");
    reveal_strlit("/trackhelm/toggle_cut");
    reveal_strlit("/trackhelm/toggle_loop");
    reveal_strlit("/trackhelm/track/next");
    reveal_strlit("/trackhelm/track/prev");
    reveal_strlit("/trackhelm/volume");
    reveal_strlit("/trackhelm/volume/dec");
    reveal_strlit("/trackhelm/volume/down");
    reveal_strlit("/trackhelm/volume/inc");
    reveal_strlit("/trackhelm/volume/up");
    reveal_strlit("/trackhelm/");
    reveal_strlit("volume/down");
    assert("/trackhelm/"@ + "volume/down"@ =~= "/trackhelm/volume/down"@);
    reveal_strlit("volume/dec");
    assert("/trackhelm/"@ + "volume/dec"@ =~= "/trackhelm/volume/dec"@);
    assert("/trackhelm/volume/down"@[11] != "/trackhelm/marker/next"@[11]);
    assert("/trackhelm/volume/down"@[11] != "/trackhelm/marker/prev"@[11]);
    assert("/trackhelm/volume/down"@[11] != "/trackhelm/next_marker"@[11]);
    assert("/trackhelm/volume/down"@[11] != "/trackhelm/prev_marker"@[11]);
    assert("/trackhelm/volume/down"@[11] != "/trackhelm/toggle_loop"@[11]);
    assert("/trackhelm/volume/dec"@[11] != "/trackhelm/add_marker"@[11]);
    assert("/trackhelm/volume/dec"@[11] != "/trackhelm/marker/add"@[11]);
    assert("/trackhelm/volume/dec"@[11] != "/trackhelm/next_track"@[11]);
    assert("/trackhelm/volume/dec"@[11] != "/trackhelm/pitch/down"@[11]);
    assert("/trackhelm/volume/dec"@[11] != "/trackhelm/play_pause"@[11]);
    assert("/trackhelm/volume/dec"@[11] != "/trackhelm/prev_track"@[11]);
    assert("/trackhelm/volume/dec"@[11] != "/trackhelm/speed/down"@[11]);
    assert("/trackhelm/volume/dec"@[11] != "/trackhelm/toggle_cut"@[11]);
    assert("/trackhelm/volume/dec"@[11] != "/trackhelm/track/next"@[11]);
    assert("/trackhelm/volume/dec"@[11] != "/trackhelm/track/prev"@[11]);
    assert("/trackhelm/volume/dec"@[18] != "/trackhelm/volume/inc"@[18]);
}

#[verifier::rlimit(40)]
proof fn lemma_osc_speed_up(arg: Option<OscArg>)
    ensures
        osc_route_of("/trackhelm/"@ + "speed/up"@, arg) == Some(OscRoute::Action(RemoteAction::SpeedUp)),
        osc_route_of("/trackhelm/"@ + "speed/inc"@, arg) == Some(OscRoute::Action(RemoteAction::SpeedUp)),
{
    reveal_strlit("/trackhelm/add_marker");
    reveal_strlit("/trackhelm/cut");
    reveal_strlit("/trackhelm/loop");
    reveal_strlit("/trackhelm/marker/add");
    reveal_strlit("/trackhelm/marker/next");
    reveal_strlit("/trackhelm/marker/prev");
    reveal_strlit("/trackhelm/next_marker");
    reveal_strlit("/trackhelm/next_track");
    reveal_strlit("/trackhelm/pause");
    reveal_strlit("/trackhelm/pitch");
    reveal_strlit("/trackhelm/pitch/dec");
    reveal_strlit("/trackhelm/pitch/down");
    reveal_strlit("/trackhelm/pitch/inc");
    reveal_strlit("/trackhelm/pitch/up");
    reveal_strlit("/trackhelm/play");
    reveal_strlit("/trackhelm/play_pause");
    reveal_strlit("/trackhelm/playpause");
    reveal_strlit("/trackhelm/prev_marker");
    reveal_strlit("/trackhelm/prev_track");
    reveal_strlit("/trackhelm/rewind");
    reveal_strlit("/trackhelm/speed");
    reveal_strlit("/trackhelm/speed/dec");
    reveal_strlit("/trackhelm/speed/down");
    reveal_strlit("/trackhelm/speed/inc");
    reveal_strlit("/trackhelm/speed/up");
    reveal_strlit("/trackhelm/stop");
    reveal_strlit("/trackhelm/toggle_cut");
    reveal_strlit("/trackhelm/toggle_loop");
    reveal_strlit("/trackhelm/track/next");
    reveal_strlit("/trackhelm/track/prev");
    reveal_strlit("/trackhelm/volume");
    reveal_strlit("/trackhelm/volume/dec");
    reveal_strlit("/trackhelm/volume/down");
    reveal_strlit("/trackhelm/volume/inc");
    reveal_strlit("/trackhelm/volume/up");
    reveal_strlit("/trackhelm/");
    reveal_strlit("speed/up");
    assert("/trackhelm/"@ + "speed/up"@ =~= "/trackhelm/speed/up"@);
    reveal_strlit("speed/inc");
    assert("/trackhelm/"@ + "speed/inc"@ =~= "/trackhelm/speed/inc"@);
    assert("/trackhelm/speed/up"@[11] != "/trackhelm/pitch/up"@[11]);
    assert("/trackhelm/speed/inc"@[11] != "/trackhelm/pitch/dec"@[11]);
    assert("/trackhelm/speed/inc"@[11] != "/trackhelm/pitch/inc"@[11]);
    assert("/trackhelm/speed/inc"@[11] != "/trackhelm/playpause"@[11]);
    assert("/trackhelm/speed/inc"@[17] != "/trackhelm/speed/dec"@[17]);
    assert("/trackhelm/speed/inc"@[11] != "/trackhelm/volume/up"@[11]);
}

#[verifier::rlimit(40)]
proof fn lemma_osc_speed_down(arg: Option<OscArg>)
    ensures
        osc_route_of("/trackhelm/"@ + "speed/down"@, arg) == Some(OscRoute::Action(RemoteAction::SpeedDown)),
        osc_route_of("/trackhelm/"@ + "speed/dec"@, arg) == Some(OscRoute::Action(RemoteAction::SpeedDown)),
{
    reveal_strlit("/trackhelm/add_marker");
    reveal_strlit("/trackhelm/cut");
    reveal_strlit("/trackhelm/loop");
    reveal_strlit("/trackhelm/marker/add");
    reveal_strlit("/trackhelm/marker/next");
    reveal_strlit("/trackhelm/marker/prev");
    reveal_strlit("/trackhelm/next_marker");
    reveal_strlit("/trackhelm/next_track");
    reveal_strlit("/trackhelm/pause");
    reveal_strlit("/trackhelm/pitch");
    reveal_strlit("/trackhelm/pitch/dec");
    reveal_strlit("/trackhelm/pitch/down");
    reveal_strlit("/trackhelm/pitch/inc");
    reveal_strlit("/trackhelm/pitch/up");
    reveal_strlit("/trackhelm/play");
    reveal_strlit("/trackhelm/play_pause");
    reveal_strlit("/trackhelm/playpause");
    reveal_strlit("/trackhelm/prev_marker");
    reveal_strlit("/trackhelm/prev_track");
    reveal_strlit("/trackhelm/rewind");
    reveal_strlit("/trackhelm/speed");
    reveal_strlit("/trackhelm/speed/dec");
    reveal_strlit("/trackhelm/speed/down");
    reveal_strlit("/trackhelm/speed/inc");
    reveal_strlit("/trackhelm/speed/up");
    reveal_strlit("/trackhelm/stop");
    reveal_strlit("/trackhelm/toggle_cut");
    reveal_strlit("/trackhelm/toggle_loop");
    reveal_strlit("/trackhelm/track/next");
    reveal_strlit("/trackhelm/track/prev");
    reveal_strlit("/trackhelm/volume");
    reveal_strlit("/trackhelm/volume/dec");
    reveal_strlit("/trackhelm/volume/down");
    reveal_strlit("/trackhelm/volume/inc");
    reveal_strlit("/trackhelm/volume/up");
    reveal_strlit("/trackhelm/");
    reveal_strlit("speed/down");
    assert("/trackhelm/"@ + "speed/down"@ =~= "/trackhelm/speed/down"@);
    reveal_strlit("speed/dec");
    assert("/trackhelm/"@ + "speed/dec"@ =~= "/trackhelm/speed/dec"@);
    assert("/trackhelm/speed/down"@[11] != "/trackhelm/add_marker"@[11]);
    assert("/trackhelm/speed/down"@[11] != "/trackhelm/marker/add"@[11]);
    assert("/trackhelm/speed/down"@[11] != "/trackhelm/next_track"@[11]);
    assert("/trackhelm/speed/down"@[11] != "/trackhelm/pitch/down"@[11]);
    assert("/trackhelm/speed/down"@[11] != "/trackhelm/play_pause"@[11]);
    assert("/trackhelm/speed/down"@[11] != "/trackhelm/prev_track"@[11]);
    assert("/trackhelm/speed/down"@[11] != "/trackhelm/toggle_cut"@[11]);
    assert("/trackhelm/speed/down"@[11] != "/trackhelm/track/next"@[11]);
    assert("/trackhelm/speed/down"@[11] != "/trackhelm/track/prev"@[11]);
    assert("/trackhelm/speed/down"@[11] != "/trackhelm/volume/dec"@[11]);
    assert("/trackhelm/speed/down"@[11] != "/trackhelm/volume/inc"@[11]);
    assert("/trackhelm/speed/dec"@[11] != "/trackhelm/pitch/dec"@[11]);
    assert("/trackhelm/speed/dec"@[11] != "/trackhelm/pitch/inc"@[11]);
    assert("/trackhelm/speed/dec"@[11] != "/trackhelm/playpause"@[11]);
    assert("/trackhelm/speed/dec"@[17] != "/trackhelm/speed/inc"@[17]);
    assert("/trackhelm/speed/dec"@[11] != "/trackhelm/volume/up"@[11]);
}

#[verifier::rlimit(40)]
proof fn lemma_osc_toggle_loop(arg: Option<OscArg>)
    ensures
        osc_route_of("/trackhelm/"@ + "loop"@, arg) == Some(OscRoute::Action(RemoteAction::ToggleLoop)),
        osc_route_of("/trackhelm/"@ + "toggle_loop"@, arg) == Some(OscRoute::Action(RemoteAction::ToggleLoop)),
{
    reveal_strlit("/trackhelm/add_marker");
    reveal_strlit("/trackhelm/cut");
    reveal_strlit("/trackhelm/loop");
    reveal_strlit("/trackhelm/marker/add");
    reveal_strlit("/trackhelm/marker/next");
    reveal_strlit("/trackhelm/marker/prev");
    reveal_strlit("/trackhelm/next_marker");
    reveal_strlit("/trackhelm/next_track");
    reveal_strlit("/trackhelm/pause");
    reveal_strlit("/trackhelm/pitch");
    reveal_strlit("/trackhelm/pitch/dec");
    reveal_strlit("/trackhelm/pitch/down");
    reveal_strlit("/trackhelm/pitch/inc");
    reveal_strlit("/trackhelm/pitch/up");
    reveal_strlit("/trackhelm/play");
    reveal_strlit("/trackhelm/play_pause");
    reveal_strlit("/trackhelm/playpause");
    reveal_strlit("/trackhelm/prev_marker");
    reveal_strlit("/trackhelm/prev_track");
    reveal_strlit("/trackhelm/rewind");
    reveal_strlit("/trackhelm/speed");
    reveal_strlit("/trackhelm/speed/dec");
    reveal_strlit("/trackhelm/speed/down");
    reveal_strlit("/trackhelm/speed/inc");
    reveal_strlit("/trackhelm/speed/up");
    reveal_strlit("/trackhelm/stop");
    reveal_strlit("/trackhelm/toggle_cut");
    reveal_strlit("/trackhelm/toggle_loop");
    reveal_strlit("/trackhelm/track/next");
    reveal_strlit("/trackhelm/track/prev");
    reveal_strlit("/trackhelm/volume");
    reveal_strlit("/trackhelm/volume/dec");
    reveal_strlit("/trackhelm/volume/down");
    reveal_strlit("/trackhelm/volume/inc");
    reveal_strlit("/trackhelm/volume/up");
    reveal_strlit("/trackhelm/");
    reveal_strlit("loop");
    assert("/trackhelm/"@ + "loop"@ =~= "/trackhelm/loop"@);
    reveal_strlit("toggle_loop");
    assert("/trackhelm/"@ + "toggle_loop"@ =~= "/trackhelm/toggle_loop"@);
    assert("/trackhelm/loop"@[11] != "/trackhelm/play"@[11]);
    assert("/trackhelm/loop"@[11] != "/trackhelm/stop"@[11]);
    assert("/trackhelm/toggle_loop"@[11] != "/trackhelm/marker/next"@[11]);
    assert("/trackhelm/toggle_loop"@[11] != "/trackhelm/marker/prev"@[11]);
    assert("/trackhelm/toggle_loop"@[11] != "/trackhelm/next_marker"@[11]);
    assert("/trackhelm/toggle_loop"@[11] != "/trackhelm/prev_marker"@[11]);
    assert("/trackhelm/toggle_loop"@[11] != "/trackhelm/volume/down"@[11]);
}

#[verifier::rlimit(40)]
proof fn lemma_osc_toggle_cut(arg: Option<OscArg>)
    ensures
        osc_route_of("/trackhelm/"@ + "cut"@, arg) == Some(OscRoute::Action(RemoteAction::ToggleCut)),
        osc_route_of("/trackhelm/"@ + "toggle_cut"@, arg) == Some(OscRoute::Action(RemoteAction::ToggleCut)),
{
    reveal_strlit("/trackhelm/add_marker");
    reveal_strlit("/trackhelm/cut");
    reveal_strlit("/trackhelm/loop");
    reveal_strlit("/trackhelm/marker/add");
    reveal_strlit("/trackhelm/marker/next");
    reveal_strlit("/trackhelm/marker/prev");
    reveal_strlit("/trackhelm/next_marker");
    reveal_strlit("/trackhelm/next_track");
    reveal_strlit("/trackhelm/pause");
    reveal_strlit("/trackhelm/pitch");
    reveal_strlit("/trackhelm/pitch/dec");
    reveal_strlit("/trackhelm/pitch/down");
    reveal_strlit("/trackhelm/pitch/inc");
    reveal_strlit("/trackhelm/pitch/up");
    reveal_strlit("/trackhelm/play");
    reveal_strlit("/trackhelm/play_pause");
    reveal_strlit("/trackhelm/playpause");
    reveal_strlit("/trackhelm/prev_marker");
    reveal_strlit("/trackhelm/prev_track");
    reveal_strlit("/trackhelm/rewind");
    reveal_strlit("/trackhelm/speed");
    reveal_strlit("/trackhelm/speed/dec");
    reveal_strlit("/trackhelm/speed/down");
    reveal_strlit("/trackhelm/speed/inc");
    reveal_strlit("/trackhelm/speed/up");
    reveal_strlit("/trackhelm/stop");
    reveal_strlit("/trackhelm/toggle_cut");
    reveal_strlit("/trackhelm/toggle_loop");
    reveal_strlit("/trackhelm/track/next");
    reveal_strlit("/trackhelm/track/prev");
    reveal_strlit("/trackhelm/volume");
    reveal_strlit("/trackhelm/volume/dec");
    reveal_strlit("/trackhelm/volume/down");
    reveal_strlit("/trackhelm/volume/inc");
    reveal_strlit("/trackhelm/volume/up");
    reveal_strlit("/trackhelm/");
    reveal_strlit("cut");
    assert("/trackhelm/"@ + "cut"@ =~= "/trackhelm/cut"@);
    reveal_strlit("toggle_cut");
    assert("/trackhelm/"@ + "toggle_cut"@ =~= "/trackhelm/toggle_cut"@);
    assert("/trackhelm/toggle_cut"@[11] != "/trackhelm/add_marker"@[11]);
    assert("/trackhelm/toggle_cut"@[11] != "/trackhelm/marker/add"@[11]);
    assert("/trackhelm/toggle_cut"@[11] != "/trackhelm/next_track"@[11]);
    assert("/trackhelm/toggle_cut"@[11] != "/trackhelm/pitch/down"@[11]);
    assert("/trackhelm/toggle_cut"@[11] != "/trackhelm/play_pause"@[11]);
    assert("/trackhelm/toggle_cut"@[11] != "/trackhelm/prev_track"@[11]);
    assert("/trackhelm/toggle_cut"@[11] != "/trackhelm/speed/down"@[11]);
    assert("/trackhelm/toggle_cut"@[12] != "/trackhelm/track/next"@[12]);
    assert("/trackhelm/toggle_cut"@[12] != "/trackhelm/track/prev"@[12]);
    assert("/trackhelm/toggle_cut"@[11] != "/trackhelm/volume/dec"@[11]);
    assert("/trackhelm/toggle_cut"@[11] != "/trackhelm/volume/inc"@[11]);
}

/// Each OSC address routes to the action it names: `/trackhelm/` followed
/// by what the action acts on and what it does (`marker/prev` is the
/// previous marker, `pitch/up` raises the pitch), by `inc` or `dec` for
/// the level actions, or by the action's own name in the messages to the
/// user interface (`prev_marker`), whatever the message's argument.
pub proof fn law_osc_addresses_name_actions(a: RemoteAction, arg: Option<OscArg>)
    ensures
        osc_route_of("/trackhelm/"@ + osc_path(a), arg) == Some(OscRoute::Action(a)),
        osc_alt_path(a) matches Some(p) ==> osc_route_of("/trackhelm/"@ + p, arg) == Some(OscRoute::Action(a)),
        addressed_by_name(a) ==> osc_route_of("/trackhelm/"@ + action_name(a), arg) == Some(OscRoute::Action(a)),
{
    match a {
        RemoteAction::PlayPause => lemma_osc_play_pause(arg),
        RemoteAction::Play => lemma_osc_play(arg),
        RemoteAction::Pause => lemma_osc_pause(arg),
        RemoteAction::Stop => lemma_osc_stop(arg),
        RemoteAction::Rewind => lemma_osc_rewind(arg),
        RemoteAction::NextTrack => lemma_osc_next_track(arg),
        RemoteAction::PrevTrack => lemma_osc_prev_track(arg),
        RemoteAction::NextMarker => lemma_osc_next_marker(arg),
        RemoteAction::PrevMarker => lemma_osc_prev_marker(arg),
        RemoteAction::AddMarker => lemma_osc_add_marker(arg),
        RemoteAction::PitchUp => lemma_osc_pitch_up(arg),
        RemoteAction::PitchDown => lemma_osc_pitch_down(arg),
        RemoteAction::VolumeUp => lemma_osc_volume_up(arg),
        RemoteAction::VolumeDown => lemma_osc_volume_down(arg),
        RemoteAction::SpeedUp => lemma_osc_speed_up(arg),
        RemoteAction::SpeedDown => lemma_osc_speed_down(arg),
        RemoteAction::ToggleLoop => lemma_osc_toggle_loop(arg),
        RemoteAction::ToggleCut => lemma_osc_toggle_cut(arg),
    }
}

#[verifier::rlimit(40)]
proof fn lemma_osc_set_pitch(arg: Option<OscArg>)
    ensures
        osc_route_of("/trackhelm/"@ + "pitch"@, arg) == (if is_number(arg) { Some(OscRoute::SetPitch(arg->0)) } else { None }),
{
    reveal_strlit("/trackhelm/add_marker");
    reveal_strlit("/trackhelm/cut");
    reveal_strlit("/trackhelm/loop");
    reveal_strlit("/trackhelm/marker/add");
    reveal_strlit("/trackhelm/marker/next");
    reveal_strlit("/trackhelm/marker/prev");
    reveal_strlit("/trackhelm/next_marker");
    reveal_strlit("/trackhelm/next_track");
    reveal_strlit("/trackhelm/pause");
    reveal_strlit("/trackhelm/pitch");
    reveal_strlit("/trackhelm/pitch/dec");
    reveal_strlit("/trackhelm/pitch/down");
    reveal_strlit("/trackhelm/pitch/inc");
    reveal_strlit("/trackhelm/pitch/up");
    reveal_strlit("/trackhelm/play");
    reveal_strlit("/trackhelm/play_pause");
    reveal_strlit("/trackhelm/playpause");
    reveal_strlit("/trackhelm/prev_marker");
    reveal_strlit("/trackhelm/prev_track");
    reveal_strlit("/trackhelm/rewind");
    reveal_strlit("/trackhelm/speed");
    reveal_strlit("/trackhelm/speed/dec");
    reveal_strlit("/trackhelm/speed/down");
    reveal_strlit("/trackhelm/speed/inc");
    reveal_strlit("/trackhelm/speed/up");
    reveal_strlit("/trackhelm/stop");
    reveal_strlit("/trackhelm/toggle_cut");
    reveal_strlit("/trackhelm/toggle_loop");
    reveal_strlit("/trackhelm/track/next");
    reveal_strlit("/trackhelm/track/prev");
    reveal_strlit("/trackhelm/volume");
    reveal_strlit("/trackhelm/volume/dec");
    reveal_strlit("/trackhelm/volume/down");
    reveal_strlit("/trackhelm/volume/inc");
    reveal_strlit("/trackhelm/volume/up");
    reveal_strlit("/trackhelm/");
    reveal_strlit("pitch");
    assert("/trackhelm/"@ + "pitch"@ =~= "/trackhelm/pitch"@);
    assert("/trackhelm/pitch"@[12] != "/trackhelm/pause"@[12]);
    assert("/trackhelm/pitch"@[11] != "/trackhelm/speed"@[11]);
}

#[verifier::rlimit(40)]
proof fn lemma_osc_set_volume(arg: Option<OscArg>)
    ensures
        osc_route_of("/trackhelm/"@ + "volume"@, arg) == (if is_number(arg) { Some(OscRoute::SetVolume(arg->0)) } else { None }),
{
    reveal_strlit("/trackhelm/add_marker");
    reveal_strlit("/trackhelm/cut");
    reveal_strlit("/trackhelm/loop");
    reveal_strlit("/trackhelm/marker/add");
    reveal_strlit("/trackhelm/marker/next");
    reveal_strlit("/trackhelm/marker/prev");
    reveal_strlit("/trackhelm/next_marker");
    reveal_strlit("/trackhelm/next_track");
    reveal_strlit("/trackhelm/pause");
    reveal_strlit("/trackhelm/pitch");
    reveal_strlit("/trackhelm/pitch/dec");
    reveal_strlit("/trackhelm/pitch/down");
    reveal_strlit("/trackhelm/pitch/inc");
    reveal_strlit("/trackhelm/pitch/up");
    reveal_strlit("/trackhelm/play");
    reveal_strlit("/trackhelm/play_pause");
    reveal_strlit("/trackhelm/playpause");
    reveal_strlit("/trackhelm/prev_marker");
    reveal_strlit("/trackhelm/prev_track");
    reveal_strlit("/trackhelm/rewind");
    reveal_strlit("/trackhelm/speed");
    reveal_strlit("/trackhelm/speed/dec");
    reveal_strlit("/trackhelm/speed/down");
    reveal_strlit("/trackhelm/speed/inc");
    reveal_strlit("/trackhelm/speed/up");
    reveal_strlit("/trackhelm/stop");
    reveal_strlit("/trackhelm/toggle_cut");
    reveal_strlit("/trackhelm/toggle_loop");
    reveal_strlit("/trackhelm/track/next");
    reveal_strlit("/trackhelm/track/prev");
    reveal_strlit("/trackhelm/volume");
    reveal_strlit("/trackhelm/volume/dec");
    reveal_strlit("/trackhelm/volume/down");
    reveal_strlit("/trackhelm/volume/inc");
    reveal_strlit("/trackhelm/volume/up");
    reveal_strlit("/trackhelm/");
    reveal_strlit("volume");
    assert("/trackhelm/"@ + "volume"@ =~= "/trackhelm/volume"@);
    assert("/trackhelm/volume"@[11] != "/trackhelm/rewind"@[11]);
}

#[verifier::rlimit(40)]
proof fn lemma_osc_set_speed(arg: Option<OscArg>)
    ensures
        osc_route_of("/trackhelm/"@ + "speed"@, arg) == (if is_float(arg) { Some(OscRoute::SetSpeed(arg->0)) } else { None }),
{
    reveal_strlit("/trackhelm/add_marker");
    reveal_strlit("/trackhelm/cut");
    reveal_strlit("/trackhelm/loop");
    reveal_strlit("/trackhelm/marker/add");
    reveal_strlit("/trackhelm/marker/next");
    reveal_strlit("/trackhelm/marker/prev");
    reveal_strlit("/trackhelm/next_marker");
    reveal_strlit("/trackhelm/next_track");
    reveal_strlit("/trackhelm/pause");
    reveal_strlit("/trackhelm/pitch");
    reveal_strlit("/trackhelm/pitch/dec");
    reveal_strlit("/trackhelm/pitch/down");
    reveal_strlit("/trackhelm/pitch/inc");
    reveal_strlit("/trackhelm/pitch/up");
    reveal_strlit("/trackhelm/play");
    reveal_strlit("/trackhelm/play_pause");
    reveal_strlit("/trackhelm/playpause");
    reveal_strlit("/trackhelm/prev_marker");
    reveal_strlit("/trackhelm/prev_track");
    reveal_strlit("/trackhelm/rewind");
    reveal_strlit("/trackhelm/speed");
    reveal_strlit("/trackhelm/speed/dec");
    reveal_strlit("/trackhelm/speed/down");
    reveal_strlit("/trackhelm/speed/inc");
    reveal_strlit("/trackhelm/speed/up");
    reveal_strlit("/trackhelm/stop");
    reveal_strlit("/trackhelm/toggle_cut");
    reveal_strlit("/trackhelm/toggle_loop");
    reveal_strlit("/trackhelm/track/next");
    reveal_strlit("/trackhelm/track/prev");
    reveal_strlit("/trackhelm/volume");
    reveal_strlit("/trackhelm/volume/dec");
    reveal_strlit("/trackhelm/volume/down");
    reveal_strlit("/trackhelm/volume/inc");
    reveal_strlit("/trackhelm/volume/up");
    reveal_strlit("/trackhelm/");
    reveal_strlit("speed");
    assert("/trackhelm/"@ + "speed"@ =~= "/trackhelm/speed"@);
    assert("/trackhelm/speed"@[11] != "/trackhelm/pause"@[11]);
    assert("/trackhelm/speed"@[11] != "/trackhelm/pitch"@[11]);
}

/// The value addresses set the level their name says to the message's
/// argument: `/trackhelm/pitch` (semitones) and `/trackhelm/volume` (dB)
/// take a float or an integer, `/trackhelm/speed` only a float; without
/// such an argument the message is ignored.
pub proof fn law_osc_value_addresses(arg: Option<OscArg>)
    ensures
        osc_route_of("/trackhelm/"@ + "pitch"@, arg) == (if (arg matches Some(OscArg::Float { .. }) || arg matches Some(OscArg::Int { .. })) { Some(OscRoute::SetPitch(arg->0)) } else { None }),
        osc_route_of("/trackhelm/"@ + "volume"@, arg) == (if (arg matches Some(OscArg::Float { .. }) || arg matches Some(OscArg::Int { .. })) { Some(OscRoute::SetVolume(arg->0)) } else { None }),
        osc_route_of("/trackhelm/"@ + "speed"@, arg) == (if arg matches Some(OscArg::Float { .. }) { Some(OscRoute::SetSpeed(arg->0)) } else { None }),
{
    lemma_osc_set_pitch(arg);
    lemma_osc_set_volume(arg);
    lemma_osc_set_speed(arg);
}

/// Every route comes from an address that names it: an action only from
/// `/trackhelm/` followed by its path, its second path or its name, and a
/// value setting only from its own address, carrying the message's
/// argument; every other address is ignored.
#[verifier::rlimit(60)]
pub proof fn law_osc_routes_come_from_names(addr: Seq<char>, arg: Option<OscArg>)
    ensures
        osc_route_of(addr, arg) matches Some(OscRoute::Action(a)) ==> {
            ||| addr == "/trackhelm/"@ + osc_path(a)
            ||| osc_alt_path(a) matches Some(p) && addr == "/trackhelm/"@ + p
            ||| addressed_by_name(a) && addr == "/trackhelm/"@ + action_name(a)
        },
        osc_route_of(addr, arg) matches Some(OscRoute::SetPitch(x)) ==> addr == "/trackhelm/"@ + "pitch"@ && arg == Some(x),
        osc_route_of(addr, arg) matches Some(OscRoute::SetVolume(x)) ==> addr == "/trackhelm/"@ + "volume"@ && arg == Some(x),
        osc_route_of(addr, arg) matches Some(OscRoute::SetSpeed(x)) ==> addr == "/trackhelm/"@ + "speed"@ && arg == Some(x),
{
    reveal_strlit("/trackhelm/");
    reveal_strlit("/trackhelm/add_marker");
    reveal_strlit("add_marker");
    assert("/trackhelm/"@ + "add_marker"@ =~= "/trackhelm/add_marker"@);
    reveal_strlit("/trackhelm/cut");
    reveal_strlit("cut");
    assert("/trackhelm/"@ + "cut"@ =~= "/trackhelm/cut"@);
    reveal_strlit("/trackhelm/loop");
    reveal_strlit("loop");
    assert("/trackhelm/"@ + "loop"@ =~= "/trackhelm/loop"@);
    reveal_strlit("/trackhelm/marker/add");
    reveal_strlit("marker/add");
    assert("/trackhelm/"@ + "marker/add"@ =~= "/trackhelm/marker/add"@);
    reveal_strlit("/trackhelm/marker/next");
    reveal_strlit("marker/next");
    assert("/trackhelm/"@ + "marker/next"@ =~= "/trackhelm/marker/next"@);
    reveal_strlit("/trackhelm/marker/prev");
    reveal_strlit("marker/prev");
    assert("/trackhelm/"@ + "marker/prev"@ =~= "/trackhelm/marker/prev"@);
    reveal_strlit("/trackhelm/next_marker");
    reveal_strlit("next_marker");
    assert("/trackhelm/"@ + "next_marker"@ =~= "/trackhelm/next_marker"@);
    reveal_strlit("/trackhelm/next_track");
    reveal_strlit("next_track");
    assert("/trackhelm/"@ + "next_track"@ =~= "/trackhelm/next_track"@);
    reveal_strlit("/trackhelm/pause");
    reveal_strlit("pause");
    assert("/trackhelm/"@ + "pause"@ =~= "/trackhelm/pause"@);
    reveal_strlit("/trackhelm/pitch");
    reveal_strlit("pitch");
    assert("/trackhelm/"@ + "pitch"@ =~= "/trackhelm/pitch"@);
    reveal_strlit("/trackhelm/pitch/dec");
    reveal_strlit("pitch/dec");
    assert("/trackhelm/"@ + "pitch/dec"@ =~= "/trackhelm/pitch/dec"@);
    reveal_strlit("/trackhelm/pitch/down");
    reveal_strlit("pitch/down");
    assert("/trackhelm/"@ + "pitch/down"@ =~= "/trackhelm/pitch/down"@);
    reveal_strlit("/trackhelm/pitch/inc");
    reveal_strlit("pitch/inc");
    assert("/trackhelm/"@ + "pitch/inc"@ =~= "/trackhelm/pitch/inc"@);
    reveal_strlit("/trackhelm/pitch/up");
    reveal_strlit("pitch/up");
    assert("/trackhelm/"@ + "pitch/up"@ =~= "/trackhelm/pitch/up"@);
    reveal_strlit("/trackhelm/play");
    reveal_strlit("play");
    assert("/trackhelm/"@ + "play"@ =~= "/trackhelm/play"@);
    reveal_strlit("/trackhelm/play_pause");
    reveal_strlit("play_pause");
    assert("/trackhelm/"@ + "play_pause"@ =~= "/trackhelm/play_pause"@);
    reveal_strlit("/trackhelm/playpause");
    reveal_strlit("playpause");
    assert("/trackhelm/"@ + "playpause"@ =~= "/trackhelm/playpause"@);
    reveal_strlit("/trackhelm/prev_marker");
    reveal_strlit("prev_marker");
    assert("/trackhelm/"@ + "prev_marker"@ =~= "/trackhelm/prev_marker"@);
    reveal_strlit("/trackhelm/prev_track");
    reveal_strlit("prev_track");
    assert("/trackhelm/"@ + "prev_track"@ =~= "/trackhelm/prev_track"@);
    reveal_strlit("/trackhelm/rewind");
    reveal_strlit("rewind");
    assert("/trackhelm/"@ + "rewind"@ =~= "/trackhelm/rewind"@);
    reveal_strlit("/trackhelm/speed");
    reveal_strlit("speed");
    assert("/trackhelm/"@ + "speed"@ =~= "/trackhelm/speed"@);
    reveal_strlit("/trackhelm/speed/dec");
    reveal_strlit("speed/dec");
    assert("/trackhelm/"@ + "speed/dec"@ =~= "/trackhelm/speed/dec"@);
    reveal_strlit("/trackhelm/speed/down");
    reveal_strlit("speed/down");
    assert("/trackhelm/"@ + "speed/down"@ =~= "/trackhelm/speed/down"@);
    reveal_strlit("/trackhelm/speed/inc");
    reveal_strlit("speed/inc");
    assert("/trackhelm/"@ + "speed/inc"@ =~= "/trackhelm/speed/inc"@);
    reveal_strlit("/trackhelm/speed/up");
    reveal_strlit("speed/up");
    assert("/trackhelm/"@ + "speed/up"@ =~= "/trackhelm/speed/up"@);
    reveal_strlit("/trackhelm/stop");
    reveal_strlit("stop");
    assert("/trackhelm/"@ + "stop"@ =~= "/trackhelm/stop"@);
    reveal_strlit("/trackhelm/toggle_cut");
    reveal_strlit("toggle_cut");
    assert("/trackhelm/"@ + "toggle_cut"@ =~= "/trackhelm/toggle_cut"@);
    reveal_strlit("/trackhelm/toggle_loop");
    reveal_strlit("toggle_loop");
    assert("/trackhelm/"@ + "toggle_loop"@ =~= "/trackhelm/toggle_loop"@);
    reveal_strlit("/trackhelm/track/next");
    reveal_strlit("track/next");
    assert("/trackhelm/"@ + "track/next"@ =~= "/trackhelm/track/next"@);
    reveal_strlit("/trackhelm/track/prev");
    reveal_strlit("track/prev");
    assert("/trackhelm/"@ + "track/prev"@ =~= "/trackhelm/track/prev"@);
    reveal_strlit("/trackhelm/volume");
    reveal_strlit("volume");
    assert("/trackhelm/"@ + "volume"@ =~= "/trackhelm/volume"@);
    reveal_strlit("/trackhelm/volume/dec");
    reveal_strlit("volume/dec");
    assert("/trackhelm/"@ + "volume/dec"@ =~= "/trackhelm/volume/dec"@);
    reveal_strlit("/trackhelm/volume/down");
    reveal_strlit("volume/down");
    assert("/trackhelm/"@ + "volume/down"@ =~= "/trackhelm/volume/down"@);
    reveal_strlit("/trackhelm/volume/inc");
    reveal_strlit("volume/inc");
    assert("/trackhelm/"@ + "volume/inc"@ =~= "/trackhelm/volume/inc"@);
    reveal_strlit("/trackhelm/volume/up");
    reveal_strlit("volume/up");
    assert("/trackhelm/"@ + "volume/up"@ =~= "/trackhelm/volume/up"@);
}

/// Decides what an OSC message asks for.
pub fn route_osc_message(m: &OscMessage) -> (r: Option<OscRoute>)
    ensures
        r == osc_route_of(m.addr@, m.first_arg),
{
    let a = chars_of(m.addr.as_str());
    let addr = a.as_slice();
    if equals_literal(addr, "/trackhelm/playpause") || equals_literal(addr, "/trackhelm/play_pause") {
        Some(OscRoute::Action(RemoteAction::PlayPause))
    } else if equals_literal(addr, "/trackhelm/play") {
        Some(OscRoute::Action(RemoteAction::Play))
    } else if equals_literal(addr, "/trackhelm/pause") {
        Some(OscRoute::Action(RemoteAction::Pause))
    } else if equals_literal(addr, "/trackhelm/stop") {
        Some(OscRoute::Action(RemoteAction::Stop))
    } else if equals_literal(addr, "/trackhelm/rewind") {
        Some(OscRoute::Action(RemoteAction::Rewind))
    } else if equals_literal(addr, "/trackhelm/track/next") || equals_literal(addr, "/trackhelm/next_track") {
        Some(OscRoute::Action(RemoteAction::NextTrack))
    } else if equals_literal(addr, "/trackhelm/track/prev") || equals_literal(addr, "/trackhelm/prev_track") {
        Some(OscRoute::Action(RemoteAction::PrevTrack))
    } else if equals_literal(addr, "/trackhelm/marker/next") || equals_literal(addr, "/trackhelm/next_marker") {
        Some(OscRoute::Action(RemoteAction::NextMarker))
    } else if equals_literal(addr, "/trackhelm/marker/prev") || equals_literal(addr, "/trackhelm/prev_marker") {
        Some(OscRoute::Action(RemoteAction::PrevMarker))
    } else if equals_literal(addr, "/trackhelm/marker/add") || equals_literal(addr, "/trackhelm/add_marker") {
        Some(OscRoute::Action(RemoteAction::AddMarker))
    } else if equals_literal(addr, "/trackhelm/pitch/inc") || equals_literal(addr, "/trackhelm/pitch/up") {
        Some(OscRoute::Action(RemoteAction::PitchUp))
    } else if equals_literal(addr, "/trackhelm/pitch/dec") || equals_literal(addr, "/trackhelm/pitch/down") {
        Some(OscRoute::Action(RemoteAction::PitchDown))
    } else if equals_literal(addr, "/trackhelm/pitch") {
        match m.first_arg {
            Some(OscArg::Float { bits }) => Some(OscRoute::SetPitch(OscArg::Float { bits })),
            Some(OscArg::Int { value }) => Some(OscRoute::SetPitch(OscArg::Int { value })),
            _ => None,
        }
    } else if equals_literal(addr, "/trackhelm/volume/inc") || equals_literal(addr, "/trackhelm/volume/up") {
        Some(OscRoute::Action(RemoteAction::VolumeUp))
    } else if equals_literal(addr, "/trackhelm/volume/dec") || equals_literal(addr, "/trackhelm/volume/down") {
        Some(OscRoute::Action(RemoteAction::VolumeDown))
    } else if equals_literal(addr, "/trackhelm/volume") {
        match m.first_arg {
            Some(OscArg::Float { bits }) => Some(OscRoute::SetVolume(OscArg::Float { bits })),
            Some(OscArg::Int { value }) => Some(OscRoute::SetVolume(OscArg::Int { value })),
            _ => None,
        }
    } else if equals_literal(addr, "/trackhelm/speed/inc") || equals_literal(addr, "/trackhelm/speed/up") {
        Some(OscRoute::Action(RemoteAction::SpeedUp))
    } else if equals_literal(addr, "/trackhelm/speed/dec") || equals_literal(addr, "/trackhelm/speed/down") {
        Some(OscRoute::Action(RemoteAction::SpeedDown))
    } else if equals_literal(addr, "/trackhelm/speed") {
        match m.first_arg {
            Some(OscArg::Float { bits }) => Some(OscRoute::SetSpeed(OscArg::Float { bits })),
            _ => None,
        }
    } else if equals_literal(addr, "/trackhelm/loop") || equals_literal(addr, "/trackhelm/toggle_loop") {
        Some(OscRoute::Action(RemoteAction::ToggleLoop))
    } else if equals_literal(addr, "/trackhelm/cut") || equals_literal(addr, "/trackhelm/toggle_cut") {
        Some(OscRoute::Action(RemoteAction::ToggleCut))
    } else {
        None
    }
}

/// The routes of every message in a packet, bundles read depth first in
/// order, ignored messages left out.
pub open spec fn packet_routes(p: OscNode) -> Seq<OscRoute>
    decreases p,
{
    match p {
        OscNode::Message(m) => match osc_route_of(m.addr@, m.first_arg) {
            Some(r) => seq![r],
            None => Seq::empty(),
        },
        OscNode::Bundle(v) => packets_routes(v@),
    }
}

/// The routes of a sequence of packets, one after the other.
pub open spec fn packets_routes(s: Seq<OscNode>) -> Seq<OscRoute>
    decreases s,
{
    if s.len() == 0 {
        Seq::empty()
    } else {
        packets_routes(s.drop_last()) + packet_routes(s.last())
    }
}

/// Collects what every message of an OSC packet asks for, in order.
pub fn osc_packet_routes(p: &OscNode) -> (r: Vec<OscRoute>)
    ensures
        r@ == packet_routes(*p),
    decreases p,
{
    match p {
        OscNode::Message(m) => {
            let mut r: Vec<OscRoute> = Vec::new();
            match route_osc_message(m) {
                Some(x) => {
                    r.push(x);
                    assert(r@ =~= seq![x]);
                },
                None => {
                    assert(r@ =~= Seq::<OscRoute>::empty());
                },
            }
            r
        },
        OscNode::Bundle(v) => {
            let mut r: Vec<OscRoute> = Vec::new();
            let mut i: usize = 0;
            while i < v.len()
                invariant
                    *p == OscNode::Bundle(*v),
                    i <= v@.len(),
                    r@ == packets_routes(v@.take(i as int)),
                decreases v@.len() - i,
            {
                proof {
                    assert(*p == OscNode::Bundle(*v));
                    assert(decreases_to!(*p => (*p)->Bundle_0));
                    assert(decreases_to!(*v => v@));
                    assert(decreases_to!(v@ => v@[i as int]));
                }
                let mut sub = osc_packet_routes(&v[i]);
                assert(v@.take(i + 1).drop_last() =~= v@.take(i as int));
                r.append(&mut sub);
                i = i + 1;
            }
            assert(v@.take(v@.len() as int) =~= v@);
            r
        },
    }
}

#[verifier::external_type_specification]
#[verifier::external_body]
pub struct ExOscPacket(rosc::OscPacket);

/// The packet `rosc::decoder::decode_udp` reads from a UDP datagram, in the
/// library's terms, or `None` where it rejects the bytes.  Bytes after the
/// first packet are ignored.
pub uninterp spec fn osc_decoded(bytes: Seq<u8>) -> Option<OscNode>;

/// Rewrites a packet decoded by `rosc` in the library's terms, one node
/// for one: a message keeps its address and its first argument (a float
/// by its bits, an integer as it is, any other type as `Other`); a bundle
/// keeps its packets in order.  Only `decode_osc_datagram` calls it.
#[verifier::external_body]
fn osc_tree(p: rosc::OscPacket) -> OscNode {
    match p {
        rosc::OscPacket::Message(m) => OscNode::Message(OscMessage {
            first_arg: match m.args.first() {
                Some(rosc::OscType::Float(v)) => Some(OscArg::Float { bits: v.to_bits() }),
                Some(rosc::OscType::Int(v)) => Some(OscArg::Int { value: *v }),
                Some(_) => Some(OscArg::Other),
                None => None,
            },
            addr: m.addr,
        }),
        rosc::OscPacket::Bundle(b) => OscNode::Bundle(b.content.into_iter().map(osc_tree).collect()),
    }
}

/// Decodes a UDP datagram with `rosc::decoder::decode_udp`, which parses
/// the bytes alone; the contract names the packet it yields.
#[verifier::external_body]
fn decode_osc_datagram(bytes: &[u8]) -> (r: Option<OscNode>)
    ensures
        r == osc_decoded(bytes@),
{
    rosc::decoder::decode_udp(bytes).ok().map(|(_, p)| osc_tree(p))
}

/// What an OSC datagram received by the player asks for: the routes of the
/// packet it holds, in order, or none where it holds no valid packet.
pub fn osc_datagram_routes(bytes: &[u8]) -> (r: Vec<OscRoute>)
    ensures
        r@ == match osc_decoded(bytes@) {
            Some(p) => packet_routes(p),
            None => Seq::empty(),
        },
{
    match decode_osc_datagram(bytes) {
        Some(p) => osc_packet_routes(&p),
        None => {
            let r: Vec<OscRoute> = Vec::new();
            assert(r@ =~= Seq::<OscRoute>::empty());
            r
        },
    }
}

/// The text a remote client sends over the WebSocket becomes the JSON
/// text handed to the user interface: trimmed, and wrapped as an action
/// unless it already is a JSON object.
pub open spec fn websocket_text_json(text: Seq<char>) -> Seq<char> {
    let t = trimmed(text);
    if has_prefix(t, seq!['{']) {
        t
    } else {
        "{\"action\":\""@ + t + "\"}"@
    }
}

/// Turns the text of a WebSocket message into the JSON text handed to the
/// user interface.
pub fn websocket_payload(text: &str) -> (s: String)
    ensures
        s@ == websocket_text_json(text@),
{
    let chars = chars_of(text);
    let t = trim(chars.as_slice());
    if t.len() > 0 && t[0] == '{' {
        assert(t@.take(1) =~= seq!['{']);
        string_from_chars(t.as_slice())
    } else {
        let mut v: Vec<char> = Vec::new();
        push_str(&mut v, "{\"action\":\"");
        push_chars(&mut v, t.as_slice());
        push_str(&mut v, "\"}");
        proof {
            if has_prefix(t@, seq!['{']) {
                assert(t@.take(1)[0] == '{');
            }
        }
        string_from_chars(v.as_slice())
    }
}

} // verus!
