use vstd::prelude::*;
use crate::text::{
    chars_of, decimal, parse_usize, parsed_usize, push_decimal, push_str, string_from_chars,
};
use crate::devices::{find_named, first_named};

verus! {

/// A MIDI message the player reacts to.
#[derive(Clone, Copy, Debug, PartialEq, Eq, Structural)]
pub enum MidiEvent {
    NoteOn { note: u8, velocity: u8 },
    ControlChange { controller: u8, value: u8 },
    ProgramChange { program: u8 },
}

/// The event carried by the raw bytes of a MIDI message, if the player
/// reacts to it: a note-on with non-zero velocity, a control change or a
/// program change, on any channel, with enough data bytes.
pub open spec fn midi_event_of(msg: Seq<u8>) -> Option<MidiEvent> {
    if msg.len() == 0 {
        None
    } else {
        let status = msg[0] & 0xF0u8;
        if status == 0x90u8 && msg.len() >= 3 && msg[2] > 0 {
            Some(MidiEvent::NoteOn { note: msg[1], velocity: msg[2] })
        } else if status == 0xB0u8 && msg.len() >= 3 {
            Some(MidiEvent::ControlChange { controller: msg[1], value: msg[2] })
        } else if status == 0xC0u8 && msg.len() >= 2 {
            Some(MidiEvent::ProgramChange { program: msg[1] })
        } else {
            None
        }
    }
}

/// Reads a MIDI message.
pub fn parse_midi_message(msg: &[u8]) -> (r: Option<MidiEvent>)
    ensures
        r == midi_event_of(msg@),
{
    if msg.len() == 0 {
        return None;
    }
    let status = msg[0] & 0xF0;
    if status == 0x90 {
        if msg.len() >= 3 && msg[2] > 0 {
            return Some(MidiEvent::NoteOn { note: msg[1], velocity: msg[2] });
        }
        None
    } else if status == 0xB0 {
        if msg.len() >= 3 {
            return Some(MidiEvent::ControlChange { controller: msg[1], value: msg[2] });
        }
        None
    } else if status == 0xC0 {
        if msg.len() >= 2 {
            return Some(MidiEvent::ProgramChange { program: msg[1] });
        }
        None
    } else {
        None
    }
}

/// The JSON text sent to the user interface for an event.
pub open spec fn midi_event_json(e: MidiEvent) -> Seq<char> {
    match e {
        MidiEvent::NoteOn { note, velocity } =>
            "{\"type\":\"note_on\",\"note\":"@ + decimal(note as nat) + ",\"velocity\":"@
                + decimal(velocity as nat) + "}"@,
        MidiEvent::ControlChange { controller, value } =>
            "{\"type\":\"cc\",\"cc\":"@ + decimal(controller as nat) + ",\"value\":"@
                + decimal(value as nat) + "}"@,
        MidiEvent::ProgramChange { program } =>
            "{\"type\":\"program_change\",\"program\":"@ + decimal(program as nat) + "}"@,
    }
}

/// Writes the JSON text of an event.
pub fn midi_event_payload(e: MidiEvent) -> (s: String)
    ensures
        s@ == midi_event_json(e),
{
    let mut v: Vec<char> = Vec::new();
    match e {
        MidiEvent::NoteOn { note, velocity } => {
            push_str(&mut v, "{\"type\":\"note_on\",\"note\":");
            push_decimal(&mut v, note as u64);
            push_str(&mut v, ",\"velocity\":");
            push_decimal(&mut v, velocity as u64);
            push_str(&mut v, "}");
        },
        MidiEvent::ControlChange { controller, value } => {
            push_str(&mut v, "{\"type\":\"cc\",\"cc\":");
            push_decimal(&mut v, controller as u64);
            push_str(&mut v, ",\"value\":");
            push_decimal(&mut v, value as u64);
            push_str(&mut v, "}");
        },
        MidiEvent::ProgramChange { program } => {
            push_str(&mut v, "{\"type\":\"program_change\",\"program\":");
            push_decimal(&mut v, program as u64);
            push_str(&mut v, "}");
        },
    }
    string_from_chars(v.as_slice())
}

/// Reads a MIDI message and, when the player reacts to it, gives the JSON
/// text to hand to the user interface.
pub fn midi_payload(msg: &[u8]) -> (r: Option<String>)
    ensures
        match midi_event_of(msg@) {
            Some(e) => r matches Some(s) && s@ == midi_event_json(e),
            None => r is None,
        },
{
    match parse_midi_message(msg) {
        Some(e) => Some(midi_event_payload(e)),
        None => None,
    }
}

/// The port a user's choice designates: a decimal number is taken as a port
/// index (and designates nothing when too large), anything else as a port
/// name, matching the first port of that name.
pub open spec fn chosen_port(choice: Seq<char>, names: Seq<Option<String>>) -> Option<int> {
    match parsed_usize(choice) {
        Some(i) => if i < names.len() { Some(i as int) } else { None },
        None => first_named(names, choice),
    }
}

/// Finds the MIDI input port a user chose by index or by name; `names`
/// holds the name of each port, or `None` where it could not be read.
pub fn select_midi_port(choice: &str, names: &[Option<String>]) -> (r: Option<usize>)
    ensures
        match r {
            Some(k) => chosen_port(choice@, names@) == Some(k as int),
            None => chosen_port(choice@, names@) is None,
        },
{
    let c = chars_of(choice);
    match parse_usize(c.as_slice()) {
        Some(i) => if i < names.len() { Some(i) } else { None },
        None => find_named(names, choice),
    }
}

/// The channel of a message does not matter: messages that differ only in
/// the low four bits of their status byte carry the same event.
pub proof fn law_midi_channel_ignored(msg: Seq<u8>, channel: u8)
    requires
        msg.len() > 0,
        channel < 16,
    ensures
        midi_event_of(msg.update(0, (msg[0] & 0xF0u8) | channel)) == midi_event_of(msg),
{
    let b = msg[0];
    assert((((b & 0xF0u8) | channel) & 0xF0u8) == (b & 0xF0u8)) by (bit_vector)
        requires channel < 16;
}

} // verus!
