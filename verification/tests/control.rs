use trackhelm::midi::{midi_payload, parse_midi_message, select_midi_port, MidiEvent};
use trackhelm::remote::{
    action_payload, osc_datagram_routes, osc_packet_routes, route_osc_message, websocket_payload, OscArg, OscMessage, OscNode,
    OscRoute, RemoteAction,
};

#[test]
fn midi_messages() {
    assert_eq!(parse_midi_message(&[0x91, 60, 100]), Some(MidiEvent::NoteOn { note: 60, velocity: 100 }));
    assert_eq!(parse_midi_message(&[0x90, 60, 0]), None);
    assert_eq!(parse_midi_message(&[0x90, 60]), None);
    assert_eq!(parse_midi_message(&[0xB3, 7, 127]), Some(MidiEvent::ControlChange { controller: 7, value: 127 }));
    assert_eq!(parse_midi_message(&[0xC0, 5]), Some(MidiEvent::ProgramChange { program: 5 }));
    assert_eq!(parse_midi_message(&[0xC0]), None);
    assert_eq!(parse_midi_message(&[0x80, 60, 10]), None);
    assert_eq!(parse_midi_message(&[]), None);
}

#[test]
fn midi_channel_does_not_matter() {
    for ch in 0u8..16 {
        assert_eq!(parse_midi_message(&[0x90 | ch, 64, 90]), parse_midi_message(&[0x90, 64, 90]));
        assert_eq!(parse_midi_message(&[0xB0 | ch, 10, 3]), parse_midi_message(&[0xB0, 10, 3]));
        assert_eq!(parse_midi_message(&[0xC0 | ch, 9]), parse_midi_message(&[0xC0, 9]));
    }
}

#[test]
fn midi_payloads() {
    assert_eq!(midi_payload(&[0x90, 60, 100]).unwrap(), r#"{"type":"note_on","note":60,"velocity":100}"#);
    assert_eq!(midi_payload(&[0xB0, 1, 0]).unwrap(), r#"{"type":"cc","cc":1,"value":0}"#);
    assert_eq!(midi_payload(&[0xC2, 12]).unwrap(), r#"{"type":"program_change","program":12}"#);
    assert_eq!(midi_payload(&[0xF8]), None);
}

#[test]
fn midi_port_choice() {
    let names = vec![Some("IAC Bus".to_string()), None, Some("Launchpad".to_string())];
    assert_eq!(select_midi_port("2", &names), Some(2));
    assert_eq!(select_midi_port("+0", &names), Some(0));
    assert_eq!(select_midi_port("3", &names), None);
    assert_eq!(select_midi_port("Launchpad", &names), Some(2));
    assert_eq!(select_midi_port("Unknown", &names), None);
    assert_eq!(select_midi_port("-1", &names), None);
    assert_eq!(select_midi_port("99999999999999999999999", &names), None);
}

fn msg(addr: &str, arg: Option<OscArg>) -> OscMessage {
    OscMessage { addr: addr.to_string(), first_arg: arg }
}

#[test]
fn osc_routes() {
    assert_eq!(route_osc_message(&msg("/trackhelm/play_pause", None)), Some(OscRoute::Action(RemoteAction::PlayPause)));
    assert_eq!(route_osc_message(&msg("/trackhelm/playpause", None)), Some(OscRoute::Action(RemoteAction::PlayPause)));
    assert_eq!(route_osc_message(&msg("/trackhelm/track/next", None)), Some(OscRoute::Action(RemoteAction::NextTrack)));
    assert_eq!(route_osc_message(&msg("/trackhelm/cut", None)), Some(OscRoute::Action(RemoteAction::ToggleCut)));
    let f = OscArg::Float { bits: 2.5f32.to_bits() };
    assert_eq!(route_osc_message(&msg("/trackhelm/pitch", Some(f))), Some(OscRoute::SetPitch(f)));
    assert_eq!(
        route_osc_message(&msg("/trackhelm/volume", Some(OscArg::Int { value: -6 }))),
        Some(OscRoute::SetVolume(OscArg::Int { value: -6 }))
    );
    assert_eq!(route_osc_message(&msg("/trackhelm/speed", Some(OscArg::Int { value: 1 }))), None);
    assert_eq!(route_osc_message(&msg("/trackhelm/speed", Some(f))), Some(OscRoute::SetSpeed(f)));
    assert_eq!(route_osc_message(&msg("/trackhelm/pitch", None)), None);
    assert_eq!(route_osc_message(&msg("/other", None)), None);
}

#[test]
fn osc_bundles_in_order() {
    let p = OscNode::Bundle(vec![
        OscNode::Message(msg("/trackhelm/play", None)),
        OscNode::Bundle(vec![
            OscNode::Message(msg("/nothing", None)),
            OscNode::Message(msg("/trackhelm/stop", None)),
        ]),
        OscNode::Message(msg("/trackhelm/loop", None)),
    ]);
    assert_eq!(
        osc_packet_routes(&p),
        vec![
            OscRoute::Action(RemoteAction::Play),
            OscRoute::Action(RemoteAction::Stop),
            OscRoute::Action(RemoteAction::ToggleLoop),
        ]
    );
}

#[test]
fn action_payloads() {
    assert_eq!(action_payload(RemoteAction::NextMarker), r#"{"action":"next_marker"}"#);
    assert_eq!(action_payload(RemoteAction::VolumeDown), r#"{"action":"volume_down"}"#);
}

#[test]
fn websocket_texts() {
    assert_eq!(websocket_payload("  play_pause \n"), r#"{"action":"play_pause"}"#);
    assert_eq!(websocket_payload(r#" {"action":"stop"} "#), r#"{"action":"stop"}"#);
    assert_eq!(websocket_payload(""), r#"{"action":""}"#);
}

fn datagram(packet: &rosc::OscPacket) -> Vec<u8> {
    rosc::encoder::encode(packet).unwrap()
}

fn rosc_message(addr: &str, args: Vec<rosc::OscType>) -> rosc::OscPacket {
    rosc::OscPacket::Message(rosc::OscMessage { addr: addr.to_string(), args })
}

#[test]
fn osc_datagrams() {
    assert_eq!(
        osc_datagram_routes(&datagram(&rosc_message("/trackhelm/play", vec![]))),
        vec![OscRoute::Action(RemoteAction::Play)]
    );
    assert_eq!(
        osc_datagram_routes(&datagram(&rosc_message("/trackhelm/pitch", vec![rosc::OscType::Float(-1.5)]))),
        vec![OscRoute::SetPitch(OscArg::Float { bits: (-1.5f32).to_bits() })]
    );
    assert_eq!(
        osc_datagram_routes(&datagram(&rosc_message("/trackhelm/volume", vec![rosc::OscType::Int(3), rosc::OscType::Float(9.0)]))),
        vec![OscRoute::SetVolume(OscArg::Int { value: 3 })]
    );
    assert_eq!(osc_datagram_routes(&datagram(&rosc_message("/trackhelm/speed", vec![rosc::OscType::Int(2)]))), vec![]);
    let bundle = rosc::OscPacket::Bundle(rosc::OscBundle {
        timetag: rosc::OscTime { seconds: 0, fractional: 1 },
        content: vec![
            rosc_message("/trackhelm/stop", vec![]),
            rosc::OscPacket::Bundle(rosc::OscBundle {
                timetag: rosc::OscTime { seconds: 0, fractional: 1 },
                content: vec![rosc_message("/trackhelm/marker/add", vec![])],
            }),
            rosc_message("/trackhelm/play", vec![rosc::OscType::String("x".to_string())]),
        ],
    });
    assert_eq!(
        osc_datagram_routes(&datagram(&bundle)),
        vec![
            OscRoute::Action(RemoteAction::Stop),
            OscRoute::Action(RemoteAction::AddMarker),
            OscRoute::Action(RemoteAction::Play),
        ]
    );
    assert_eq!(osc_datagram_routes(b"not an osc packet"), vec![]);
    assert_eq!(osc_datagram_routes(&[]), vec![]);
}
