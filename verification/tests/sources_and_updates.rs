use trackhelm::library::{dropbox_accounts, root_drive_label, volume_label};
use trackhelm::playlist::{item_location, item_name, parse_m3u, write_m3u, M3uItem};
use trackhelm::splice::{splice_plan, CutRegion, SpliceOp};
use trackhelm::transport::{Transport, TransportCommand};
use trackhelm::updates::{
    settings_after_load, update_kind, EngineCommandKind, LastOfEach, VoiceSettings, COMPRESSOR_UPDATE, ENVELOPE_UPDATE, EQ_UPDATE,
    PITCH_UPDATE, REGIONS_UPDATE, TEMPO_UPDATE, UPDATE_KINDS,
};

#[test]
fn dropbox_accounts_from_info_json() {
    let text = r#"{"personal": {"path": "/Users/a/Dropbox"}, "team": {"path": "/Users/a/Team"}, "business": {"host": 5}}"#;
    assert_eq!(
        dropbox_accounts(text),
        vec![
            ("Dropbox (Personal)".to_string(), "/Users/a/Dropbox".to_string()),
            ("Dropbox (team)".to_string(), "/Users/a/Team".to_string()),
        ]
    );
    let text = r#"{"business": {"path": "D:\\Work"}}"#;
    assert_eq!(dropbox_accounts(text), vec![("Dropbox (Business)".to_string(), "D:\\Work".to_string())]);
    assert_eq!(dropbox_accounts("[1, 2]"), vec![]);
    assert_eq!(dropbox_accounts("not json"), vec![]);
    assert_eq!(dropbox_accounts(r#"{"personal": {"path": 3}}"#), vec![]);
}

#[test]
fn unix_drive_names() {
    assert_eq!(root_drive_label(true), "Macintosh HD (/)");
    assert_eq!(root_drive_label(false), "Root (/)");
    assert_eq!(volume_label("Backup", false), Some("Backup (Volume)".to_string()));
    assert_eq!(volume_label(".timemachine", false), None);
    assert_eq!(volume_label("Macintosh HD", true), None);
}

#[test]
fn playlist_items_resolved() {
    assert_eq!(item_location("/abs/a.wav".to_string(), true, "/lists/abs/a.wav".to_string()), "/abs/a.wav");
    assert_eq!(item_location("a.wav".to_string(), false, "/lists/a.wav".to_string()), "/lists/a.wav");
    assert_eq!(item_name(Some("Intro".to_string()), Some("a.wav".to_string()), "/lists/a.wav"), "Intro");
    assert_eq!(item_name(None, Some("a.wav".to_string()), "/lists/a.wav"), "a.wav");
    assert_eq!(item_name(None, None, "/"), "/");
}

#[test]
fn absolute_items_read_back() {
    let items = vec![M3uItem { name: "Song".to_string(), path: "/music/song.flac".to_string(), seconds: 200 }];
    let entries = parse_m3u(&write_m3u(&items));
    let e = &entries[0];
    let location = item_location(e.location.clone(), true, "/elsewhere".to_string());
    assert_eq!(location, "/music/song.flac");
    assert_eq!(item_name(e.name.clone(), Some("song.flac".to_string()), &location), "Song");
}

#[test]
fn last_update_of_each_kind_wins() {
    let mut p: LastOfEach<u32> = LastOfEach::new(3);
    assert_eq!(p.kinds(), 3);
    p.offer(0, 10);
    p.offer(2, 7);
    p.offer(0, 11);
    assert_eq!(p.take(0), Some(11));
    assert_eq!(p.take(0), None);
    assert_eq!(p.take(1), None);
    assert_eq!(p.take(2), Some(7));
}

#[test]
fn exact_cuts_take_every_kept_frame_once() {
    let cuts = [
        CutRegion { enter: 10, leave: 20, start_frame: 10, end_frame: 20, fade: 0 },
        CutRegion { enter: 30, leave: 35, start_frame: 30, end_frame: 35, fade: 4 },
    ];
    let (ops, stalled) = splice_plan(0, 50, 60, &cuts);
    assert!(!stalled);
    assert_eq!(
        ops,
        vec![
            SpliceOp::Copy { from: 0, to: 10 },
            SpliceOp::Copy { from: 20, to: 30 },
            SpliceOp::Crossfade { at: 16, from: 35, frames: 4 },
            SpliceOp::Copy { from: 39, to: 50 },
        ]
    );
}

#[test]
fn commands_gather_by_kind() {
    assert_eq!(update_kind(EngineCommandKind::SetPitch), Some(PITCH_UPDATE));
    assert_eq!(update_kind(EngineCommandKind::SetTempo), Some(TEMPO_UPDATE));
    assert_eq!(update_kind(EngineCommandKind::SetEq), Some(EQ_UPDATE));
    assert_eq!(update_kind(EngineCommandKind::SetEqBands), Some(EQ_UPDATE));
    assert_eq!(update_kind(EngineCommandKind::SetCompressor), Some(COMPRESSOR_UPDATE));
    assert_eq!(update_kind(EngineCommandKind::SetDualCompressor), Some(COMPRESSOR_UPDATE));
    assert_eq!(update_kind(EngineCommandKind::SetRegions), Some(REGIONS_UPDATE));
    assert_eq!(update_kind(EngineCommandKind::SetVolumeEnvelope), Some(ENVELOPE_UPDATE));
    assert_eq!(UPDATE_KINDS, 6);
    for k in [
        EngineCommandKind::Play,
        EngineCommandKind::Pause,
        EngineCommandKind::Stop,
        EngineCommandKind::StopBackgroundTracks,
        EngineCommandKind::Seek,
        EngineCommandKind::SetVolume,
        EngineCommandKind::LoadAudio,
    ] {
        assert_eq!(update_kind(k), None);
    }
}

#[test]
fn a_moved_voice_leaves_fresh_settings() {
    let current = VoiceSettings { stretch_channels: 1, active_biquads: 3, eq_active: true, envelope_nodes: 4, regions: 2 };
    assert_eq!(
        settings_after_load(true, current, 2),
        VoiceSettings { stretch_channels: 2, active_biquads: 0, eq_active: false, envelope_nodes: 0, regions: 0 }
    );
    assert_eq!(settings_after_load(false, current, 2), current);
}

#[test]
fn stop_then_play_and_pause_stays_at_start() {
    let mut t = Transport::new();
    t.apply(TransportCommand::Load { total_frames: 500 });
    t.apply(TransportCommand::Seek { target_frame: 300 });
    for c in [TransportCommand::Stop, TransportCommand::Play, TransportCommand::Pause, TransportCommand::Play] {
        t.apply(c);
    }
    assert_eq!(t.playback_frame, 0);
    assert!(t.is_playing);
}
