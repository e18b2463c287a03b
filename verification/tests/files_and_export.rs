use trackhelm::devices::{device_item, pick_output_device};
use trackhelm::export::{bit_depth_from_name, export_frame_range, wav_format, ExportError, WavSampleFormat};
use trackhelm::kinds::{EnvelopeCurve, ExportBitDepth};
use trackhelm::playlist::{is_json_playlist, parse_m3u, playlist_format, write_m3u, M3uItem, PlaylistFormat};
use trackhelm::splice::{splice_plan, CutRegion, SpliceOp};

#[test]
fn envelope_curve_default_is_linear() {
    assert_eq!(EnvelopeCurve::default(), EnvelopeCurve::Linear);
}

#[test]
fn bit_depth_names() {
    assert_eq!(bit_depth_from_name("int16"), ExportBitDepth::Int16);
    assert_eq!(bit_depth_from_name("16"), ExportBitDepth::Int16);
    assert_eq!(bit_depth_from_name("INT24"), ExportBitDepth::Int24);
    assert_eq!(bit_depth_from_name("Float32"), ExportBitDepth::Float32);
    assert_eq!(bit_depth_from_name("32"), ExportBitDepth::Float32);
    assert_eq!(bit_depth_from_name("8"), ExportBitDepth::Int24);
    assert_eq!(wav_format(ExportBitDepth::Int16), (16, WavSampleFormat::Int));
    assert_eq!(wav_format(ExportBitDepth::Int24), (24, WavSampleFormat::Int));
    assert_eq!(wav_format(ExportBitDepth::Float32), (32, WavSampleFormat::Float));
}

#[test]
fn export_ranges() {
    assert_eq!(export_frame_range(0, None, None), Err(ExportError::EmptySource));
    assert_eq!(export_frame_range(100, None, None), Ok((0, 100)));
    assert_eq!(export_frame_range(100, Some(10), Some(500)), Ok((10, 100)));
    assert_eq!(export_frame_range(100, Some(60), Some(50)), Err(ExportError::EmptyRange));
    assert_eq!(export_frame_range(100, Some(200), None), Err(ExportError::EmptyRange));
    assert_eq!(ExportError::EmptySource.message(), "Audio track contains no samples to export");
    assert_eq!(
        ExportError::EmptyRange.message(),
        "Invalid export range: start frame is greater than or equal to end frame"
    );
    assert_eq!(ExportError::AllCut.message(), "No audio frames remained after applying cut regions");
}

fn cut(enter: usize, leave: usize, fade: usize) -> CutRegion {
    CutRegion { enter, leave, start_frame: enter, end_frame: leave, fade }
}

#[test]
fn splice_without_cuts() {
    assert_eq!(splice_plan(10, 90, 100, &[]), (vec![SpliceOp::Copy { from: 10, to: 90 }], false));
}

#[test]
fn splice_skips_cut_regions() {
    let (ops, stalled) = splice_plan(0, 100, 100, &[cut(20, 30, 0), cut(60, 70, 0)]);
    assert!(!stalled);
    assert_eq!(
        ops,
        vec![
            SpliceOp::Copy { from: 0, to: 20 },
            SpliceOp::Copy { from: 30, to: 60 },
            SpliceOp::Copy { from: 70, to: 100 },
        ]
    );
}

#[test]
fn splice_crossfades_when_room() {
    let (ops, stalled) = splice_plan(0, 100, 100, &[cut(20, 30, 5)]);
    assert!(!stalled);
    assert_eq!(
        ops,
        vec![
            SpliceOp::Copy { from: 0, to: 20 },
            SpliceOp::Crossfade { at: 15, from: 30, frames: 5 },
            SpliceOp::Copy { from: 35, to: 100 },
        ]
    );
    // no crossfade at the very start: nothing to fade out of
    let (ops, _) = splice_plan(0, 100, 100, &[cut(0, 10, 5)]);
    assert_eq!(ops, vec![SpliceOp::Copy { from: 10, to: 100 }]);
}

#[test]
fn splice_stops_inside_region_with_rounded_down_end() {
    // region ends between frames 29 and 30: its rounded-down end is 29
    let c = CutRegion { enter: 20, leave: 30, start_frame: 20, end_frame: 29, fade: 0 };
    let (ops, stalled) = splice_plan(0, 100, 100, &[c]);
    assert_eq!(ops, vec![SpliceOp::Copy { from: 0, to: 20 }]);
    assert!(stalled);
}

#[test]
fn playlist_formats() {
    assert_eq!(playlist_format("M3U"), Ok(PlaylistFormat::M3u));
    assert_eq!(playlist_format("m3u8"), Ok(PlaylistFormat::M3u));
    assert_eq!(playlist_format("json"), Ok(PlaylistFormat::Json));
    assert_eq!(playlist_format("THSET"), Ok(PlaylistFormat::Json));
    assert_eq!(playlist_format("pls"), Err("Unsupported playlist format: pls".to_string()));
    assert!(is_json_playlist("/a/b/Set.THSET"));
    assert!(is_json_playlist("x.json"));
    assert!(!is_json_playlist("x.m3u"));
}

#[test]
fn m3u_writing() {
    let items = vec![
        M3uItem { name: "Intro".to_string(), path: "/music/intro.wav".to_string(), seconds: 62 },
        M3uItem { name: "Outro".to_string(), path: "outro.mp3".to_string(), seconds: -1 },
    ];
    assert_eq!(
        write_m3u(&items),
        "#EXTM3U\n#EXTINF:62,Intro\n/music/intro.wav\n#EXTINF:-1,Outro\noutro.mp3\n"
    );
    assert_eq!(write_m3u(&[]), "#EXTM3U\n");
}

#[test]
fn m3u_reading() {
    let text = "#EXTM3U\r\n#EXTINF:62, Intro \r\n/music/intro.wav\r\n\n# comment\nplain.mp3\n#EXTINF:abc,Odd, name\n#EXTINF:Only title\n  song.flac  ";
    let items = parse_m3u(text);
    assert_eq!(items.len(), 3);
    assert_eq!(items[0].name.as_deref(), Some("Intro"));
    assert_eq!(items[0].location, "/music/intro.wav");
    assert_eq!(items[0].duration_text.as_deref(), Some("62"));
    assert_eq!(items[1].name, None);
    assert_eq!(items[1].location, "plain.mp3");
    assert_eq!(items[1].duration_text, None);
    assert_eq!(items[2].name.as_deref(), Some("Only title"));
    assert_eq!(items[2].location, "song.flac");
    assert_eq!(items[2].duration_text.as_deref(), Some("abc"));
}

#[test]
fn m3u_written_playlist_reads_back() {
    let items = vec![
        M3uItem { name: "Take, two".to_string(), path: "/music/take 2.wav".to_string(), seconds: 185 },
        M3uItem { name: String::new(), path: "b.mp3".to_string(), seconds: -7 },
    ];
    let entries = parse_m3u(&write_m3u(&items));
    assert_eq!(entries.len(), 2);
    assert_eq!(entries[0].name.as_deref(), Some("Take, two"));
    assert_eq!(entries[0].location, "/music/take 2.wav");
    assert_eq!(entries[0].duration_text.as_deref(), Some("185"));
    assert_eq!(entries[1].name.as_deref(), Some(""));
    assert_eq!(entries[1].location, "b.mp3");
    assert_eq!(entries[1].duration_text.as_deref(), Some("-7"));
}

#[test]
fn output_devices() {
    let names = vec![Some("Speakers".to_string()), None, Some("Headphones".to_string())];
    assert_eq!(pick_output_device(&names, "Headphones", &Some("Headphones".to_string())), Ok((2, true)));
    assert_eq!(pick_output_device(&names, "Speakers", &Some("Headphones".to_string())), Ok((0, false)));
    assert_eq!(
        pick_output_device(&names, "USB", &None),
        Err("Audio device 'USB' not found".to_string())
    );
    let d = device_item("Speakers".to_string(), &Some("Speakers".to_string()), None);
    assert_eq!((d.name.as_str(), d.is_default, d.sample_rate, d.channels), ("Speakers", true, 44100, 2));
    let d = device_item("USB".to_string(), &None, Some((48000, 6)));
    assert_eq!((d.is_default, d.sample_rate, d.channels), (false, 48000, 6));
}
