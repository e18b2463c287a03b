use trackhelm::frames::{block_plan, fixed_prefix, peak_chunk, raw_sample_range, waveform_range, BlockPlan, MAX_BUFFER_FRAMES};
use trackhelm::transport::{region_jump, PlayRegion, select_bands, BandChoice, Transport, TransportCommand};

#[test]
fn transport_commands() {
    let mut t = Transport::new();
    let e = t.apply(TransportCommand::Load { total_frames: 1000 });
    assert!(e.reset_processing);
    assert!(!e.move_active_to_background);
    t.apply(TransportCommand::Play);
    assert!(t.is_playing);
    let e = t.apply(TransportCommand::Seek { target_frame: 5000 });
    assert!(e.reset_stretch);
    assert_eq!(t.playback_frame, 1000);
    t.apply(TransportCommand::Seek { target_frame: 400 });
    assert_eq!(t.playback_frame, 400);
    let e = t.apply(TransportCommand::Load { total_frames: 50 });
    assert!(e.move_active_to_background);
    assert!(t.is_playing);
    assert_eq!(t.playback_frame, 0);
    assert_eq!(t.active_len, Some(50));
    let e = t.apply(TransportCommand::Stop);
    assert!(e.clear_background && e.reset_processing);
    assert!(!t.is_playing);
    assert_eq!(t.playback_frame, 0);
}

#[test]
fn seek_without_track_does_nothing() {
    let mut t = Transport::new();
    let e = t.apply(TransportCommand::Seek { target_frame: 10 });
    assert!(!e.reset_stretch);
    assert_eq!(t.playback_frame, 0);
}

#[test]
fn finishing_blocks() {
    let mut t = Transport::new();
    t.apply(TransportCommand::Load { total_frames: 100 });
    t.apply(TransportCommand::Play);
    assert!(!t.finish_block(60, 0));
    assert!(t.is_playing);
    assert!(t.finish_block(100, 1));
    assert!(t.is_playing);
    assert!(t.finish_block(100, 0));
    assert!(!t.is_playing);
}

#[test]
fn band_selection() {
    let b = |e, g| BandChoice { enabled: e, audible_gain: g };
    let bands = vec![b(true, true), b(false, true), b(true, false), b(true, true), b(true, true)];
    assert_eq!(select_bands(&bands, 5, 16), vec![0, 3, 4]);
    assert_eq!(select_bands(&bands, 4, 16), vec![0, 3]);
    assert_eq!(select_bands(&bands, 5, 2), vec![0, 3]);
    assert_eq!(select_bands(&bands, 99, 16), vec![0, 3, 4]);
}

#[test]
fn peak_chunks() {
    assert_eq!(peak_chunk(10, 5, 0), Some((0, 2)));
    assert_eq!(peak_chunk(10, 5, 4), Some((8, 10)));
    assert_eq!(peak_chunk(11, 5, 4), Some((8, 10)));
    assert_eq!(peak_chunk(3, 5, 2), Some((2, 3)));
    assert_eq!(peak_chunk(3, 5, 3), None);
}

#[test]
fn sample_windows() {
    assert_eq!(waveform_range(100, 10, 50), Some((10, 50)));
    assert_eq!(waveform_range(100, 90, 500), Some((90, 100)));
    assert_eq!(waveform_range(100, 50, 50), None);
    assert_eq!(waveform_range(100, 200, 300), None);
    assert_eq!(raw_sample_range(100, 95, 10), Some((95, 100)));
    assert_eq!(raw_sample_range(100, 5, 0), None);
}

#[test]
fn block_plans() {
    assert_eq!(
        block_plan(0, 100000, 512, 1024),
        BlockPlan { out_frames: 512, in_frames: 1024, next_frame: 1024, ended: false }
    );
    assert_eq!(
        block_plan(99000, 100000, 40000, 40000),
        BlockPlan { out_frames: MAX_BUFFER_FRAMES, in_frames: MAX_BUFFER_FRAMES, next_frame: 99000 + MAX_BUFFER_FRAMES, ended: true }
    );
    assert!(block_plan(100000, 100000, 512, 512).ended);
}

#[test]
fn fixed_tables() {
    let (v, n) = fixed_prefix(&[1, 2, 3], 0, 5);
    assert_eq!(v, vec![1, 2, 3, 0, 0]);
    assert_eq!(n, 3);
    let (v, n) = fixed_prefix(&[1, 2, 3], 0, 2);
    assert_eq!(v, vec![1, 2]);
    assert_eq!(n, 2);
}

#[test]
fn region_jumps() {
    let cut = PlayRegion { is_loop: false, is_cut: true, enter: 100, leave: 200, start_frame: 99, end_frame: 199 };
    let lp = PlayRegion { is_loop: true, is_cut: false, enter: 10, leave: 500, start_frame: 10, end_frame: 500 };
    let regions = [cut, lp];
    assert_eq!(region_jump(&regions, 150), Some(199));
    assert_eq!(region_jump(&regions, 99), None);
    assert_eq!(region_jump(&regions, 200), None);
    assert_eq!(region_jump(&regions, 500), Some(10));
    assert_eq!(region_jump(&regions, 9999), Some(10));
    let both = PlayRegion { is_loop: true, is_cut: true, enter: 0, leave: 50, start_frame: 0, end_frame: 49 };
    assert_eq!(region_jump(&[both, cut], 20), Some(49));
    assert_eq!(region_jump(&[both, cut], 60), Some(0));
    assert_eq!(region_jump(&[], 60), None);
}

#[test]
fn pause_then_play_resumes() {
    let mut t = Transport::new();
    t.apply(TransportCommand::Load { total_frames: 900 });
    t.apply(TransportCommand::Play);
    t.apply(TransportCommand::Seek { target_frame: 321 });
    let e = t.apply(TransportCommand::Pause);
    assert!(!e.reset_processing && !e.reset_stretch && !e.clear_background && !e.move_active_to_background);
    assert_eq!((t.is_playing, t.playback_frame, t.active_len), (false, 321, Some(900)));
    t.apply(TransportCommand::Play);
    assert_eq!((t.is_playing, t.playback_frame, t.active_len), (true, 321, Some(900)));
}
