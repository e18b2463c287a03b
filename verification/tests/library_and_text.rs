use trackhelm::library::{
    cloud_storage_name, display_path, dir_target, hidden_name, drive_listed, drive_name, dropbox_name, keeps_extension, listed,
    mac_file_downloaded, normalize_extension, overview_requested, parent_shown, relative_path, sort_assets,
    sort_folders_by_name, sort_listing, windows_file_downloaded, AssetFileInfo, DirEntry, DirTarget, EntryKind,
    SeenPaths,
};
use trackhelm::separation::{failure_detail_text, finish_separation, report_event, separation_event, ReportFile, SeparationEvent, SeparationResult, StemFile, WorkerReport};
use trackhelm::text::{chars_of, parse_usize, trim};

fn entry(name: &str, is_dir: bool) -> DirEntry {
    DirEntry {
        name: name.to_string(),
        path: format!("/x/{}", name),
        is_dir,
        size_bytes: 0,
        kind: if is_dir { EntryKind::Dir } else { EntryKind::File },
    }
}

#[test]
fn listing_sorted_dirs_first_case_blind() {
    let v = vec![entry("b.wav", false), entry("Zeta", true), entry("A.mp3", false), entry("alpha", true)];
    let names: Vec<String> = sort_listing(v).into_iter().map(|e| e.name).collect();
    assert_eq!(names, vec!["alpha", "Zeta", "A.mp3", "b.wav"]);
}

#[test]
fn sorting_is_stable() {
    let v = vec![entry("Box", false), entry("box", false), entry("BOX", false), entry("a", false)];
    let names: Vec<String> = sort_folders_by_name(v).into_iter().map(|e| e.name).collect();
    assert_eq!(names, vec!["a", "Box", "box", "BOX"]);
}

#[test]
fn assets_sorted_by_name() {
    let f = |n: &str| AssetFileInfo {
        name: n.to_string(),
        path: n.to_string(),
        relative_path: n.to_string(),
        extension: "wav".to_string(),
        size_bytes: 1,
        mtime_ms: 2,
    };
    let names: Vec<String> = sort_assets(vec![f("c.wav"), f("B.wav"), f("a.wav")]).into_iter().map(|e| e.name).collect();
    assert_eq!(names, vec!["a.wav", "B.wav", "c.wav"]);
}

#[test]
fn listing_filters() {
    assert!(listed("Song.WAV", false));
    assert!(listed("take.flac", false));
    assert!(!listed("notes.txt", false));
    assert!(listed("Folder", true));
    assert!(!listed(".hidden", true));
    assert!(!listed(".x.wav", false));
}

#[test]
fn paths() {
    assert_eq!(display_path(r"\\?\C:\Music"), r"C:\Music");
    assert_eq!(display_path("/home/me"), "/home/me");
    assert!(overview_requested("  This PC ", "This Computer"));
    assert!(overview_requested("This Computer", "This Computer"));
    assert!(overview_requested("drives", "This Mac"));
    assert!(!overview_requested("/tmp", "This Mac"));
    assert_eq!(dir_target(None, false), DirTarget::Home);
    assert_eq!(dir_target(Some(" ~ "), false), DirTarget::Home);
    assert_eq!(dir_target(Some("~/Music"), false), DirTarget::UnderHome("Music".to_string()));
    assert_eq!(dir_target(Some(" /tmp "), false), DirTarget::Path("/tmp".to_string()));
    assert_eq!(dir_target(Some(" F: "), true), DirTarget::Path("F:\\".to_string()));
    assert_eq!(dir_target(Some("F:"), false), DirTarget::Path("F:".to_string()));
    assert_eq!(dir_target(Some("F:x"), true), DirTarget::Path("F:x".to_string()));
    assert_eq!(dir_target(Some("é:"), true), DirTarget::Path("é:".to_string()));
    assert_eq!(dir_target(Some("~:"), true), DirTarget::UnderHome("\\".to_string()));
    assert_eq!(parent_shown(Some("C:"), "This PC"), "This PC");
    assert_eq!(parent_shown(Some(""), "This PC"), "This PC");
    assert_eq!(parent_shown(None, "This Mac"), "This Mac");
    assert_eq!(parent_shown(Some("/home"), "This Mac"), "/home");
    assert_eq!(relative_path("", "a.wav"), "a.wav");
    assert_eq!(relative_path("sub/dir", "a.wav"), "sub/dir/a.wav");
}

#[test]
fn extensions() {
    assert_eq!(normalize_extension("..WAV"), "wav");
    assert_eq!(normalize_extension("mp3"), "mp3");
    assert!(keeps_extension("wav", &None));
    assert!(keeps_extension("wav", &Some(vec!["mp3".to_string(), "wav".to_string()])));
    assert!(!keeps_extension("ogg", &Some(vec!["mp3".to_string()])));
}

#[test]
fn cloud_names() {
    assert_eq!(dropbox_name("personal"), "Dropbox (Personal)");
    assert_eq!(dropbox_name("business"), "Dropbox (Business)");
    assert_eq!(dropbox_name("team"), "Dropbox (team)");
    assert_eq!(cloud_storage_name("Dropbox-Personal"), "Dropbox Personal");
    assert_eq!(cloud_storage_name("GoogleDrive-me@x.com"), "Google Drive (me@x.com)");
    assert_eq!(cloud_storage_name("OneDrive-OneDrive-Work"), "OneDrive (Work)");
    assert_eq!(cloud_storage_name("Box-Box"), "Box");
    assert_eq!(cloud_storage_name("iCloud"), "iCloud");
    let mut seen = SeenPaths::new();
    assert!(seen.first_visit("/Users/me/Dropbox"));
    assert!(!seen.first_visit("/users/ME/dropbox"));
    assert!(seen.first_visit("/Users/me/Box"));
}

#[test]
fn drives_and_downloads() {
    assert_eq!(drive_name("Data", 'D', 3), "Data (D:)");
    assert_eq!(drive_name("", 'C', 3), "Local Disk (C:)");
    assert_eq!(drive_name("", 'E', 2), "Removable Disk (E:)");
    assert_eq!(drive_name("", 'Z', 4), "Network Drive (Z:)");
    assert_eq!(drive_name("", 'F', 5), "CD Drive (F:)");
    assert_eq!(drive_name("", 'G', 6), "Drive (G:)");
    assert!(!drive_listed(1, true));
    assert!(!drive_listed(5, false));
    assert!(drive_listed(5, true));
    assert!(drive_listed(3, false));
    assert!(mac_file_downloaded(0, 10, 8));
    assert!(!mac_file_downloaded(0x4000_0000, 10, 8));
    assert!(!mac_file_downloaded(0, 10, 0));
    assert!(mac_file_downloaded(0, 0, 0));
    assert!(windows_file_downloaded(0x20));
    assert!(!windows_file_downloaded(0x1000));
    assert!(!windows_file_downloaded(0x40_0000));
}

#[test]
fn text_helpers() {
    assert_eq!(trim(&chars_of(" \t a b \r\n")), chars_of("a b"));
    assert_eq!(trim(&chars_of("\u{3000}x\u{2028}")), chars_of("x"));
    assert_eq!(parse_usize(&chars_of("42")), Some(42));
    assert_eq!(parse_usize(&chars_of("+7")), Some(7));
    assert_eq!(parse_usize(&chars_of("+")), None);
    assert_eq!(parse_usize(&chars_of("")), None);
    assert_eq!(parse_usize(&chars_of("4a")), None);
    assert_eq!(parse_usize(&chars_of("18446744073709551615")), Some(usize::MAX));
    assert_eq!(parse_usize(&chars_of("18446744073709551616")), None);
}

fn stem(n: &str) -> StemFile {
    StemFile { name: n.to_string(), path: n.to_string(), role: "vocals".to_string(), file_type: "audio".to_string() }
}

#[test]
fn separation_reports() {
    let mut r = SeparationResult::new();
    r.record(SeparationEvent::Progress { percent: 10, stage: "load".to_string() });
    assert!(!r.success);
    r.record(SeparationEvent::Complete { files: vec![stem("a")], success: true });
    r.record(SeparationEvent::Complete { files: vec![stem("b")], success: true });
    assert!(r.success);
    assert_eq!(r.files.len(), 2);
    let ok = finish_separation(r, true, "", Some(0)).unwrap();
    assert_eq!(ok.files[1].name, "b");
    let mut r = SeparationResult::new();
    r.record(SeparationEvent::Error { message: "bad model".to_string() });
    assert_eq!(finish_separation(r, false, "noise", Some(1)).unwrap_err(), "bad model");
    assert_eq!(finish_separation(SeparationResult::new(), true, "", Some(0)).unwrap_err(), "Separation failed");
}

#[test]
fn separation_failure_details() {
    let err = "x - INFO - loading\nTraceback (most recent call last):\n  File \"a.py\"\nValueError: no\n";
    assert_eq!(failure_detail_text(err, Some(1)), "Traceback (most recent call last):\n  File \"a.py\"\nValueError: no");
    let err = "a - WARNING - slow\r\n 50%|#####\r\nreal problem\r\n\r\nsecond\n";
    assert_eq!(failure_detail_text(err, Some(1)), "real problem\nsecond");
    assert_eq!(failure_detail_text("Downloading model\n", Some(3)), "Separation process exited with code Some(3)");
    assert_eq!(failure_detail_text("", None), "Separation process exited with code None");
    let r = finish_separation(SeparationResult::new(), false, "", Some(-2));
    assert_eq!(r.unwrap_err(), "Separation process exited with code Some(-2)");
}

fn report(kind: Option<&str>) -> WorkerReport {
    WorkerReport { kind: kind.map(|k| k.to_string()), percent: None, stage: None, files: None, success: None, message: None }
}

#[test]
fn worker_reports() {
    match report_event(WorkerReport { percent: Some(42), stage: Some("Separating".to_string()), ..report(Some("progress")) }) {
        Some(SeparationEvent::Progress { percent, stage }) => assert_eq!((percent, stage.as_str()), (42, "Separating")),
        other => panic!("unexpected {:?}", other),
    }
    match report_event(WorkerReport { percent: Some((1u64 << 32) + 7), ..report(Some("progress")) }) {
        Some(SeparationEvent::Progress { percent, stage }) => assert_eq!((percent, stage.as_str()), (7, "")),
        other => panic!("unexpected {:?}", other),
    }
    let entry = ReportFile { name: Some("vocals.wav".to_string()), path: Some("/o/vocals.wav".to_string()), role: None, file_type: None };
    match report_event(WorkerReport { files: Some(vec![entry]), ..report(Some("complete")) }) {
        Some(SeparationEvent::Complete { files, success }) => {
            assert!(success);
            assert_eq!(files.len(), 1);
            assert_eq!(
                (files[0].name.as_str(), files[0].path.as_str(), files[0].role.as_str(), files[0].file_type.as_str()),
                ("vocals.wav", "/o/vocals.wav", "", "audio")
            );
        }
        other => panic!("unexpected {:?}", other),
    }
    match report_event(WorkerReport { success: Some(false), ..report(Some("complete")) }) {
        Some(SeparationEvent::Complete { files, success }) => assert!(!success && files.is_empty()),
        other => panic!("unexpected {:?}", other),
    }
    match report_event(report(Some("error"))) {
        Some(SeparationEvent::Error { message }) => assert_eq!(message, "Unknown error"),
        other => panic!("unexpected {:?}", other),
    }
    assert!(report_event(report(Some("log"))).is_none());
    assert!(report_event(report(None)).is_none());
}

#[test]
fn worker_output_lines() {
    match separation_event(r#"{"type":"progress","percent":55,"stage":"Vocals"}"#) {
        Some(SeparationEvent::Progress { percent, stage }) => assert_eq!((percent, stage.as_str()), (55, "Vocals")),
        other => panic!("unexpected {:?}", other),
    }
    match separation_event(r#"{"type":"complete","success":false,"files":[{"name":"a","path":"/a","role":"drums","fileType":"stem"},{"path":"/b"}]}"#) {
        Some(SeparationEvent::Complete { files, success }) => {
            assert!(!success);
            assert_eq!(files.len(), 2);
            assert_eq!((files[0].name.as_str(), files[0].role.as_str(), files[0].file_type.as_str()), ("a", "drums", "stem"));
            assert_eq!((files[1].name.as_str(), files[1].path.as_str(), files[1].file_type.as_str()), ("", "/b", "audio"));
        }
        other => panic!("unexpected {:?}", other),
    }
    match separation_event(r#"{"type":"error","message":"out of memory"}"#) {
        Some(SeparationEvent::Error { message }) => assert_eq!(message, "out of memory"),
        other => panic!("unexpected {:?}", other),
    }
    match separation_event(r#"{"type":"progress","percent":"half"}"#) {
        Some(SeparationEvent::Progress { percent, stage }) => assert_eq!((percent, stage.as_str()), (0, "")),
        other => panic!("unexpected {:?}", other),
    }
    assert!(separation_event("Loading model...").is_none());
    assert!(separation_event(r#"{"type":"log"}"#).is_none());
    assert!(separation_event(r#"[1,2]"#).is_none());
    assert!(separation_event(r#"{"type":7}"#).is_none());
}

#[test]
fn hidden_names() {
    assert!(hidden_name(".DS_Store"));
    assert!(hidden_name("."));
    assert!(!hidden_name("a.wav"));
    assert!(!hidden_name(""));
}
