use downloadit::downloads::{
    announces, cancel_download, finish_stream_download, newest_new_file, note_destination, part_files_to_delete,
    pause_download, read_error_outcome, snapshot_of, wait_error_outcome, DownloadEntry, FileStamp,
};
use downloadit::recording::{
    after_remux, frame_captured, frame_grab_args, preview_ffmpeg_args, preview_file_name, preview_step,
    recording_file, recording_pick, recording_source, remux_args, remux_target, stop_live_preview, AfterRemux,
    PreviewAction, PreviewEvent, RecordingPick, PREVIEW_PENDING,
};
use downloadit::registry::Registry;

fn entry(pid: u32) -> DownloadEntry {
    DownloadEntry {
        pid,
        dir: "/tmp/dl".to_string(),
        snapshot: vec!["/tmp/dl/old.mp4".to_string()],
        destinations: Vec::new(),
    }
}

fn s(x: &str) -> String {
    x.to_string()
}

#[test]
fn registry_insert_get_remove() {
    let mut r: Registry<u32> = Registry::new();
    assert!(!r.contains_key(&s("a")));
    r.insert(s("a"), 1);
    r.insert(s("b"), 2);
    r.insert(s("a"), 3);
    assert_eq!(r.get(&s("a")), Some(&3));
    assert_eq!(r.get(&s("b")), Some(&2));
    assert_eq!(r.remove(&s("a")), Some(3));
    assert_eq!(r.remove(&s("a")), None);
    assert!(r.contains_key(&s("b")));
    assert_eq!(r.get(&s("c")), None);
}

#[test]
fn pause_registered_download() {
    let mut r = Registry::new();
    r.insert(s("d1"), entry(42));
    let (res, pid) = pause_download(&mut r, &s("d1"));
    assert_eq!(res, Ok(s("Download paused")));
    assert_eq!(pid, Some(42));
    assert!(!r.contains_key(&s("d1")));
}

#[test]
fn pause_twice_is_refused() {
    let mut r = Registry::new();
    r.insert(s("d1"), entry(42));
    let _ = pause_download(&mut r, &s("d1"));
    let (res, pid) = pause_download(&mut r, &s("d1"));
    assert_eq!(res, Err(s("No active download with that ID")));
    assert_eq!(pid, None);
}

#[test]
fn cancel_messages() {
    let mut r = Registry::new();
    r.insert(s("d1"), entry(7));
    let (msg, e) = cancel_download(&mut r, &s("d1"));
    assert_eq!(msg, "Download cancelled");
    assert_eq!(e.map(|e| e.pid), Some(7));
    let (msg, e) = cancel_download(&mut r, &s("d1"));
    assert_eq!(msg, "Download cancelled (already stopped)");
    assert!(e.is_none());
}

#[test]
fn snapshot_keeps_every_path() {
    let listing = vec![s("/d/a.mp4"), s("/d/b.mp4.part"), s("/d/c.txt")];
    assert_eq!(snapshot_of(&listing), listing);
}

#[test]
fn cancel_deletes_only_new_partial_files() {
    let e = DownloadEntry {
        pid: 1,
        dir: s("/d"),
        snapshot: snapshot_of(&vec![s("/d/a.mp4"), s("/d/old.part")]),
        destinations: vec![s("new.webm"), s("old")],
    };
    let later = vec![
        stamp("/d/a.mp4", None),
        stamp("/d/old.part", None),
        stamp("/d/new.webm.part", None),
        stamp("/d/new.webm", None),
        stamp("/d/other.mp4.part", None),
    ];
    assert_eq!(part_files_to_delete(&e, &later), vec![2]);
}

#[test]
fn cancel_keeps_another_downloads_partial_file() {
    let e = DownloadEntry { pid: 1, dir: s("/d"), snapshot: Vec::new(), destinations: vec![s("mine.mp4")] };
    let later = vec![stamp("/d/theirs.mp4.part", Some(5)), stamp("/d/mine.mp4.part", Some(1))];
    assert_eq!(part_files_to_delete(&e, &later), vec![1]);
    let none = DownloadEntry { pid: 1, dir: s("/d"), snapshot: Vec::new(), destinations: Vec::new() };
    assert_eq!(part_files_to_delete(&none, &later), Vec::<usize>::new());
}

#[test]
fn announced_partial_names() {
    let d = vec![s("a.mp4"), s("b.f137.mp4")];
    assert!(announces(&d, &s("b.f137.mp4.part")));
    assert!(!announces(&d, &s("b.f137.mp4")));
    assert!(!announces(&d, &s("a.mp4.part.part")));
    assert!(!announces(&Vec::new(), &s(".part")));
}

#[test]
fn destinations_are_noted_for_the_running_download() {
    let mut r = Registry::new();
    r.insert(s("d"), entry(9));
    r.insert(s("x"), entry(10));
    note_destination(&mut r, &s("d"), &s("[download] Destination: Clip [abc].f137.mp4"));
    note_destination(&mut r, &s("d"), &s("[download]   1.0% of 10MiB"));
    note_destination(&mut r, &s("d"), &s("[download] Destination: Clip [abc].f140.m4a"));
    note_destination(&mut r, &s("gone"), &s("[download] Destination: nothing.mp4"));
    let e = r.get(&s("d")).unwrap();
    assert_eq!(e.destinations, vec![s("Clip [abc].f137.mp4"), s("Clip [abc].f140.m4a")]);
    assert_eq!(e.pid, 9);
    assert_eq!(e.snapshot, vec![s("/tmp/dl/old.mp4")]);
    assert!(r.get(&s("x")).unwrap().destinations.is_empty());
    assert!(!r.contains_key(&s("gone")));
}

#[test]
fn recording_that_resumed_a_partial_file_is_found() {
    let snap = snapshot_of(&vec![s("/d/live.ts.part"), s("/d/old.mp4")]);
    let stamps = vec![stamp("/d/old.mp4", Some(50)), stamp("/d/live.ts.part", Some(20))];
    assert_eq!(newest_new_file(&stamps, &snap, false), Some(1));
    assert_eq!(newest_new_file(&stamps, &snap, true), None);
}

#[test]
fn finishing_takes_the_download_out() {
    let mut r = Registry::new();
    r.insert(s("d"), entry(3));
    let (res, e) = finish_stream_download(&mut r, &s("d"), true, Some(0), &s("/dl"));
    assert_eq!(res, Ok(s("✓ Video downloaded successfully to: /dl")));
    assert_eq!(e.map(|e| e.pid), Some(3));
    assert!(!r.contains_key(&s("d")));
    let (res, e) = finish_stream_download(&mut r, &s("d"), true, Some(0), &s("/dl"));
    assert_eq!(res, Err(s("Download was paused or cancelled")));
    assert!(e.is_none());
    r.insert(s("d"), entry(3));
    let (res, _) = finish_stream_download(&mut r, &s("d"), false, Some(1), &s("/dl"));
    assert_eq!(res, Err(s("Download failed with exit code: 1")));
}

#[test]
fn read_and_wait_errors() {
    let mut r = Registry::new();
    r.insert(s("d"), entry(3));
    assert_eq!(read_error_outcome(&mut r, &s("d"), &s("broken pipe")), Some(s("Error reading output: broken pipe")));
    assert!(!r.contains_key(&s("d")));
    assert_eq!(read_error_outcome(&mut r, &s("d"), &s("broken pipe")), None);
    r.insert(s("d"), entry(3));
    assert_eq!(wait_error_outcome(&mut r, &s("d"), &s("x")), "Failed to wait for child: x");
    assert!(!r.contains_key(&s("d")));
}

#[test]
fn preview_server_steps() {
    let mut p: Registry<u32> = Registry::new();
    assert!(matches!(preview_step(&p, &s("a"), PreviewEvent::Begin), PreviewAction::Stop));
    p.insert(s("a"), PREVIEW_PENDING);
    assert!(matches!(preview_step(&p, &s("a"), PreviewEvent::Begin), PreviewAction::RunFfmpeg));
    assert!(matches!(preview_step(&p, &s("a"), PreviewEvent::SpawnFailed), PreviewAction::WaitThenRetry(2000)));
    assert!(matches!(
        preview_step(&p, &s("a"), PreviewEvent::StreamEnded { client_gone: false }),
        PreviewAction::WaitThenRestart(300)
    ));
    assert!(matches!(preview_step(&p, &s("a"), PreviewEvent::StreamEnded { client_gone: true }), PreviewAction::Stop));
    let _ = stop_live_preview(&mut p, &s("a"));
    assert!(matches!(
        preview_step(&p, &s("a"), PreviewEvent::StreamEnded { client_gone: false }),
        PreviewAction::Stop
    ));
}

fn strs(v: &[&str]) -> Vec<String> {
    v.iter().map(|x| x.to_string()).collect()
}

#[test]
fn ffmpeg_arguments() {
    assert_eq!(
        preview_ffmpeg_args(&s("/d/r.ts")),
        strs(&["-y", "-sseof", "-60", "-re", "-i", "/d/r.ts", "-an", "-vf", "fps=15,scale=640:-1", "-f", "mpjpeg", "pipe:1"])
    );
    assert_eq!(
        frame_grab_args(&s("/d/r.ts"), &s("/t/p.jpg"), true),
        strs(&["-y", "-sseof", "-10", "-i", "/d/r.ts", "-an", "-vframes", "1", "-vf", "scale=640:-1", "/t/p.jpg"])
    );
    assert_eq!(
        frame_grab_args(&s("/d/r.ts"), &s("/t/p.jpg"), false),
        strs(&["-y", "-i", "/d/r.ts", "-an", "-vframes", "1", "-vf", "scale=640:-1", "/t/p.jpg"])
    );
    assert_eq!(remux_args(&s("a.part"), &s("a")), strs(&["-y", "-i", "a.part", "-c", "copy", "a"]));
}

#[test]
fn recording_lookup() {
    let mut r = Registry::new();
    assert_eq!(recording_source(&r, &s("x")).err(), Some(s("No active recording")));
    r.insert(s("x"), entry(1));
    assert_eq!(recording_source(&r, &s("x")).ok(), Some((s("/tmp/dl"), vec![s("/tmp/dl/old.mp4")])));
    assert_eq!(recording_file(Some(4)), Ok(4));
    assert_eq!(recording_file(None), Err(s("Recording file not found")));
}

#[test]
fn recording_picks() {
    assert!(matches!(recording_pick(AfterRemux::KeepOutput, false), RecordingPick::Output));
    assert!(matches!(recording_pick(AfterRemux::ReplaceRaw, true), RecordingPick::Raw));
    assert!(matches!(recording_pick(AfterRemux::RenameRaw, true), RecordingPick::Output));
    assert!(matches!(recording_pick(AfterRemux::RenameRaw, false), RecordingPick::Raw));
    assert!(matches!(recording_pick(AfterRemux::KeepRaw, true), RecordingPick::Raw));
}

fn stamp(p: &str, m: Option<i128>) -> FileStamp {
    let name = p.rsplit('/').next().unwrap_or(p);
    FileStamp { path: s(p), name: s(name), modified: m }
}

#[test]
fn newest_file_prefers_later_on_tie() {
    let snap = vec![s("/d/old.mp4")];
    let stamps = vec![
        stamp("/d/old.mp4", Some(100)),
        stamp("/d/a.mp4", Some(5)),
        stamp("/d/b.mp4", Some(5)),
        stamp("/d/c.mp4", Some(3)),
    ];
    assert_eq!(newest_new_file(&stamps, &snap, false), Some(2));
}

#[test]
fn newest_file_unknown_time_is_earliest() {
    let stamps = vec![stamp("/d/a", None), stamp("/d/b", Some(-7)), stamp("/d/c", None)];
    assert_eq!(newest_new_file(&stamps, &vec![], false), Some(1));
    let only_unknown = vec![stamp("/d/a", None), stamp("/d/c", None)];
    assert_eq!(newest_new_file(&only_unknown, &vec![], false), Some(1));
}

#[test]
fn newest_complete_file_skips_partial() {
    let stamps = vec![stamp("/d/a.mp4", Some(1)), stamp("/d/a.mp4.part", Some(9))];
    assert_eq!(newest_new_file(&stamps, &vec![], true), Some(0));
    assert_eq!(newest_new_file(&stamps, &vec![], false), Some(1));
    assert_eq!(newest_new_file(&stamps, &vec![s("/d/a.mp4")], true), None);
    assert_eq!(newest_new_file(&vec![], &vec![], false), None);
}

#[test]
fn preview_stop_skips_pending_server() {
    let mut p: Registry<u32> = Registry::new();
    p.insert(s("a"), PREVIEW_PENDING);
    p.insert(s("b"), 99);
    assert_eq!(stop_live_preview(&mut p, &s("a")), None);
    assert_eq!(stop_live_preview(&mut p, &s("b")), Some(99));
    assert_eq!(stop_live_preview(&mut p, &s("b")), None);
    assert!(!p.contains_key(&s("a")));
    assert_eq!(PREVIEW_PENDING, u32::MAX);
}

#[test]
fn remux_targets() {
    assert_eq!(remux_target(&s("video.mp4.part")), (true, s("video.mp4")));
    assert_eq!(remux_target(&s("a..part")), (true, s("a.")));
    assert_eq!(remux_target(&s("..part")), (true, s("..")));
    assert_eq!(remux_target(&s("...part")), (true, s("..")));
    assert_eq!(remux_target(&s(".part")), (true, s(".part")));
    assert_eq!(remux_target(&s("live.ts")), (false, s("_rec_live.ts")));
    assert_eq!(remux_target(&s("part")), (false, s("_rec_part")));
}

#[test]
fn remux_target_agrees_with_path_extension() {
    for name in ["video.mp4.part", "a..part", ".part", "x.part", "..part", "...part", ".a.part"] {
        let p = std::path::Path::new("/rec").join(name);
        let (is_part, out) = remux_target(&s(name));
        assert!(is_part);
        assert_eq!(p.with_file_name(out), p.with_extension(""), "name {:?}", name);
    }
}

#[test]
fn remux_decisions() {
    assert!(matches!(after_remux(true, true), AfterRemux::KeepOutput));
    assert!(matches!(after_remux(false, true), AfterRemux::ReplaceRaw));
    assert!(matches!(after_remux(true, false), AfterRemux::RenameRaw));
    assert!(matches!(after_remux(false, false), AfterRemux::KeepRaw));
}

#[test]
fn frame_helpers() {
    assert_eq!(preview_file_name(&s("abc")), "dnit_preview_abc.jpg");
    assert!(frame_captured(true, Some(10)));
    assert!(!frame_captured(true, Some(0)));
    assert!(!frame_captured(true, None));
    assert!(!frame_captured(false, Some(10)));
}
