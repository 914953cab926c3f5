use downloadit::metadata::{
    combined_output, failure_notice, formats_result, formats_stream_result, output_lines,
    playlist_from_output, video_info_from_output,
};
use downloadit::setup::{check_deps_status, get_ffmpeg_download_url, is_ffmpeg_binary_entry};
use downloadit::ytdlp::{
    check_url, classify_output_line, destination_of, download_success_message, download_video_args,
    download_video_result, exit_code_message, missing_directory_message, start_failure_message, formats_listing_args, formats_quick_args, get_ffmpeg_command, get_ytdlp_command,
    playlist_args, stream_download_args, stream_download_result, video_info_args, LineEvent, ToolCopy,
};

fn s(x: &str) -> String {
    x.to_string()
}

fn strs(v: &[&str]) -> Vec<String> {
    v.iter().map(|x| x.to_string()).collect()
}

#[test]
fn url_must_not_be_blank() {
    assert_eq!(check_url(&s("  \t")), Err(s("URL cannot be empty")));
    assert_eq!(check_url(&s("")), Err(s("URL cannot be empty")));
    assert_eq!(check_url(&s(" https://x ")), Ok(()));
}

fn copy(p: &str, present: bool) -> ToolCopy {
    ToolCopy { path: s(p), present }
}

#[test]
fn ytdlp_command_order() {
    let managed = copy("/tools/yt-dlp.exe", true);
    assert_eq!(get_ytdlp_command(&copy("/app/yt-dlp", true), &copy("/app/ytd", true), &managed), "/app/yt-dlp");
    assert_eq!(get_ytdlp_command(&copy("/app/yt-dlp", false), &copy("/app/ytd", true), &managed), "/app/ytd");
    assert_eq!(get_ytdlp_command(&copy("/app/yt-dlp", false), &copy("/app/ytd", false), &managed), "/tools/yt-dlp.exe");
    assert_eq!(
        get_ytdlp_command(&copy("/app/yt-dlp", false), &copy("/app/ytd", false), &copy("/tools/yt-dlp.exe", false)),
        "yt-dlp"
    );
}

#[test]
fn metadata_arguments() {
    assert_eq!(playlist_args(&s("U")), strs(&["--flat-playlist", "--dump-json", "--no-warnings", "--no-update", "U"]));
    assert_eq!(video_info_args(&s("U")), strs(&["--dump-json", "--no-playlist", "--no-warnings", "U"]));
    assert_eq!(formats_listing_args(&s("U")), strs(&["-F", "--no-playlist", "--no-warnings", "U"]));
    assert_eq!(formats_quick_args(&s("U")), strs(&["-F", "U"]));
}

#[test]
fn ffmpeg_command_choice() {
    assert_eq!(get_ffmpeg_command(&s("/tools/ffmpeg"), true), "/tools/ffmpeg");
    assert_eq!(get_ffmpeg_command(&s("/tools/ffmpeg"), false), "ffmpeg");
}

#[test]
fn plain_download_arguments() {
    assert_eq!(
        download_video_args(Some(s("22")), &s("U")),
        strs(&["--quiet", "--no-warnings", "--no-update", "-f", "22", "-o", "%(title)s.%(ext)s", "U"])
    );
    assert_eq!(
        download_video_args(None, &s("U")),
        strs(&["--quiet", "--no-warnings", "--no-update", "-o", "%(title)s.%(ext)s", "U"])
    );
}

#[test]
fn streaming_download_arguments() {
    assert_eq!(
        stream_download_args(true, Some(s("22")), &s("U")),
        strs(&[
            "--progress", "--no-warnings", "--no-update", "--newline", "-f", "bestaudio/best", "-x",
            "--audio-format", "mp3", "-o", "%(title)s.%(ext)s", "U"
        ])
    );
    assert_eq!(
        stream_download_args(false, Some(s("137+140")), &s("U")),
        strs(&["--progress", "--no-warnings", "--no-update", "--newline", "-f", "137+140", "-o", "%(title)s.%(ext)s", "U"])
    );
    assert_eq!(
        stream_download_args(false, None, &s("U")),
        strs(&["--progress", "--no-warnings", "--no-update", "--newline", "-o", "%(title)s.%(ext)s", "U"])
    );
}

#[test]
fn download_results() {
    assert_eq!(
        download_video_result(true, Some(0), &s(""), &s("/home/me/Desktop")),
        Ok(s("✓ Video downloaded successfully to: /home/me/Desktop"))
    );
    assert_eq!(
        download_video_result(false, Some(2), &s(""), &s("/d")),
        Err(s("Download failed with exit code: 2"))
    );
    assert_eq!(download_video_result(false, None, &s(""), &s("/d")), Err(s("Download failed with exit code: -1")));
    assert_eq!(
        download_video_result(false, Some(1), &s("ERROR: Unsupported URL: x\n"), &s("/d")),
        Err(s("ERROR: Unsupported URL: x"))
    );
    assert_eq!(download_video_result(false, Some(1), &s("\n"), &s("/d")), Err(s("")));
    assert_eq!(download_success_message(&s("/x")), "✓ Video downloaded successfully to: /x");
    assert_eq!(exit_code_message(Some(-9)), "Download failed with exit code: -9");
}

#[test]
fn stream_results() {
    assert_eq!(stream_download_result(false, true, Some(0), &s("/d")), Err(s("Download was paused or cancelled")));
    assert_eq!(stream_download_result(true, true, Some(0), &s("/d")), Ok(s("✓ Video downloaded successfully to: /d")));
    assert_eq!(stream_download_result(true, false, Some(3), &s("/d")), Err(s("Download failed with exit code: 3")));
}

#[test]
fn progress_line_with_percentage() {
    let line = b"[download]  45.2% of ~120.50MiB at 5.20MiB/s ETA 00:23\r\n".to_vec();
    match classify_output_line(&line) {
        LineEvent::Progress { percent, status } => {
            assert_eq!(percent, Some(s("45.2")));
            assert_eq!(status, "[download]  45.2% of ~120.50MiB at 5.20MiB/s ETA 00:23");
        }
        _ => panic!("not a progress line"),
    }
}

#[test]
fn progress_line_without_number() {
    match classify_output_line(&b"[download]%done".to_vec()) {
        LineEvent::Progress { percent, status } => {
            assert_eq!(percent, Some(s("[download]")));
            assert_eq!(status, "[download]%done");
        }
        _ => panic!("not a progress line"),
    }
    match classify_output_line(&b"[download] %".to_vec()) {
        LineEvent::Progress { percent, .. } => assert_eq!(percent, Some(s("[download]"))),
        _ => panic!("not a progress line"),
    }
}

#[test]
fn other_output_lines() {
    assert!(matches!(classify_output_line(&b"   \n".to_vec()), LineEvent::Blank));
    assert!(matches!(classify_output_line(&b"[ffmpeg] Merging formats".to_vec()), LineEvent::Merging));
    match classify_output_line(&b"[download] Destination: v.mp4\n".to_vec()) {
        LineEvent::Status(t) => assert_eq!(t, "[download] Destination: v.mp4"),
        _ => panic!("not a status line"),
    }
    match classify_output_line(&vec![0x5b, 0xff, 0x5d]) {
        LineEvent::Status(t) => assert_eq!(t, "[\u{fffd}]"),
        _ => panic!("not a status line"),
    }
}

#[test]
fn listing_lines_and_combined_output() {
    let out = output_lines(&b"ID EXT\r\n\r\n137 mp4\n140 m4a".to_vec());
    assert_eq!(out, strs(&["ID EXT", "137 mp4", "140 m4a"]));
    let err = output_lines(&b"WARNING: x\n".to_vec());
    assert_eq!(combined_output(&out, &err), "ID EXT\n137 mp4\n140 m4a\n\nWARNING: x\n");
    assert_eq!(combined_output(&out, &vec![]), "ID EXT\n137 mp4\n140 m4a\n");
    assert_eq!(combined_output(&vec![], &vec![]), "");
}

#[test]
fn streamed_formats_results() {
    assert_eq!(formats_stream_result(true, Some(0), s("list\n")), Ok(s("list\n")));
    assert_eq!(formats_stream_result(false, Some(1), s("ERROR: x\n")), Err(s("ERROR: x\n")));
    assert_eq!(
        formats_stream_result(false, Some(1), s("")),
        Err(s("❌ Command failed with exit code: 1\n(No error details available)"))
    );
    assert_eq!(failure_notice(None), "❌ Command failed with exit code: -1");
}

#[test]
fn one_shot_formats_results() {
    assert_eq!(formats_result(true, Some(0), &b"a\nb".to_vec(), &b"warn".to_vec()), Ok(s("a\nb")));
    assert_eq!(
        formats_result(false, Some(1), &vec![], &b"e1\n\ne2\r\ne3\ne4\n".to_vec()),
        Err(s("e1 | e2 | e3"))
    );
    assert_eq!(formats_result(false, Some(1), &vec![], &vec![]), Err(s("exit code: Some(1)")));
    assert_eq!(formats_result(false, None, &vec![], &vec![]), Err(s("exit code: None")));
    assert_eq!(formats_result(false, Some(2), &vec![], &b"\n".to_vec()), Err(s("")));
}

#[test]
fn playlist_entries_from_dump() {
    let out = [
        "{\"id\":\"abc\",\"title\":\"First\",\"url\":\"https://www.youtube.com/watch?v=abc\",\"duration\":12.5}\n",
        "  {\"id\":\"def\",\"url\":\"def\",\"thumbnail\":\"https://t/def.jpg\"}  \n",
        "not json\n",
        "{\"title\":\"no id\"}\n",
        "\n",
        "{\"id\":\"\"}\n",
        "{\"id\":\"ghi\"}",
    ]
    .join("");
    let entries = playlist_from_output(&out.as_bytes().to_vec(), &vec![]).unwrap();
    assert_eq!(entries.len(), 3);
    assert_eq!(entries[0].id, "abc");
    assert_eq!(entries[0].title, "First");
    assert_eq!(entries[0].url, "https://www.youtube.com/watch?v=abc");
    assert_eq!(entries[0].thumbnail, Some(s("https://i.ytimg.com/vi/abc/mqdefault.jpg")));
    assert_eq!(entries[1].id, "def");
    assert_eq!(entries[1].title, "def");
    assert_eq!(entries[1].url, "https://www.youtube.com/watch?v=def");
    assert_eq!(entries[1].thumbnail, Some(s("https://t/def.jpg")));
    assert_eq!(entries[1].record, "{\"id\":\"def\",\"url\":\"def\",\"thumbnail\":\"https://t/def.jpg\"}");
    assert_eq!(entries[2].id, "ghi");
    for e in &entries {
        assert!(!e.id.is_empty() && e.url.starts_with("http") && e.thumbnail.is_some());
    }
}

#[test]
fn empty_playlist_reports_stderr() {
    assert_eq!(
        playlist_from_output(&b"\n".to_vec(), &b"  \n ERROR: private playlist \nmore".to_vec()).err(),
        Some(s(" ERROR: private playlist "))
    );
    assert_eq!(playlist_from_output(&vec![], &b"\n \n".to_vec()).err(), Some(s("No videos found in playlist")));
}

#[test]
fn video_info_from_dump() {
    let out = b"{\"title\":\"T\",\"filesize_approx\":1234,\"ext\":\"mp4\",\"width\":1920,\"height\":1080,\"is_live\":false,\"thumbnail\":\"http://t\",\"duration\":3.5}\n{}".to_vec();
    let info = video_info_from_output(true, &out, &vec![]).unwrap();
    assert_eq!(info.title, "T");
    assert_eq!(info.filesize, Some(1234));
    assert_eq!(info.ext, Some(s("mp4")));
    assert_eq!(info.width, Some(1920));
    assert_eq!(info.height, Some(1080));
    assert_eq!(info.is_live, Some(false));
    assert_eq!(info.thumbnail, Some(s("http://t")));
}

#[test]
fn video_info_defaults_and_size_order() {
    let info = video_info_from_output(true, &b"{\"filesize\":-5,\"filesize_approx\":9,\"width\":-1}".to_vec(), &vec![]).unwrap();
    assert_eq!(info.title, "Unknown");
    assert_eq!(info.filesize, Some(-5));
    assert_eq!(info.width, None);
    let info = video_info_from_output(true, &vec![], &vec![]).unwrap();
    assert_eq!(info.title, "Unknown");
    assert_eq!(info.record, "{}");
}

#[test]
fn video_info_errors() {
    assert_eq!(
        video_info_from_output(false, &vec![], &b"ERROR: [youtube] x: Video unavailable\nnext".to_vec()).err(),
        Some(s("ERROR: [youtube] x: Video unavailable"))
    );
    assert_eq!(video_info_from_output(false, &vec![], &vec![]).err(), Some(s("Unknown error")));
    let e = video_info_from_output(true, &b"not json".to_vec(), &vec![]).err().unwrap();
    assert!(e.starts_with("Failed to parse response: expected"), "{}", e);
}

#[test]
fn deps_status() {
    let st = check_deps_status(true, false);
    assert!(st.ytdlp);
    assert!(!st.ffmpeg);
}

#[test]
fn ffmpeg_release_asset() {
    let json = r#"{"assets":[
        {"name":"ffmpeg-master-latest-win64-gpl-shared.zip","browser_download_url":"https://x/shared.zip"},
        {"name":"ffmpeg-master-latest-linux64-gpl.tar.xz","browser_download_url":"https://x/linux"},
        {"name":"ffmpeg-master-latest-win64-gpl.zip","browser_download_url":"https://x/win.zip"},
        {"name":"ffmpeg-n7-win64-gpl.zip","browser_download_url":"https://x/second.zip"}
    ]}"#;
    assert_eq!(get_ffmpeg_download_url(&s(json)), Ok(s("https://x/win.zip")));
}

#[test]
fn ffmpeg_release_errors() {
    assert_eq!(get_ffmpeg_download_url(&s("{}")), Err(s("No assets in release")));
    assert_eq!(get_ffmpeg_download_url(&s(r#"{"assets":5}"#)), Err(s("No assets in release")));
    assert_eq!(
        get_ffmpeg_download_url(&s(r#"{"assets":[{"name":"a.zip"},{"browser_download_url":"u"}]}"#)),
        Err(s("ffmpeg release asset not found"))
    );
    assert_eq!(
        get_ffmpeg_download_url(&s(r#"{"assets":[{"name":"x-win64-gpl.zip"}]}"#)),
        Err(s("No download URL"))
    );
}

#[test]
fn ffmpeg_archive_entry() {
    assert!(is_ffmpeg_binary_entry(&s("ffmpeg-master-latest-win64-gpl/bin/ffmpeg.exe")));
    assert!(is_ffmpeg_binary_entry(&s("FFMPEG\\BIN\\FFMPEG.EXE")));
    assert!(!is_ffmpeg_binary_entry(&s("ffmpeg/bin/ffprobe.exe")));
    assert!(!is_ffmpeg_binary_entry(&s("ffmpeg/doc/ffmpeg.exe.html")));
}

#[test]
fn destination_lines() {
    assert_eq!(destination_of(&s("[download] Destination: Clip [x].f137.mp4")), Some(s("Clip [x].f137.mp4")));
    assert_eq!(destination_of(&s("[download] Destination: ")), Some(s("")));
    assert_eq!(destination_of(&s("[download]  50.0% of 3MiB")), None);
    assert_eq!(destination_of(&s("[ExtractAudio] Destination: a.mp3")), None);
    assert_eq!(destination_of(&s("x [download] Destination: a.mp4")), None);
}

#[test]
fn failure_messages() {
    assert_eq!(missing_directory_message(&s("/nowhere")), "Download directory does not exist: /nowhere");
    assert_eq!(
        start_failure_message(&s("No such file")),
        "yt-dlp not found or failed to start: No such file. Place 'yt-dlp.exe' or 'ytd.exe' in the app \
         directory, or ensure yt-dlp is in your system PATH."
    );
}
