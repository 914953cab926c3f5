//! Live recordings: the preview server's table, stopping a recording and
//! repairing its file, and grabbing a frame of it.
use vstd::prelude::*;
use crate::downloads::DownloadEntry;
use crate::registry::Registry;
use crate::text::{
    chars_of, concat, ends_with_chars, has_suffix, matches_at, string_of_range, views,
};

verus! {

/// The process id kept for a preview whose server runs but has not started
/// ffmpeg yet; no process is stopped for it.
pub const PREVIEW_PENDING: u32 = 0xFFFF_FFFFu32;

/// Takes the preview of `download_id` out of the table; gives the ffmpeg
/// process to stop, if one was started for it.
pub fn stop_live_preview(previews: &mut Registry<u32>, download_id: &String) -> (r: Option<u32>)
    ensures
        final(previews)@ == old(previews)@.remove(download_id@),
        r == (if old(previews)@.contains_key(download_id@) && old(previews)@[download_id@]
            != PREVIEW_PENDING {
            Some(old(previews)@[download_id@])
        } else {
            None
        }),
{
    match previews.remove(download_id) {
        Some(p) => if p != PREVIEW_PENDING {
            Some(p)
        } else {
            None
        },
        None => None,
    }
}

/// A name without its `.part` ending, as `Path::with_extension("")` leaves
/// it: a name that is nothing but `.part` has no extension and stays, and
/// `..part` becomes `..` (std cuts the extension `part` off, leaving `..`,
/// which is no file name and so gets no further change).
pub open spec fn without_part(name: Seq<char>) -> Seq<char> {
    if name == "..part"@ {
        ".."@
    } else if name.len() > 5 {
        name.take(name.len() - 5)
    } else {
        name
    }
}

/// Where the repaired recording goes, from the recorded file's name:
/// whether it is partial, and the name of the output file.
pub open spec fn remux_output_name(name: Seq<char>) -> (bool, Seq<char>) {
    if has_suffix(name, ".part"@) {
        (true, without_part(name))
    } else {
        (false, "_rec_"@ + name)
    }
}

/// See `remux_output_name`.
pub fn remux_target(file_name: &String) -> (r: (bool, String))
    ensures
        r.0 == remux_output_name(file_name@).0,
        r.1@ == remux_output_name(file_name@).1,
{
    let v = chars_of(file_name.as_str());
    let suffix = chars_of(".part");
    if ends_with_chars(v.as_slice(), suffix.as_slice()) {
        let n = v.len();
        let dots = chars_of("..part");
        if v.len() == dots.len() && matches_at(v.as_slice(), 0, dots.as_slice()) {
            assert(v@.subrange(0, dots@.len() as int) =~= v@);
            return (true, "..".to_string());
        }
        proof {
            if v@ == "..part"@ {
                assert(v@.subrange(0, dots@.len() as int) =~= v@);
            }
        }
        assert(v@ != "..part"@);
        if n > 5 {
            (true, string_of_range(v.as_slice(), 0, n - 5))
        } else {
            (true, file_name.clone())
        }
    } else {
        (false, concat("_rec_", file_name.as_str()))
    }
}

/// A partial recording's output name with `.part` put back is its name again
/// (but for `..part`); another recording's output name is never its own name.
pub proof fn law_remux_target(name: Seq<char>)
    ensures
        remux_output_name(name).0 && name.len() > 5 && name != "..part"@ ==> remux_output_name(
            name,
        ).1 + ".part"@ == name,
        !remux_output_name(name).0 ==> remux_output_name(name).1 != name,
{
    reveal_strlit(".part");
    reveal_strlit("_rec_");
    if remux_output_name(name).0 && name.len() > 5 && name != "..part"@ {
        assert(name.skip(name.len() - 5) == ".part"@);
        assert(name.take(name.len() - 5) + ".part"@ =~= name);
    }
    if !remux_output_name(name).0 {
        assert(remux_output_name(name).1.len() == name.len() + 5);
    }
}

/// What stopping a recording does after the remux has run.
pub enum AfterRemux {
    /// Remux worked on a partial file: delete the raw file, keep the output.
    KeepOutput,
    /// Remux worked on a complete file: delete the raw file, move the output
    /// to the raw file's place, and give that place.
    ReplaceRaw,
    /// Remux failed on a partial file: delete the output, then rename the raw
    /// file to the output's name; give that name if the rename worked, else
    /// the raw file.
    RenameRaw,
    /// Remux failed on a complete file: delete the output, give the raw file.
    KeepRaw,
}

pub fn after_remux(is_part: bool, remux_ok: bool) -> (r: AfterRemux)
    ensures
        remux_ok && is_part ==> r is KeepOutput,
        remux_ok && !is_part ==> r is ReplaceRaw,
        !remux_ok && is_part ==> r is RenameRaw,
        !remux_ok && !is_part ==> r is KeepRaw,
{
    if remux_ok {
        if is_part {
            AfterRemux::KeepOutput
        } else {
            AfterRemux::ReplaceRaw
        }
    } else if is_part {
        AfterRemux::RenameRaw
    } else {
        AfterRemux::KeepRaw
    }
}

/// The name of the temporary JPEG that a frame of `download_id` is grabbed
/// into.
pub fn preview_file_name(download_id: &String) -> (r: String)
    ensures
        r@ == "dnit_preview_"@ + download_id@ + ".jpg"@,
{
    let a = concat("dnit_preview_", download_id.as_str());
    concat(a.as_str(), ".jpg")
}

/// Whether the first, seeking grab of a frame counts: ffmpeg succeeded and
/// the file it wrote is not empty.
pub fn frame_captured(ffmpeg_ok: bool, file_len: Option<u64>) -> (r: bool)
    ensures
        r == (ffmpeg_ok && (file_len matches Some(n) && n > 0)),
{
    ffmpeg_ok && match file_len {
        Some(n) => n > 0,
        None => false,
    }
}

fn push_str(v: &mut Vec<String>, s: &str)
    ensures
        views(final(v)@) == views(old(v)@).push(s@),
{
    let ghost before = v@;
    v.push(s.to_string());
    assert(views(v@) =~= views(before).push(s@));
}

/// The ffmpeg arguments that stream a recording as MJPEG for the live
/// preview: from a minute before its end, at its own pace, 15 frames a second,
/// 640 pixels wide, to stdout.
pub fn preview_ffmpeg_args(recording: &String) -> (r: Vec<String>)
    ensures
        views(r@) == seq![
            "-y"@,
            "-sseof"@,
            "-60"@,
            "-re"@,
            "-i"@,
            recording@,
            "-an"@,
            "-vf"@,
            "fps=15,scale=640:-1"@,
            "-f"@,
            "mpjpeg"@,
            "pipe:1"@,
        ],
{
    let mut v: Vec<String> = Vec::new();
    push_str(&mut v, "-y");
    push_str(&mut v, "-sseof");
    push_str(&mut v, "-60");
    push_str(&mut v, "-re");
    push_str(&mut v, "-i");
    push_str(&mut v, recording.as_str());
    push_str(&mut v, "-an");
    push_str(&mut v, "-vf");
    push_str(&mut v, "fps=15,scale=640:-1");
    push_str(&mut v, "-f");
    push_str(&mut v, "mpjpeg");
    push_str(&mut v, "pipe:1");
    assert(views(v@) =~= seq![
        "-y"@,
        "-sseof"@,
        "-60"@,
        "-re"@,
        "-i"@,
        recording@,
        "-an"@,
        "-vf"@,
        "fps=15,scale=640:-1"@,
        "-f"@,
        "mpjpeg"@,
        "pipe:1"@,
    ]);
    v
}

/// What the preview server has just seen.
pub enum PreviewEvent {
    /// A browser has connected, or a wait is over: time to (re)start ffmpeg.
    Begin,
    /// ffmpeg could not be started.
    SpawnFailed,
    /// ffmpeg's stream ended; `client_gone` when writing to the browser
    /// failed.
    StreamEnded { client_gone: bool },
}

/// What the preview server does next.
pub enum PreviewAction {
    Stop,
    RunFfmpeg,
    /// Wait this many milliseconds, then begin again.
    WaitThenRetry(u64),
    /// Wait this many milliseconds, then start ffmpeg again.
    WaitThenRestart(u64),
}

/// One step of the preview server: it stops once the preview has left the
/// table or the browser has gone; a failed start is retried after 2 s, an
/// ended stream restarted after 300 ms.
pub fn preview_step(previews: &Registry<u32>, download_id: &String, event: PreviewEvent) -> (r:
    PreviewAction)
    ensures
        !previews@.contains_key(download_id@) ==> r is Stop,
        previews@.contains_key(download_id@) ==> match event {
            PreviewEvent::Begin => r is RunFfmpeg,
            PreviewEvent::SpawnFailed => r matches PreviewAction::WaitThenRetry(ms) && ms == 2000,
            PreviewEvent::StreamEnded { client_gone } => if client_gone {
                r is Stop
            } else {
                r matches PreviewAction::WaitThenRestart(ms) && ms == 300
            },
        },
{
    if !previews.contains_key(download_id) {
        return PreviewAction::Stop;
    }
    match event {
        PreviewEvent::Begin => PreviewAction::RunFfmpeg,
        PreviewEvent::SpawnFailed => PreviewAction::WaitThenRetry(2000),
        PreviewEvent::StreamEnded { client_gone } => if client_gone {
            PreviewAction::Stop
        } else {
            PreviewAction::WaitThenRestart(300)
        },
    }
}

/// The ffmpeg arguments that grab one frame of a recording into `output`,
/// 640 pixels wide: with `seek`, from ten seconds before its end (the latest
/// frame); without, the first frame it can decode.
pub fn frame_grab_args(recording: &String, output: &String, seek: bool) -> (r: Vec<String>)
    ensures
        views(r@) == (if seek {
            seq!["-y"@, "-sseof"@, "-10"@]
        } else {
            seq!["-y"@]
        }) + seq![
            "-i"@,
            recording@,
            "-an"@,
            "-vframes"@,
            "1"@,
            "-vf"@,
            "scale=640:-1"@,
            output@,
        ],
{
    let mut v: Vec<String> = Vec::new();
    push_str(&mut v, "-y");
    if seek {
        push_str(&mut v, "-sseof");
        push_str(&mut v, "-10");
    }
    push_str(&mut v, "-i");
    push_str(&mut v, recording.as_str());
    push_str(&mut v, "-an");
    push_str(&mut v, "-vframes");
    push_str(&mut v, "1");
    push_str(&mut v, "-vf");
    push_str(&mut v, "scale=640:-1");
    push_str(&mut v, output.as_str());
    assert(views(v@) =~= (if seek {
        seq!["-y"@, "-sseof"@, "-10"@]
    } else {
        seq!["-y"@]
    }) + seq![
        "-i"@,
        recording@,
        "-an"@,
        "-vframes"@,
        "1"@,
        "-vf"@,
        "scale=640:-1"@,
        output@,
    ]);
    v
}

/// The ffmpeg arguments that repair a recording by copying its streams into
/// a new container.
pub fn remux_args(raw: &String, output: &String) -> (r: Vec<String>)
    ensures
        views(r@) == seq!["-y"@, "-i"@, raw@, "-c"@, "copy"@, output@],
{
    let mut v: Vec<String> = Vec::new();
    push_str(&mut v, "-y");
    push_str(&mut v, "-i");
    push_str(&mut v, raw.as_str());
    push_str(&mut v, "-c");
    push_str(&mut v, "copy");
    push_str(&mut v, output.as_str());
    assert(views(v@) =~= seq!["-y"@, "-i"@, raw@, "-c"@, "copy"@, output@]);
    v
}

/// Where to look for the recording of `download_id`: its directory and
/// snapshot, or the refusal when nothing records under that id.
pub fn recording_source(downloads: &Registry<DownloadEntry>, download_id: &String) -> (r: Result<
    (String, Vec<String>),
    String,
>)
    ensures
        downloads@.contains_key(download_id@) ==> (r matches Ok((dir, snapshot)) && dir@
            == downloads@[download_id@].dir@ && views(snapshot@) == views(
            downloads@[download_id@].snapshot@,
        )),
        !downloads@.contains_key(download_id@) ==> (r matches Err(e) && e@
            == "No active recording"@),
{
    match downloads.get(download_id) {
        Some(e) => {
            let mut snap: Vec<String> = Vec::new();
            let mut i: usize = 0;
            while i < e.snapshot.len()
                invariant
                    i <= e.snapshot@.len(),
                    views(snap@) == views(e.snapshot@).take(i as int),
                decreases e.snapshot.len() - i,
            {
                let ghost before = snap@;
                snap.push(e.snapshot[i].clone());
                assert(views(snap@) =~= views(before).push(e.snapshot@[i as int]@));
                assert(views(e.snapshot@).take(i + 1) =~= views(e.snapshot@).take(i as int).push(
                    e.snapshot@[i as int]@,
                ));
                i = i + 1;
            }
            assert(views(e.snapshot@).take(e.snapshot@.len() as int) =~= views(e.snapshot@));
            Ok((e.dir.clone(), snap))
        },
        None => Err("No active recording".to_string()),
    }
}

/// The recording found in its directory, or the refusal when there is none.
pub fn recording_file(found: Option<usize>) -> (r: Result<usize, String>)
    ensures
        match found {
            Some(i) => r == Ok::<usize, String>(i),
            None => r matches Err(e) && e@ == "Recording file not found"@,
        },
{
    match found {
        Some(i) => Ok(i),
        None => Err("Recording file not found".to_string()),
    }
}

/// Which file a stopped recording ends as.
pub enum RecordingPick {
    /// The remuxed (or renamed) output file.
    Output,
    /// The recorded file, where it was.
    Raw,
}

/// The file that stopping a recording gives, after `after_remux`'s step and,
/// for `RenameRaw`, whether the rename worked.
pub fn recording_pick(step: AfterRemux, rename_ok: bool) -> (r: RecordingPick)
    ensures
        step is KeepOutput ==> r is Output,
        step is ReplaceRaw ==> r is Raw,
        step is RenameRaw ==> (if rename_ok {
            r is Output
        } else {
            r is Raw
        }),
        step is KeepRaw ==> r is Raw,
{
    match step {
        AfterRemux::KeepOutput => RecordingPick::Output,
        AfterRemux::ReplaceRaw => RecordingPick::Raw,
        AfterRemux::RenameRaw => if rename_ok {
            RecordingPick::Output
        } else {
            RecordingPick::Raw
        },
        AfterRemux::KeepRaw => RecordingPick::Raw,
    }
}

} // verus!
