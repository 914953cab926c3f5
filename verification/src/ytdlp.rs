//! Running yt-dlp: which executable, with which arguments, what its output
//! lines mean, and what a finished run reports.
use vstd::prelude::*;
use crate::text::{
    chars_of, concat, contains_chars, decimal_i32, decimal_int, first_index_of, has_infix, is_blank,
    has_prefix, last_word, last_word_bounds, lossy_string, opt_view, split_on, starts_with_chars,
    string_of_range, trim, trim_string, utf8_lossy, views,
};

verus! {

/// A URL that is nothing but white space is refused.
pub fn check_url(url: &String) -> (r: Result<(), String>)
    ensures
        trim(url@).len() == 0 ==> (r matches Err(e) && e@ == "URL cannot be empty"@),
        trim(url@).len() != 0 ==> r is Ok,
{
    if is_blank(url.as_str()) {
        Err("URL cannot be empty".to_string())
    } else {
        Ok(())
    }
}

/// A copy of a tool: its path and whether the file exists.
pub struct ToolCopy {
    pub path: String,
    pub present: bool,
}

/// The yt-dlp to run: a copy next to the application (`yt-dlp`, then `ytd`)
/// first, then the managed copy that setup downloaded, and else `yt-dlp`
/// from the system path.
pub open spec fn chosen_ytdlp(next_to_app: ToolCopy, next_to_app_short: ToolCopy, managed: ToolCopy) -> Seq<
    char,
> {
    if next_to_app.present {
        next_to_app.path@
    } else if next_to_app_short.present {
        next_to_app_short.path@
    } else if managed.present {
        managed.path@
    } else {
        "yt-dlp"@
    }
}

/// See `chosen_ytdlp`.
pub fn get_ytdlp_command(next_to_app: &ToolCopy, next_to_app_short: &ToolCopy, managed: &ToolCopy) -> (r:
    String)
    ensures
        r@ == chosen_ytdlp(*next_to_app, *next_to_app_short, *managed),
{
    if next_to_app.present {
        next_to_app.path.clone()
    } else if next_to_app_short.present {
        next_to_app_short.path.clone()
    } else if managed.present {
        managed.path.clone()
    } else {
        "yt-dlp".to_string()
    }
}

/// The ffmpeg to run: the managed copy when it is present, else `ffmpeg`
/// from the system path.
pub fn get_ffmpeg_command(managed: &String, present: bool) -> (r: String)
    ensures
        r@ == (if present {
            managed@
        } else {
            "ffmpeg"@
        }),
{
    if present {
        managed.clone()
    } else {
        "ffmpeg".to_string()
    }
}

pub open spec fn output_template() -> Seq<char> {
    "%(title)s.%(ext)s"@
}

/// Arguments of a plain download: quiet, with the chosen format if any.
pub open spec fn plain_download_args(format: Option<Seq<char>>, url: Seq<char>) -> Seq<Seq<char>> {
    seq!["--quiet"@, "--no-warnings"@, "--no-update"@] + match format {
        Some(f) => seq!["-f"@, f],
        None => Seq::<Seq<char>>::empty(),
    } + seq!["-o"@, output_template(), url]
}

/// Arguments of a download that reports progress line by line: audio only
/// extracts MP3 from the best audio; otherwise the chosen format if any.
pub open spec fn streaming_download_args(
    audio_only: bool,
    format: Option<Seq<char>>,
    url: Seq<char>,
) -> Seq<Seq<char>> {
    seq!["--progress"@, "--no-warnings"@, "--no-update"@, "--newline"@] + if audio_only {
        seq!["-f"@, "bestaudio/best"@, "-x"@, "--audio-format"@, "mp3"@]
    } else {
        match format {
            Some(f) => seq!["-f"@, f],
            None => Seq::<Seq<char>>::empty(),
        }
    } + seq!["-o"@, output_template(), url]
}

fn push_str(v: &mut Vec<String>, s: &str)
    ensures
        views(final(v)@) == views(old(v)@).push(s@),
{
    let ghost before = v@;
    v.push(s.to_string());
    assert(views(v@) =~= views(before).push(s@));
}

pub fn download_video_args(format: Option<String>, url: &String) -> (r: Vec<String>)
    ensures
        views(r@) == plain_download_args(opt_view(format), url@),
{
    let mut v: Vec<String> = Vec::new();
    push_str(&mut v, "--quiet");
    push_str(&mut v, "--no-warnings");
    push_str(&mut v, "--no-update");
    let ghost mid = views(v@);
    match &format {
        Some(f) => {
            push_str(&mut v, "-f");
            push_str(&mut v, f.as_str());
        },
        None => {},
    }
    let ghost fmt = views(v@);
    push_str(&mut v, "-o");
    push_str(&mut v, "%(title)s.%(ext)s");
    push_str(&mut v, url.as_str());
    assert(views(v@) =~= plain_download_args(opt_view(format), url@));
    v
}

pub fn stream_download_args(audio_only: bool, format: Option<String>, url: &String) -> (r: Vec<String>)
    ensures
        views(r@) == streaming_download_args(audio_only, opt_view(format), url@),
{
    let mut v: Vec<String> = Vec::new();
    push_str(&mut v, "--progress");
    push_str(&mut v, "--no-warnings");
    push_str(&mut v, "--no-update");
    push_str(&mut v, "--newline");
    if audio_only {
        push_str(&mut v, "-f");
        push_str(&mut v, "bestaudio/best");
        push_str(&mut v, "-x");
        push_str(&mut v, "--audio-format");
        push_str(&mut v, "mp3");
    } else {
        match &format {
            Some(f) => {
                push_str(&mut v, "-f");
                push_str(&mut v, f.as_str());
            },
            None => {},
        }
    }
    push_str(&mut v, "-o");
    push_str(&mut v, "%(title)s.%(ext)s");
    push_str(&mut v, url.as_str());
    assert(views(v@) =~= streaming_download_args(audio_only, opt_view(format), url@));
    v
}

/// "✓ Video downloaded successfully to: <dir>".
pub fn download_success_message(target: &String) -> (r: String)
    ensures
        r@ == "✓ Video downloaded successfully to: "@ + target@,
{
    concat("✓ Video downloaded successfully to: ", target.as_str())
}

/// The exit code as reported, -1 when the process had none.
pub open spec fn reported_code(code: Option<i32>) -> int {
    match code {
        Some(c) => c as int,
        None => -1,
    }
}

/// "Download failed with exit code: <code>".
pub fn exit_code_message(code: Option<i32>) -> (r: String)
    ensures
        r@ == "Download failed with exit code: "@ + decimal_int(reported_code(code)),
{
    let c: i32 = match code {
        Some(c) => c,
        None => -1,
    };
    let d = decimal_i32(c);
    concat("Download failed with exit code: ", d.as_str())
}

/// The outcome of a plain download: success names the directory; a failure
/// gives the first line yt-dlp wrote to stderr, trimmed, or the exit code when
/// it wrote nothing.
pub fn download_video_result(success: bool, code: Option<i32>, first_error_line: &String, target: &String) -> (r:
    Result<String, String>)
    ensures
        success ==> (r matches Ok(m) && m@ == "✓ Video downloaded successfully to: "@ + target@),
        !success && first_error_line@.len() == 0 ==> (r matches Err(e) && e@
            == "Download failed with exit code: "@ + decimal_int(reported_code(code))),
        !success && first_error_line@.len() != 0 ==> (r matches Err(e) && e@ == trim(
            first_error_line@,
        )),
{
    if success {
        Ok(download_success_message(target))
    } else if first_error_line.as_str().is_empty() {
        Err(exit_code_message(code))
    } else {
        Err(trim_string(first_error_line.as_str()))
    }
}

/// The outcome of a streaming download once yt-dlp has exited: when pause or
/// cancel took the download out of the table first, neither success nor
/// failure is reported.
pub fn stream_download_result(still_registered: bool, success: bool, code: Option<i32>, target: &String) -> (r:
    Result<String, String>)
    ensures
        !still_registered ==> (r matches Err(e) && e@ == "Download was paused or cancelled"@),
        still_registered && success ==> (r matches Ok(m) && m@
            == "✓ Video downloaded successfully to: "@ + target@),
        still_registered && !success ==> (r matches Err(e) && e@
            == "Download failed with exit code: "@ + decimal_int(reported_code(code))),
{
    if !still_registered {
        Err("Download was paused or cancelled".to_string())
    } else if success {
        Ok(download_success_message(target))
    } else {
        Err(exit_code_message(code))
    }
}

/// What a line of yt-dlp's progress output means.
pub enum LineEvent {
    /// Nothing but white space.
    Blank,
    /// A `[download]` line with a `%`: the last word before the first `%`
    /// (the percentage, if it reads as a number) and the trimmed line.
    Progress { percent: Option<String>, status: String },
    /// ffmpeg is merging the streams.
    Merging,
    /// Any other line, trimmed.
    Status(String),
}

pub open spec fn line_kind(t: Seq<char>) -> int {
    if t.len() == 0 {
        0
    } else if has_infix(t, "[download]"@) && has_infix(t, "%"@) {
        1
    } else if has_infix(t, "[ffmpeg]"@) {
        2
    } else {
        3
    }
}

/// Reads one line of output (its raw bytes, decoded leniently).
pub fn classify_output_line(raw: &Vec<u8>) -> (r: LineEvent)
    ensures
        ({
            let t = trim(utf8_lossy(raw@));
            &&& line_kind(t) == 0 ==> r is Blank
            &&& line_kind(t) == 1 ==> (r matches LineEvent::Progress { percent, status } && status@
                == t && opt_view(percent) == last_word(split_on(t, '%')[0]))
            &&& line_kind(t) == 2 ==> r is Merging
            &&& line_kind(t) == 3 ==> (r matches LineEvent::Status(s) && s@ == t)
        }),
{
    let line = lossy_string(raw.as_slice());
    let t = trim_string(line.as_str());
    let v = chars_of(t.as_str());
    if v.len() == 0 {
        return LineEvent::Blank;
    }
    let dl = chars_of("[download]");
    let pct = chars_of("%");
    let ff = chars_of("[ffmpeg]");
    if contains_chars(v.as_slice(), dl.as_slice()) && contains_chars(v.as_slice(), pct.as_slice()) {
        let p = first_index_of(v.as_slice(), '%');
        let percent = match last_word_bounds(v.as_slice(), p) {
            Some((k, j)) => Some(string_of_range(v.as_slice(), k, j)),
            None => None,
        };
        LineEvent::Progress { percent, status: t }
    } else if contains_chars(v.as_slice(), ff.as_slice()) {
        LineEvent::Merging
    } else {
        LineEvent::Status(t)
    }
}

/// yt-dlp arguments that dump one JSON record per playlist entry, without
/// resolving the entries.
pub fn playlist_args(url: &String) -> (r: Vec<String>)
    ensures
        views(r@) == seq!["--flat-playlist"@, "--dump-json"@, "--no-warnings"@, "--no-update"@, url@],
{
    let mut v: Vec<String> = Vec::new();
    push_str(&mut v, "--flat-playlist");
    push_str(&mut v, "--dump-json");
    push_str(&mut v, "--no-warnings");
    push_str(&mut v, "--no-update");
    push_str(&mut v, url.as_str());
    assert(views(v@) =~= seq!["--flat-playlist"@, "--dump-json"@, "--no-warnings"@, "--no-update"@, url@]);
    v
}

/// yt-dlp arguments that dump the JSON record of one video.
pub fn video_info_args(url: &String) -> (r: Vec<String>)
    ensures
        views(r@) == seq!["--dump-json"@, "--no-playlist"@, "--no-warnings"@, url@],
{
    let mut v: Vec<String> = Vec::new();
    push_str(&mut v, "--dump-json");
    push_str(&mut v, "--no-playlist");
    push_str(&mut v, "--no-warnings");
    push_str(&mut v, url.as_str());
    assert(views(v@) =~= seq!["--dump-json"@, "--no-playlist"@, "--no-warnings"@, url@]);
    v
}

/// yt-dlp arguments that list the formats of one video, the output shown as
/// it comes.
pub fn formats_listing_args(url: &String) -> (r: Vec<String>)
    ensures
        views(r@) == seq!["-F"@, "--no-playlist"@, "--no-warnings"@, url@],
{
    let mut v: Vec<String> = Vec::new();
    push_str(&mut v, "-F");
    push_str(&mut v, "--no-playlist");
    push_str(&mut v, "--no-warnings");
    push_str(&mut v, url.as_str());
    assert(views(v@) =~= seq!["-F"@, "--no-playlist"@, "--no-warnings"@, url@]);
    v
}

/// yt-dlp arguments that list the formats in one go.
pub fn formats_quick_args(url: &String) -> (r: Vec<String>)
    ensures
        views(r@) == seq!["-F"@, url@],
{
    let mut v: Vec<String> = Vec::new();
    push_str(&mut v, "-F");
    push_str(&mut v, url.as_str());
    assert(views(v@) =~= seq!["-F"@, url@]);
    v
}

/// The file that a `[download] Destination: <file>` line (as trimmed)
/// says yt-dlp is about to write; `None` for any other line.
pub open spec fn announced_destination(t: Seq<char>) -> Option<Seq<char>> {
    if has_prefix(t, "[download] Destination: "@) {
        Some(t.skip("[download] Destination: "@.len() as int))
    } else {
        None
    }
}

/// See `announced_destination`.
pub fn destination_of(line: &String) -> (r: Option<String>)
    ensures
        opt_view(r) == announced_destination(line@),
{
    let v = chars_of(line.as_str());
    let p = chars_of("[download] Destination: ");
    if starts_with_chars(v.as_slice(), p.as_slice()) {
        let d = string_of_range(v.as_slice(), p.len(), v.len());
        assert(v@.subrange(p@.len() as int, v@.len() as int) =~= v@.skip(p@.len() as int));
        Some(d)
    } else {
        None
    }
}

/// "Download directory does not exist: <dir>".
pub fn missing_directory_message(dir: &String) -> (r: String)
    ensures
        r@ == "Download directory does not exist: "@ + dir@,
{
    concat("Download directory does not exist: ", dir.as_str())
}

/// What the quiet download reports when yt-dlp cannot be started.
pub fn start_failure_message(error: &String) -> (r: String)
    ensures
        r@ == "yt-dlp not found or failed to start: "@ + error@
            + ". Place 'yt-dlp.exe' or 'ytd.exe' in the app directory, or ensure yt-dlp is in your system PATH."@,
{
    let head = concat("yt-dlp not found or failed to start: ", error.as_str());
    concat(
        head.as_str(),
        ". Place 'yt-dlp.exe' or 'ytd.exe' in the app directory, or ensure yt-dlp is in your system PATH.",
    )
}

/// Audio-only downloads always extract the best audio to MP3, whatever
/// format was picked (or none): the arguments then do not depend on the
/// format at all. Otherwise a picked format is passed with `-f`, and without
/// one yt-dlp chooses; the URL always comes last, after the output template.
pub proof fn law_stream_download_args(f1: Option<Seq<char>>, f2: Option<Seq<char>>, url: Seq<char>)
    ensures
        streaming_download_args(true, f1, url) == streaming_download_args(true, f2, url),
        streaming_download_args(true, f1, url).subrange(4, 9) == seq![
            "-f"@,
            "bestaudio/best"@,
            "-x"@,
            "--audio-format"@,
            "mp3"@,
        ],
        streaming_download_args(true, f1, url).contains("-x"@),
        streaming_download_args(true, f1, url).contains("mp3"@),
        forall|f: Seq<char>|
            #![trigger streaming_download_args(false, Some(f), url)]
            streaming_download_args(false, Some(f), url).subrange(4, 6) == seq!["-f"@, f],
        streaming_download_args(false, None, url).len() == 7,
        !streaming_download_args(false, None, url).subrange(0, 4).contains("-f"@),
        streaming_download_args(true, f1, url).last() == url,
        streaming_download_args(false, f1, url).last() == url,
{
    let a = streaming_download_args(true, f1, url);
    assert(a[6] == "-x"@);
    assert(a[8] == "mp3"@);
    assert(a.subrange(4, 9) =~= seq!["-f"@, "bestaudio/best"@, "-x"@, "--audio-format"@, "mp3"@]);
    assert forall|f: Seq<char>|
        #![trigger streaming_download_args(false, Some(f), url)]
        streaming_download_args(false, Some(f), url).subrange(4, 6) == seq!["-f"@, f] by {
        assert(streaming_download_args(false, Some(f), url).subrange(4, 6) =~= seq!["-f"@, f]);
    }
    let n = streaming_download_args(false, None, url);
    reveal_strlit("-f");
    reveal_strlit("--progress");
    reveal_strlit("--no-warnings");
    reveal_strlit("--no-update");
    reveal_strlit("--newline");
    assert(n.subrange(0, 4) =~= seq!["--progress"@, "--no-warnings"@, "--no-update"@, "--newline"@]);
    assert(!n.subrange(0, 4).contains("-f"@)) by {
        if n.subrange(0, 4).contains("-f"@) {
            let k = choose|k: int| 0 <= k < 4 && n.subrange(0, 4)[k] == "-f"@;
            assert(n.subrange(0, 4)[k].len() != 2);
        }
    }
}

/// The copy of yt-dlp next to the program wins whenever it is there, whatever
/// else is; then the short copy next to the program; then the managed copy;
/// the bare name `yt-dlp` (looked up on the PATH) only when none is there.
pub proof fn law_ytdlp_choice(a: ToolCopy, b: ToolCopy, m: ToolCopy)
    ensures
        a.present ==> chosen_ytdlp(a, b, m) == a.path@,
        !a.present && b.present ==> chosen_ytdlp(a, b, m) == b.path@,
        !a.present && !b.present && m.present ==> chosen_ytdlp(a, b, m) == m.path@,
        !a.present && !b.present && !m.present ==> chosen_ytdlp(a, b, m) == "yt-dlp"@,
        chosen_ytdlp(a, b, m) == a.path@ || chosen_ytdlp(a, b, m) == b.path@ || chosen_ytdlp(a, b, m)
            == m.path@ || chosen_ytdlp(a, b, m) == "yt-dlp"@,
        forall|m2: ToolCopy| #![trigger chosen_ytdlp(a, b, m2)]
            (a.present || b.present) ==> chosen_ytdlp(a, b, m2) == chosen_ytdlp(a, b, m),
{
}

/// Every line that mentions `[download]` and a `%` is a progress line, what
/// else it says notwithstanding; a progress line is one that mentions both.
pub proof fn law_progress_lines(t: Seq<char>)
    ensures
        has_infix(t, "[download]"@) && has_infix(t, "%"@) ==> line_kind(t) == 1,
        line_kind(t) == 1 ==> has_infix(t, "[download]"@) && has_infix(t, "%"@),
        line_kind(t) == 0 <==> t.len() == 0,
{
    if has_infix(t, "%"@) {
        let i = choose|i: int| 0 <= i && i + "%"@.len() <= t.len() && #[trigger] t.subrange(i, i + "%"@.len()) == "%"@;
        reveal_strlit("%");
        assert(t.len() >= 1);
    }
}

} // verus!
