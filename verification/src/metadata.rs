//! What yt-dlp's listing and JSON output are read into: the format table, the
//! entries of a playlist, and the details of one video.
use vstd::prelude::*;
use crate::json::{
    bool_member, i64_member, json_bool_member, json_i64_member, json_str_member, json_syntax_error,
    json_u64_member, str_member, syntax_error, u64_member,
};
use crate::text::{
    chars_of, concat, decimal_i32, decimal_int, has_prefix, join_terminated, join_with, joined,
    lines, lines_of, lossy_string, newline_terminated, opt_view, segments, byte_segments,
    str_starts_with, trim, trim_end_cr, trim_end_cr_string, trim_string, utf8_lossy, views,
    byte_views, is_blank,
};

verus! {

/// The lines of a listing that are shown: each newline-separated piece,
/// decoded leniently, without trailing carriage returns, empty ones left out.
pub open spec fn shown_lines(segs: Seq<Seq<u8>>) -> Seq<Seq<char>>
    decreases segs.len(),
{
    if segs.len() == 0 {
        Seq::<Seq<char>>::empty()
    } else {
        let r = shown_lines(segs.drop_last());
        let l = trim_end_cr(utf8_lossy(segs.last()));
        if l.len() > 0 {
            r.push(l)
        } else {
            r
        }
    }
}

/// The shown lines of raw output.
pub fn output_lines(out: &Vec<u8>) -> (r: Vec<String>)
    ensures
        views(r@) == shown_lines(byte_segments(out@)),
{
    let segs = segments(out.as_slice());
    let mut r: Vec<String> = Vec::new();
    let mut i: usize = 0;
    while i < segs.len()
        invariant
            i <= segs@.len(),
            byte_views(segs@) == byte_segments(out@),
            views(r@) == shown_lines(byte_views(segs@).take(i as int)),
        decreases segs.len() - i,
    {
        assert(byte_views(segs@).take(i + 1).drop_last() =~= byte_views(segs@).take(i as int));
        assert(byte_views(segs@).take(i + 1).last() == segs@[i as int]@);
        let line = lossy_string(segs[i].as_slice());
        let l = trim_end_cr_string(line.as_str());
        if !l.as_str().is_empty() {
            let ghost before = r@;
            r.push(l);
            assert(views(r@) =~= views(before).push(l@));
        }
        i = i + 1;
    }
    assert(byte_views(segs@).take(segs@.len() as int) =~= byte_views(segs@));
    r
}

/// The shown stdout lines, then, if stderr showed any, an empty line and the
/// stderr lines; every line ends with a newline.
pub open spec fn combined_listing(out: Seq<Seq<char>>, err: Seq<Seq<char>>) -> Seq<char> {
    if newline_terminated(err).len() == 0 {
        newline_terminated(out)
    } else {
        newline_terminated(out) + seq!['\n'] + newline_terminated(err)
    }
}

pub fn combined_output(out_lines: &Vec<String>, err_lines: &Vec<String>) -> (r: String)
    ensures
        r@ == combined_listing(views(out_lines@), views(err_lines@)),
{
    let a = join_terminated(out_lines);
    let b = join_terminated(err_lines);
    if b.as_str().is_empty() {
        a
    } else {
        let mut r = a;
        r.push('\n');
        r.append(b.as_str());
        r
    }
}

/// "❌ Command failed with exit code: <code>".
pub fn failure_notice(code: Option<i32>) -> (r: String)
    ensures
        r@ == "❌ Command failed with exit code: "@ + decimal_int(
            crate::ytdlp::reported_code(code),
        ),
{
    let c: i32 = match code {
        Some(c) => c,
        None => -1,
    };
    let d = decimal_i32(c);
    concat("❌ Command failed with exit code: ", d.as_str())
}

/// The outcome of listing the formats with output shown as it comes: the
/// listing on success; on failure the listing, which holds the error, or a
/// notice when there was none.
pub fn formats_stream_result(success: bool, code: Option<i32>, output: String) -> (r: Result<
    String,
    String,
>)
    ensures
        success ==> r == Ok::<String, String>(output),
        !success && output@.len() != 0 ==> r == Err::<String, String>(output),
        !success && output@.len() == 0 ==> (r matches Err(e) && e@ == "❌ Command failed with exit code: "@
            + decimal_int(crate::ytdlp::reported_code(code)) + "\n(No error details available)"@),
{
    if success {
        Ok(output)
    } else if output.as_str().is_empty() {
        let n = failure_notice(code);
        Err(concat(n.as_str(), "\n(No error details available)"))
    } else {
        Err(output)
    }
}

/// The lines that are not empty.
pub open spec fn nonempty_lines(ls: Seq<Seq<char>>) -> Seq<Seq<char>>
    decreases ls.len(),
{
    if ls.len() == 0 {
        Seq::<Seq<char>>::empty()
    } else {
        let r = nonempty_lines(ls.drop_last());
        if ls.last().len() > 0 {
            r.push(ls.last())
        } else {
            r
        }
    }
}

/// `Option<i32>` as `{:?}` writes it.
pub open spec fn debug_code(code: Option<i32>) -> Seq<char> {
    match code {
        Some(c) => "Some("@ + decimal_int(c as int) + ")"@,
        None => "None"@,
    }
}

/// What a failed listing of the formats reports: the first three non-empty
/// lines of stderr joined by " | ", or the exit code when stderr is empty.
pub open spec fn formats_error(code: Option<i32>, err: Seq<char>) -> Seq<char> {
    if err.len() > 0 {
        let ls = nonempty_lines(lines_of(err));
        joined(ls.take(if ls.len() < 3 { ls.len() as int } else { 3 }), " | "@)
    } else {
        "exit code: "@ + debug_code(code)
    }
}

/// The outcome of listing the formats in one go: stdout on success, else the
/// error that `formats_error` describes.
pub fn formats_result(success: bool, code: Option<i32>, stdout: &Vec<u8>, stderr: &Vec<u8>) -> (r:
    Result<String, String>)
    ensures
        success ==> (r matches Ok(o) && o@ == utf8_lossy(stdout@)),
        !success ==> (r matches Err(e) && e@ == formats_error(code, utf8_lossy(stderr@))),
{
    if success {
        return Ok(lossy_string(stdout.as_slice()));
    }
    let err = lossy_string(stderr.as_slice());
    if !err.as_str().is_empty() {
        let all = lines(err.as_str());
        let mut kept: Vec<String> = Vec::new();
        let mut i: usize = 0;
        while i < all.len()
            invariant
                i <= all@.len(),
                views(all@) == lines_of(err@),
                views(kept@) == nonempty_lines(views(all@).take(i as int)),
            decreases all.len() - i,
        {
            assert(views(all@).take(i + 1).drop_last() =~= views(all@).take(i as int));
            assert(views(all@).take(i + 1).last() == all@[i as int]@);
            if !all[i].as_str().is_empty() {
                let ghost before = kept@;
                kept.push(all[i].clone());
                assert(views(kept@) =~= views(before).push(all@[i as int]@));
            }
            i = i + 1;
        }
        assert(views(all@).take(all@.len() as int) =~= views(all@));
        let ghost ls = views(kept@);
        if kept.len() > 3 {
            kept.truncate(3);
        }
        assert(views(kept@) =~= ls.take(if ls.len() < 3 { ls.len() as int } else { 3 }));
        Err(join_with(&kept, " | "))
    } else {
        let detail = match code {
            Some(c) => {
                let d = decimal_i32(c);
                let a = concat("Some(", d.as_str());
                concat(a.as_str(), ")")
            },
            None => "None".to_string(),
        };
        Err(concat("exit code: ", detail.as_str()))
    }
}

/// One entry of a playlist, as read from its JSON record.
pub struct PlaylistEntry {
    pub id: String,
    pub title: String,
    pub url: String,
    pub thumbnail: Option<String>,
    /// The JSON record the entry was read from.
    pub record: String,
}

/// The values of a `PlaylistEntry`.
pub struct PlaylistItem {
    pub id: Seq<char>,
    pub title: Seq<char>,
    pub url: Seq<char>,
    pub thumbnail: Option<Seq<char>>,
    pub record: Seq<char>,
}

impl View for PlaylistEntry {
    type V = PlaylistItem;

    open spec fn view(&self) -> PlaylistItem {
        PlaylistItem {
            id: self.id@,
            title: self.title@,
            url: self.url@,
            thumbnail: opt_view(self.thumbnail),
            record: self.record@,
        }
    }
}

pub open spec fn watch_url(id: Seq<char>) -> Seq<char> {
    "https://www.youtube.com/watch?v="@ + id
}

pub open spec fn thumbnail_url(id: Seq<char>) -> Seq<char> {
    "https://i.ytimg.com/vi/"@ + id + "/mqdefault.jpg"@
}

/// The entry a JSON record stands for: none without a non-empty `id`; the
/// title defaults to the id; a `url` that does not start with `http`, or none,
/// becomes the watch page of the id; the thumbnail defaults to the id's.
pub open spec fn playlist_item(t: Seq<char>) -> Option<PlaylistItem> {
    let id = match json_str_member(t, "id"@) {
        Some(s) => s,
        None => Seq::<char>::empty(),
    };
    if id.len() == 0 {
        None
    } else {
        Some(
            PlaylistItem {
                id: id,
                title: match json_str_member(t, "title"@) {
                    Some(s) => s,
                    None => id,
                },
                url: match json_str_member(t, "url"@) {
                    Some(u) => if has_prefix(u, "http"@) {
                        u
                    } else {
                        watch_url(id)
                    },
                    None => watch_url(id),
                },
                thumbnail: Some(
                    match json_str_member(t, "thumbnail"@) {
                        Some(s) => s,
                        None => thumbnail_url(id),
                    },
                ),
                record: t,
            },
        )
    }
}

/// The entries that the lines of a flat playlist dump stand for, in order:
/// each line trimmed; blank lines and lines without an entry left out.
pub open spec fn playlist_items(ls: Seq<Seq<char>>) -> Seq<PlaylistItem>
    decreases ls.len(),
{
    if ls.len() == 0 {
        Seq::<PlaylistItem>::empty()
    } else {
        let r = playlist_items(ls.drop_last());
        let t = trim(ls.last());
        if t.len() > 0 && playlist_item(t) is Some {
            r.push(playlist_item(t)->0)
        } else {
            r
        }
    }
}

/// The first line that is not blank.
pub open spec fn first_nonblank(ls: Seq<Seq<char>>) -> Option<Seq<char>>
    decreases ls.len(),
{
    if ls.len() == 0 {
        None
    } else if trim(ls[0]).len() > 0 {
        Some(ls[0])
    } else {
        first_nonblank(ls.drop_first())
    }
}

pub open spec fn entry_views(v: Seq<PlaylistEntry>) -> Seq<PlaylistItem> {
    v.map_values(|e: PlaylistEntry| e@)
}

fn playlist_entry(t: &String) -> (r: Option<PlaylistEntry>)
    ensures
        match r {
            Some(e) => playlist_item(t@) == Some(e@),
            None => playlist_item(t@) is None,
        },
{
    let id = match str_member(t.as_str(), "id") {
        Some(s) => s,
        None => String::new(),
    };
    if id.as_str().is_empty() {
        return None;
    }
    let title = match str_member(t.as_str(), "title") {
        Some(s) => s,
        None => id.clone(),
    };
    let url = match str_member(t.as_str(), "url") {
        Some(u) => if str_starts_with(u.as_str(), "http") {
            u
        } else {
            concat("https://www.youtube.com/watch?v=", id.as_str())
        },
        None => concat("https://www.youtube.com/watch?v=", id.as_str()),
    };
    let thumbnail = match str_member(t.as_str(), "thumbnail") {
        Some(s) => s,
        None => {
            let a = concat("https://i.ytimg.com/vi/", id.as_str());
            concat(a.as_str(), "/mqdefault.jpg")
        },
    };
    let e = PlaylistEntry { id, title, url, thumbnail: Some(thumbnail), record: t.clone() };
    assert(playlist_item(t@) == Some(e@));
    Some(e)
}

/// The entries of a flat playlist dump; when there are none, the first
/// non-blank line of stderr, or a notice that the playlist is empty.
pub fn playlist_from_output(stdout: &Vec<u8>, stderr: &Vec<u8>) -> (r: Result<
    Vec<PlaylistEntry>,
    String,
>)
    ensures
        ({
            let items = playlist_items(lines_of(utf8_lossy(stdout@)));
            &&& items.len() > 0 ==> (r matches Ok(v) && entry_views(v@) == items)
            &&& items.len() == 0 ==> (r matches Err(e) && e@ == match first_nonblank(
                lines_of(utf8_lossy(stderr@)),
            ) {
                Some(l) => l,
                None => "No videos found in playlist"@,
            })
        }),
{
    let out = lossy_string(stdout.as_slice());
    let ls = lines(out.as_str());
    let mut entries: Vec<PlaylistEntry> = Vec::new();
    let mut i: usize = 0;
    while i < ls.len()
        invariant
            i <= ls@.len(),
            views(ls@) == lines_of(out@),
            entry_views(entries@) == playlist_items(views(ls@).take(i as int)),
        decreases ls.len() - i,
    {
        assert(views(ls@).take(i + 1).drop_last() =~= views(ls@).take(i as int));
        assert(views(ls@).take(i + 1).last() == ls@[i as int]@);
        let t = trim_string(ls[i].as_str());
        if !t.as_str().is_empty() {
            match playlist_entry(&t) {
                Some(e) => {
                    let ghost before = entries@;
                    entries.push(e);
                    assert(entry_views(entries@) =~= entry_views(before).push(e@));
                },
                None => {},
            }
        }
        i = i + 1;
    }
    assert(views(ls@).take(ls@.len() as int) =~= views(ls@));
    if entries.len() > 0 {
        return Ok(entries);
    }
    assert(playlist_items(lines_of(utf8_lossy(stdout@))).len() == 0);
    let err = lossy_string(stderr.as_slice());
    let el = lines(err.as_str());
    let mut k: usize = 0;
    assert(views(el@).skip(0) =~= views(el@));
    while k < el.len()
        invariant
            k <= el@.len(),
            views(el@) == lines_of(err@),
            err@ == utf8_lossy(stderr@),
            playlist_items(lines_of(utf8_lossy(stdout@))).len() == 0,
            first_nonblank(views(el@)) == first_nonblank(views(el@).skip(k as int)),
        decreases el.len() - k,
    {
        assert(views(el@).skip(k as int).drop_first() =~= views(el@).skip(k + 1));
        assert(views(el@).skip(k as int)[0] == el@[k as int]@);
        if !is_blank(el[k].as_str()) {
            assert(first_nonblank(views(el@).skip(k as int)) == Some(el@[k as int]@));
            return Err(el[k].clone());
        }
        k = k + 1;
    }
    Err("No videos found in playlist".to_string())
}

/// Details of one video, as read from its JSON record (its duration, a
/// float, is read from `record` by the caller).
pub struct VideoInfo {
    pub title: String,
    pub thumbnail: Option<String>,
    pub filesize: Option<i64>,
    pub ext: Option<String>,
    pub width: Option<u64>,
    pub height: Option<u64>,
    pub is_live: Option<bool>,
    /// The JSON record the details were read from.
    pub record: String,
}

/// The values of a `VideoInfo`.
pub struct VideoDetails {
    pub title: Seq<char>,
    pub thumbnail: Option<Seq<char>>,
    pub filesize: Option<i64>,
    pub ext: Option<Seq<char>>,
    pub width: Option<u64>,
    pub height: Option<u64>,
    pub is_live: Option<bool>,
    pub record: Seq<char>,
}

impl View for VideoInfo {
    type V = VideoDetails;

    open spec fn view(&self) -> VideoDetails {
        VideoDetails {
            title: self.title@,
            thumbnail: opt_view(self.thumbnail),
            filesize: self.filesize,
            ext: opt_view(self.ext),
            width: self.width,
            height: self.height,
            is_live: self.is_live,
            record: self.record@,
        }
    }
}

/// The details that a JSON record gives: the title defaults to "Unknown"; the
/// size is `filesize`, else `filesize_approx`.
pub open spec fn video_details(t: Seq<char>) -> VideoDetails {
    VideoDetails {
        title: match json_str_member(t, "title"@) {
            Some(s) => s,
            None => "Unknown"@,
        },
        thumbnail: json_str_member(t, "thumbnail"@),
        filesize: match json_i64_member(t, "filesize"@) {
            Some(n) => Some(n),
            None => json_i64_member(t, "filesize_approx"@),
        },
        ext: json_str_member(t, "ext"@),
        width: json_u64_member(t, "width"@),
        height: json_u64_member(t, "height"@),
        is_live: json_bool_member(t, "is_live"@),
        record: t,
    }
}

/// The details of a video from yt-dlp's JSON dump: a failed run reports the
/// first line of stderr ("Unknown error" when there is none); the first line
/// of stdout ("{}" when there is none) must be JSON.
pub fn video_info_from_output(success: bool, stdout: &Vec<u8>, stderr: &Vec<u8>) -> (r: Result<
    VideoInfo,
    String,
>)
    ensures
        !success ==> (r matches Err(e) && e@ == ({
            let ls = lines_of(utf8_lossy(stderr@));
            if ls.len() > 0 {
                ls[0]
            } else {
                "Unknown error"@
            }
        })),
        success ==> ({
            let ls = lines_of(utf8_lossy(stdout@));
            let first = if ls.len() > 0 {
                ls[0]
            } else {
                "{}"@
            };
            match json_syntax_error(first) {
                Some(m) => r matches Err(e) && e@ == "Failed to parse response: "@ + m,
                None => r matches Ok(info) && info@ == video_details(first),
            }
        }),
{
    if !success {
        let err = lossy_string(stderr.as_slice());
        let el = lines(err.as_str());
        if el.len() > 0 {
            return Err(el[0].clone());
        }
        return Err("Unknown error".to_string());
    }
    let out = lossy_string(stdout.as_slice());
    let ol = lines(out.as_str());
    let first = if ol.len() > 0 {
        ol[0].clone()
    } else {
        "{}".to_string()
    };
    match syntax_error(first.as_str()) {
        Some(m) => {
            return Err(concat("Failed to parse response: ", m.as_str()));
        },
        None => {},
    }
    let title = match str_member(first.as_str(), "title") {
        Some(s) => s,
        None => "Unknown".to_string(),
    };
    let filesize = match i64_member(first.as_str(), "filesize") {
        Some(n) => Some(n),
        None => i64_member(first.as_str(), "filesize_approx"),
    };
    let info = VideoInfo {
        title,
        thumbnail: str_member(first.as_str(), "thumbnail"),
        filesize,
        ext: str_member(first.as_str(), "ext"),
        width: u64_member(first.as_str(), "width"),
        height: u64_member(first.as_str(), "height"),
        is_live: bool_member(first.as_str(), "is_live"),
        record: first,
    };
    Ok(info)
}

/// Every playlist entry has a non-empty id, a URL that starts with `http`,
/// and a thumbnail.
pub proof fn law_playlist_entries_complete(ls: Seq<Seq<char>>)
    ensures
        forall|k: int|
            0 <= k < playlist_items(ls).len() ==> {
                let e = #[trigger] playlist_items(ls)[k];
                &&& e.id.len() > 0
                &&& has_prefix(e.url, "http"@)
                &&& e.thumbnail is Some
            },
    decreases ls.len(),
{
    reveal_strlit("http");
    reveal_strlit("https://www.youtube.com/watch?v=");
    if ls.len() > 0 {
        law_playlist_entries_complete(ls.drop_last());
        let r = playlist_items(ls.drop_last());
        let t = trim(ls.last());
        if t.len() > 0 && playlist_item(t) is Some {
            let e = playlist_item(t)->0;
            let id = e.id;
            assert(watch_url(id).take(4) =~= "http"@);
            assert forall|k: int| 0 <= k < playlist_items(ls).len() implies {
                let e = #[trigger] playlist_items(ls)[k];
                &&& e.id.len() > 0
                &&& has_prefix(e.url, "http"@)
                &&& e.thumbnail is Some
            } by {
                if k < r.len() {
                    assert(playlist_items(ls)[k] == r[k]);
                }
            }
        }
    }
}

/// An entry keeps the `url` member of its record whenever that starts with
/// `http`, whatever site it points to; only a missing `url`, or one that does
/// not start with `http`, is replaced by the watch page of the id.
pub proof fn law_playlist_entry_url(t: Seq<char>)
    ensures
        playlist_item(t) is Some <==> (json_str_member(t, "id"@) is Some && json_str_member(
            t,
            "id"@,
        )->0.len() > 0),
        playlist_item(t) matches Some(e) ==> (json_str_member(t, "url"@) is Some && has_prefix(
            json_str_member(t, "url"@)->0,
            "http"@,
        ) ==> e.url == json_str_member(t, "url"@)->0),
        playlist_item(t) matches Some(e) ==> (!(json_str_member(t, "url"@) is Some && has_prefix(
            json_str_member(t, "url"@)->0,
            "http"@,
        )) ==> e.url == watch_url(e.id)),
        playlist_item(t) matches Some(e) ==> e.id == json_str_member(t, "id"@)->0 && e.record == t,
{
}

} // verus!

