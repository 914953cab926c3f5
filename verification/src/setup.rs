//! Setting up the managed tools: which are present, where the ffmpeg build
//! is downloaded from, and which file of its archive is the program.
use vstd::prelude::*;
use crate::json::{
    array_member_item, array_member_len, json_array_member_item, json_array_member_len,
    json_str_member, str_member,
};
use crate::text::{
    chars_of, contains_chars, ends_with_chars, has_infix, has_suffix, lowercase, string_of,
    to_lowercase,
};

verus! {

/// Which of the two managed tools are present.
pub struct DepsStatus {
    pub ytdlp: bool,
    pub ffmpeg: bool,
}

/// The status from whether the managed `yt-dlp` and `ffmpeg` files exist.
pub fn check_deps_status(ytdlp_present: bool, ffmpeg_present: bool) -> (status: DepsStatus)
    ensures
        status.ytdlp == ytdlp_present,
        status.ffmpeg == ffmpeg_present,
{
    DepsStatus { ytdlp: ytdlp_present, ffmpeg: ffmpeg_present }
}

/// The release asset to take: the static (not `shared`) 64-bit Windows GPL
/// build, packed as a zip.
pub open spec fn is_win64_gpl_zip(name: Seq<char>) -> bool {
    has_infix(name, "win64-gpl"@) && has_suffix(name, ".zip"@) && !has_infix(name, "shared"@)
}

/// The `name` of asset `i` of a release, empty when it has none.
pub open spec fn asset_name(release: Seq<char>, i: nat) -> Seq<char> {
    match json_array_member_item(release, "assets"@, i) {
        Some(a) => match json_str_member(a, "name"@) {
            Some(n) => n,
            None => Seq::<char>::empty(),
        },
        None => Seq::<char>::empty(),
    }
}

/// The first of the assets `i..n` whose name `is_win64_gpl_zip`.
pub open spec fn first_ffmpeg_asset(release: Seq<char>, i: nat, n: nat) -> Option<nat>
    decreases n - i,
{
    if i >= n {
        None
    } else if is_win64_gpl_zip(asset_name(release, i)) {
        Some(i)
    } else {
        first_ffmpeg_asset(release, i + 1, n)
    }
}

/// The download URL of the ffmpeg build in the JSON of the latest release.
pub open spec fn ffmpeg_download_url(release: Seq<char>) -> Result<Seq<char>, Seq<char>> {
    match json_array_member_len(release, "assets"@) {
        None => Err("No assets in release"@),
        Some(n) => match first_ffmpeg_asset(release, 0, n) {
            None => Err("ffmpeg release asset not found"@),
            Some(i) => match json_array_member_item(release, "assets"@, i) {
                Some(a) => match json_str_member(a, "browser_download_url"@) {
                    Some(u) => Ok(u),
                    None => Err("No download URL"@),
                },
                None => Err("No download URL"@),
            },
        },
    }
}

fn is_win64_gpl_zip_name(name: &String) -> (r: bool)
    ensures
        r == is_win64_gpl_zip(name@),
{
    let v = chars_of(name.as_str());
    let a = chars_of("win64-gpl");
    let b = chars_of(".zip");
    let c = chars_of("shared");
    contains_chars(v.as_slice(), a.as_slice()) && ends_with_chars(v.as_slice(), b.as_slice())
        && !contains_chars(v.as_slice(), c.as_slice())
}

/// Picks the ffmpeg build out of the JSON of the latest release.
pub fn get_ffmpeg_download_url(release: &String) -> (r: Result<String, String>)
    ensures
        match (r, ffmpeg_download_url(release@)) {
            (Ok(u), Ok(v)) => u@ == v,
            (Err(e), Err(m)) => e@ == m,
            _ => false,
        },
{
    let n = match array_member_len(release.as_str(), "assets") {
        Some(n) => n,
        None => {
            return Err("No assets in release".to_string());
        },
    };
    let mut i: usize = 0;
    while i < n
        invariant
            i <= n,
            json_array_member_len(release@, "assets"@) == Some(n as nat),
            first_ffmpeg_asset(release@, 0, n as nat) == first_ffmpeg_asset(
                release@,
                i as nat,
                n as nat,
            ),
        decreases n - i,
    {
        let item = array_member_item(release.as_str(), "assets", i);
        let name = match &item {
            Some(a) => match str_member(a.as_str(), "name") {
                Some(s) => s,
                None => String::new(),
            },
            None => String::new(),
        };
        assert(name@ == asset_name(release@, i as nat));
        if is_win64_gpl_zip_name(&name) {
            return match item {
                Some(a) => match str_member(a.as_str(), "browser_download_url") {
                    Some(u) => Ok(u),
                    None => Err("No download URL".to_string()),
                },
                None => Err("No download URL".to_string()),
            };
        }
        i = i + 1;
    }
    Err("ffmpeg release asset not found".to_string())
}

/// `\` turned into `/`.
pub open spec fn forward_slashes(s: Seq<char>) -> Seq<char> {
    s.map_values(|c: char| if c == '\\' { '/' } else { c })
}

/// Whether an archive entry is the ffmpeg program: its name, with `\` read
/// as `/` and lowercased, ends with `bin/ffmpeg.exe`.
pub fn is_ffmpeg_binary_entry(name: &String) -> (r: bool)
    ensures
        r == has_suffix(lowercase(forward_slashes(name@)), "bin/ffmpeg.exe"@),
{
    let v = chars_of(name.as_str());
    let mut w: Vec<char> = Vec::new();
    let mut i: usize = 0;
    while i < v.len()
        invariant
            i <= v@.len(),
            w@ == forward_slashes(v@.take(i as int)),
        decreases v.len() - i,
    {
        let c = if v[i] == '\\' {
            '/'
        } else {
            v[i]
        };
        w.push(c);
        i = i + 1;
        assert(w@ =~= forward_slashes(v@.take(i as int)));
    }
    assert(v@.take(v@.len() as int) =~= v@);
    let replaced = string_of(w.as_slice());
    let lower = to_lowercase(replaced.as_str());
    let l = chars_of(lower.as_str());
    let target = chars_of("bin/ffmpeg.exe");
    ends_with_chars(l.as_slice(), target.as_slice())
}

} // verus!
