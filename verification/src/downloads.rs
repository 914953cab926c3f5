//! The downloads that are running, and what pausing, cancelling and finishing
//! one does with the table and with the files in its directory.
use vstd::prelude::*;
use crate::registry::Registry;
use crate::text::{concat, decimal_int, has_suffix, str_ends_with, views};
use crate::ytdlp::{announced_destination, destination_of, reported_code, stream_download_result};

verus! {

/// One running download: the process, the directory it writes into, the
/// paths that were in that directory when it started, and the files (names
/// within the directory) that yt-dlp has said it writes.
pub struct DownloadEntry {
    pub pid: u32,
    pub dir: String,
    pub snapshot: Vec<String>,
    pub destinations: Vec<String>,
}

/// A directory entry: its path, its file name and, when known, its
/// modification time (nanoseconds from the Unix epoch, negative before it).
pub struct FileStamp {
    pub path: String,
    pub name: String,
    pub modified: Option<i128>,
}

/// A file that a download is still writing.
pub open spec fn is_partial(path: Seq<char>) -> bool {
    has_suffix(path, ".part"@)
}

/// The indices `i < n` at which `f` holds, in increasing order.
pub open spec fn indices_where(n: nat, f: spec_fn(int) -> bool) -> Seq<usize>
    decreases n,
{
    if n == 0 {
        Seq::<usize>::empty()
    } else {
        let r = indices_where((n - 1) as nat, f);
        if f(n - 1) {
            r.push((n - 1) as usize)
        } else {
            r
        }
    }
}

/// The partial file of one of the destinations that yt-dlp announced.
pub open spec fn is_announced_partial(destinations: Seq<Seq<char>>, name: Seq<char>) -> bool {
    exists|k: int| 0 <= k < destinations.len() && name == #[trigger] destinations[k] + ".part"@
}

/// A partial file that the download itself started: yt-dlp announced it, and
/// it was not there before.
pub open spec fn is_own_partial(
    snapshot: Seq<Seq<char>>,
    destinations: Seq<Seq<char>>,
    path: Seq<char>,
    name: Seq<char>,
) -> bool {
    is_announced_partial(destinations, name) && !snapshot.contains(path)
}

/// Which files of a listing may hold what a download wrote: a finished file
/// that was not there at the start; and, unless `complete_only`, any partial
/// file, since a recording may go on writing one that was already there.
pub open spec fn is_new_file(
    snapshot: Seq<Seq<char>>,
    complete_only: bool,
    path: Seq<char>,
) -> bool {
    if is_partial(path) {
        !complete_only
    } else {
        !snapshot.contains(path)
    }
}

/// `a <= b` for optional times, an unknown time being the earliest.
pub open spec fn stamp_le(a: Option<i128>, b: Option<i128>) -> bool {
    match (a, b) {
        (None, _) => true,
        (Some(_), None) => false,
        (Some(x), Some(y)) => x <= y,
    }
}

/// The newest new file among the first `n` stamps, the later one on a tie
/// (as `Iterator::max_by_key` picks it).
pub open spec fn newest_index(
    stamps: Seq<FileStamp>,
    snapshot: Seq<Seq<char>>,
    complete_only: bool,
    n: nat,
) -> Option<int>
    decreases n,
{
    if n == 0 {
        None
    } else {
        let b = newest_index(stamps, snapshot, complete_only, (n - 1) as nat);
        let i = n - 1;
        if is_new_file(snapshot, complete_only, stamps[i].path@) && (b is None || stamp_le(
            stamps[b->0].modified,
            stamps[i].modified,
        )) {
            Some(i)
        } else {
            b
        }
    }
}

/// Whether `path` is in `snapshot`.
pub fn in_snapshot(snapshot: &Vec<String>, path: &String) -> (r: bool)
    ensures
        r == views(snapshot@).contains(path@),
{
    let mut i: usize = 0;
    while i < snapshot.len()
        invariant
            i <= snapshot@.len(),
            forall|j: int| 0 <= j < i ==> snapshot@[j]@ != path@,
        decreases snapshot.len() - i,
    {
        if snapshot[i] == *path {
            assert(views(snapshot@)[i as int] == path@);
            return true;
        }
        i = i + 1;
    }
    assert forall|j: int| 0 <= j < views(snapshot@).len() implies views(snapshot@)[j] != path@ by {
        assert(views(snapshot@)[j] == snapshot@[j]@);
    }
    false
}

/// The paths of a directory listing when a download starts, to tell later
/// which files the download made.
pub fn snapshot_of(listing: &Vec<String>) -> (r: Vec<String>)
    ensures
        views(r@) == views(listing@),
{
    let mut r: Vec<String> = Vec::new();
    let mut i: usize = 0;
    while i < listing.len()
        invariant
            i <= listing@.len(),
            views(r@) == views(listing@).take(i as int),
        decreases listing.len() - i,
    {
        let ghost old_r = r@;
        r.push(listing[i].clone());
        assert(views(r@) =~= views(old_r).push(listing@[i as int]@));
        assert(views(listing@).take(i + 1) =~= views(listing@).take(i as int).push(
            listing@[i as int]@,
        ));
        i = i + 1;
    }
    assert(views(listing@).take(listing@.len() as int) =~= views(listing@));
    r
}

/// Whether `name` is the partial file of one of `destinations`.
pub fn announces(destinations: &Vec<String>, name: &String) -> (r: bool)
    ensures
        r == is_announced_partial(views(destinations@), name@),
{
    let mut k: usize = 0;
    while k < destinations.len()
        invariant
            k <= destinations@.len(),
            forall|j: int| 0 <= j < k ==> views(destinations@)[j] + ".part"@ != name@,
        decreases destinations.len() - k,
    {
        let p = concat(destinations[k].as_str(), ".part");
        if p == *name {
            assert(views(destinations@)[k as int] + ".part"@ == name@);
            return true;
        }
        k = k + 1;
    }
    false
}

/// The indices, within `listing`, of the partial files that the download
/// started (announced by yt-dlp, not there at the start): those that
/// cancelling it deletes.
pub fn part_files_to_delete(entry: &DownloadEntry, listing: &Vec<FileStamp>) -> (r: Vec<usize>)
    ensures
        r@ == indices_where(
            listing@.len(),
            |i: int|
                is_own_partial(
                    views(entry.snapshot@),
                    views(entry.destinations@),
                    listing@[i].path@,
                    listing@[i].name@,
                ),
        ),
{
    let ghost f = |i: int|
        is_own_partial(
            views(entry.snapshot@),
            views(entry.destinations@),
            listing@[i].path@,
            listing@[i].name@,
        );
    let mut r: Vec<usize> = Vec::new();
    let mut i: usize = 0;
    while i < listing.len()
        invariant
            i <= listing@.len(),
            f == (|i: int|
                is_own_partial(
                    views(entry.snapshot@),
                    views(entry.destinations@),
                    listing@[i].path@,
                    listing@[i].name@,
                )),
            r@ == indices_where(i as nat, f),
        decreases listing.len() - i,
    {
        if announces(&entry.destinations, &listing[i].name) && !in_snapshot(
            &entry.snapshot,
            &listing[i].path,
        ) {
            r.push(i);
        }
        i = i + 1;
    }
    r
}

/// A line of yt-dlp's output (trimmed): when it announces a file that the
/// download writes, that file joins the download's destinations; the table
/// is otherwise left as it is.
pub fn note_destination(downloads: &mut Registry<DownloadEntry>, download_id: &String, line: &String)
    ensures
        final(downloads)@.dom() == old(downloads)@.dom(),
        final(downloads)@.remove(download_id@) == old(downloads)@.remove(download_id@),
        old(downloads)@.contains_key(download_id@) ==> ({
            let before = old(downloads)@[download_id@];
            let after = final(downloads)@[download_id@];
            &&& after.pid == before.pid
            &&& after.dir == before.dir
            &&& after.snapshot == before.snapshot
            &&& views(after.destinations@) == match announced_destination(line@) {
                Some(d) => views(before.destinations@).push(d),
                None => views(before.destinations@),
            }
        }),
{
    match destination_of(line) {
        None => {},
        Some(d) => {
            match downloads.remove(download_id) {
                None => {},
                Some(e) => {
                    let mut e = e;
                    let ghost before = e.destinations@;
                    e.destinations.push(d);
                    assert(views(e.destinations@) =~= views(before).push(
                        announced_destination(line@)->0,
                    ));
                    downloads.insert(download_id.clone(), e);
                    assert(final(downloads)@.dom() =~= old(downloads)@.dom());
                    assert(final(downloads)@.remove(download_id@) =~= old(downloads)@.remove(
                        download_id@,
                    ));
                },
            }
        },
    }
}

/// Which entry of `stamps` is the newest file that the download made (the
/// later one on a tie); `complete_only` leaves partial files out.
pub fn newest_new_file(stamps: &Vec<FileStamp>, snapshot: &Vec<String>, complete_only: bool) -> (r:
    Option<usize>)
    ensures
        match newest_index(stamps@, views(snapshot@), complete_only, stamps@.len()) {
            Some(i) => r == Some(i as usize),
            None => r is None,
        },
{
    let mut best: Option<usize> = None;
    let mut i: usize = 0;
    while i < stamps.len()
        invariant
            i <= stamps@.len(),
            match newest_index(stamps@, views(snapshot@), complete_only, i as nat) {
                Some(b) => best == Some(b as usize) && 0 <= b < i,
                None => best is None,
            },
        decreases stamps.len() - i,
    {
        let path = &stamps[i].path;
        let fresh = if str_ends_with(path.as_str(), ".part") {
            !complete_only
        } else {
            !in_snapshot(snapshot, path)
        };
        if fresh {
            let later = match best {
                None => true,
                Some(b) => match (stamps[b].modified, stamps[i].modified) {
                    (None, _) => true,
                    (Some(_), None) => false,
                    (Some(x), Some(y)) => x <= y,
                },
            };
            if later {
                best = Some(i);
            }
        }
        i = i + 1;
    }
    best
}

/// A newest new file, when there is one, is new, at least as new as every
/// other new file, and strictly newer than every new file after it.
pub proof fn law_newest_is_latest_maximum(
    stamps: Seq<FileStamp>,
    snapshot: Seq<Seq<char>>,
    complete_only: bool,
    n: nat,
)
    requires
        n <= stamps.len(),
    ensures
        match newest_index(stamps, snapshot, complete_only, n) {
            Some(i) => {
                &&& 0 <= i < n
                &&& is_new_file(snapshot, complete_only, stamps[i].path@)
                &&& forall|j: int|
                    0 <= j < n && is_new_file(snapshot, complete_only, #[trigger] stamps[j].path@)
                        ==> stamp_le(stamps[j].modified, stamps[i].modified)
                &&& forall|j: int|
                    i < j < n && is_new_file(snapshot, complete_only, #[trigger] stamps[j].path@)
                        ==> !stamp_le(stamps[i].modified, stamps[j].modified)
            },
            None => forall|j: int|
                0 <= j < n ==> !is_new_file(snapshot, complete_only, #[trigger] stamps[j].path@),
        },
    decreases n,
{
    if n > 0 {
        law_newest_is_latest_maximum(stamps, snapshot, complete_only, (n - 1) as nat);
    }
}

/// Takes the download out of the table; its process is the one to stop.
/// Gives the message and the process id, or the refusal when no download
/// runs under that id.
pub fn pause_download(downloads: &mut Registry<DownloadEntry>, download_id: &String) -> (r: (
    Result<String, String>,
    Option<u32>,
))
    ensures
        final(downloads)@ == old(downloads)@.remove(download_id@),
        old(downloads)@.contains_key(download_id@) ==> {
            &&& r.0 matches Ok(m) && m@ == "Download paused"@
            &&& r.1 == Some(old(downloads)@[download_id@].pid)
        },
        !old(downloads)@.contains_key(download_id@) ==> {
            &&& r.0 matches Err(e) && e@ == "No active download with that ID"@
            &&& r.1 is None
        },
{
    match downloads.remove(download_id) {
        Some(e) => (Ok("Download paused".to_string()), Some(e.pid)),
        None => (Err("No active download with that ID".to_string()), None),
    }
}

/// Takes the download out of the table and hands its entry back (its process
/// to stop, its partial files to delete); never refuses.
pub fn cancel_download(downloads: &mut Registry<DownloadEntry>, download_id: &String) -> (r: (
    String,
    Option<DownloadEntry>,
))
    ensures
        final(downloads)@ == old(downloads)@.remove(download_id@),
        old(downloads)@.contains_key(download_id@) ==> {
            &&& r.0@ == "Download cancelled"@
            &&& r.1 == Some(old(downloads)@[download_id@])
        },
        !old(downloads)@.contains_key(download_id@) ==> {
            &&& r.0@ == "Download cancelled (already stopped)"@
            &&& r.1 is None
        },
{
    match downloads.remove(download_id) {
        Some(e) => ("Download cancelled".to_string(), Some(e)),
        None => ("Download cancelled (already stopped)".to_string(), None),
    }
}

/// Once a download has been paused, cancelled or has finished (every way
/// `pause_download`, `cancel_download`, `read_error_outcome`,
/// `wait_error_outcome` and `finish_stream_download` take it out) it is gone
/// from the table: pausing it again is refused, cancelling it again reports
/// it already stopped, and the table stays as it is.
pub proof fn law_stopped_download_is_gone(before: vstd::map::Map<Seq<char>, DownloadEntry>, id: Seq<char>)
    ensures
        !before.remove(id).contains_key(id),
        before.remove(id).remove(id) == before.remove(id),
{
    assert(before.remove(id).remove(id) =~= before.remove(id));
}

/// An index is picked exactly when it is below `n` and `f` holds there.
proof fn lemma_indices_where_contains(n: nat, f: spec_fn(int) -> bool, i: int)
    requires
        n <= usize::MAX + 1,
        0 <= i <= usize::MAX,
    ensures
        indices_where(n, f).contains(i as usize) <==> (i < n && f(i)),
    decreases n,
{
    if n > 0 {
        lemma_indices_where_contains((n - 1) as nat, f, i);
        let r = indices_where((n - 1) as nat, f);
        if f(n - 1) {
            let q = r.push((n - 1) as usize);
            assert(q[r.len() as int] == (n - 1) as usize);
            assert forall|k: int| 0 <= k < r.len() implies #[trigger] q[k] == r[k] by {}
            if q.contains(i as usize) {
                let k = choose|k: int| 0 <= k < q.len() && #[trigger] q[k] == i as usize;
                if k < r.len() {
                    assert(r.contains(i as usize));
                } else {
                    assert(i == n - 1);
                }
            }
            if r.contains(i as usize) {
                let k = choose|k: int| 0 <= k < r.len() && #[trigger] r[k] == i as usize;
                assert(q[k] == i as usize);
            }
        }
    }
}

/// Cancelling a download deletes, of the files in its directory at that
/// time, exactly the partial files of the destinations that yt-dlp announced
/// for it and that were not there when it started: a partial file of
/// another download, or one that was there before, stays. Every file it
/// deletes is a partial file.
pub proof fn law_cancel_deletes_only_own_partial_files(
    snapshot: Seq<Seq<char>>,
    destinations: Seq<Seq<char>>,
    listing: Seq<FileStamp>,
    i: int,
)
    requires
        listing.len() <= usize::MAX,
        0 <= i < listing.len(),
    ensures
        indices_where(
            listing.len(),
            |k: int| is_own_partial(snapshot, destinations, listing[k].path@, listing[k].name@),
        ).contains(i as usize) <==> (is_announced_partial(destinations, listing[i].name@)
            && !snapshot.contains(listing[i].path@)),
        is_announced_partial(destinations, listing[i].name@) ==> is_partial(listing[i].name@),
{
    lemma_indices_where_contains(
        listing.len(),
        |k: int| is_own_partial(snapshot, destinations, listing[k].path@, listing[k].name@),
        i,
    );
    if is_announced_partial(destinations, listing[i].name@) {
        let k = choose|k: int|
            0 <= k < destinations.len() && listing[i].name@ == #[trigger] destinations[k] + ".part"@;
        let d = destinations[k];
        assert((d + ".part"@).skip(d.len() as int) =~= ".part"@);
    }
}

/// A partial file counts as what a recording wrote even when it was there
/// at the start (the recording went on with it); a finished file counts only
/// when it is new; a finished download's file is never partial.
pub proof fn law_recording_may_resume_partial_file(snapshot: Seq<Seq<char>>, path: Seq<char>)
    ensures
        is_partial(path) ==> is_new_file(snapshot, false, path),
        is_partial(path) ==> !is_new_file(snapshot, true, path),
        !is_partial(path) ==> (is_new_file(snapshot, false, path) == !snapshot.contains(path)),
        !is_partial(path) ==> (is_new_file(snapshot, true, path) == !snapshot.contains(path)),
{
}

/// yt-dlp's output could not be read. If pause or cancel has taken the
/// download out of the table, it was stopped on purpose and reading just ends
/// (`None`); otherwise the download fails with the error and leaves the table.
pub fn read_error_outcome(
    downloads: &mut Registry<DownloadEntry>,
    download_id: &String,
    error: &String,
) -> (r: Option<String>)
    ensures
        final(downloads)@ == old(downloads)@.remove(download_id@),
        !old(downloads)@.contains_key(download_id@) ==> r is None,
        old(downloads)@.contains_key(download_id@) ==> (r matches Some(m) && m@
            == "Error reading output: "@ + error@),
{
    match downloads.remove(download_id) {
        Some(_) => Some(concat("Error reading output: ", error.as_str())),
        None => None,
    }
}

/// Waiting for yt-dlp to exit failed: the download fails and leaves the table.
pub fn wait_error_outcome(downloads: &mut Registry<DownloadEntry>, download_id: &String, error: &String) -> (r:
    String)
    ensures
        final(downloads)@ == old(downloads)@.remove(download_id@),
        r@ == "Failed to wait for child: "@ + error@,
{
    let _ = downloads.remove(download_id);
    concat("Failed to wait for child: ", error.as_str())
}

/// yt-dlp has exited: the download leaves the table, and its entry (to find
/// the file it made) comes back with the outcome; a download that pause or
/// cancel took out first reports neither success nor failure.
pub fn finish_stream_download(
    downloads: &mut Registry<DownloadEntry>,
    download_id: &String,
    success: bool,
    code: Option<i32>,
    target: &String,
) -> (r: (Result<String, String>, Option<DownloadEntry>))
    ensures
        final(downloads)@ == old(downloads)@.remove(download_id@),
        old(downloads)@.contains_key(download_id@) ==> r.1 == Some(
            old(downloads)@[download_id@],
        ),
        !old(downloads)@.contains_key(download_id@) ==> r.1 is None,
        !old(downloads)@.contains_key(download_id@) ==> (r.0 matches Err(e) && e@
            == "Download was paused or cancelled"@),
        old(downloads)@.contains_key(download_id@) && success ==> (r.0 matches Ok(m) && m@
            == "✓ Video downloaded successfully to: "@ + target@),
        old(downloads)@.contains_key(download_id@) && !success ==> (r.0 matches Err(e) && e@
            == "Download failed with exit code: "@ + decimal_int(reported_code(code))),
{
    let entry = downloads.remove(download_id);
    let res = stream_download_result(entry.is_some(), success, code, target);
    (res, entry)
}

/// Whatever characters an announced destination holds, its partial file
/// counts as this download's, and when it was not there at the start,
/// cancelling deletes it.
pub proof fn law_own_partial_file_is_deleted(
    snapshot: Seq<Seq<char>>,
    destinations: Seq<Seq<char>>,
    listing: Seq<FileStamp>,
    i: int,
    k: int,
)
    requires
        listing.len() <= usize::MAX,
        0 <= i < listing.len(),
        0 <= k < destinations.len(),
        listing[i].name@ == destinations[k] + ".part"@,
        !snapshot.contains(listing[i].path@),
    ensures
        is_announced_partial(destinations, destinations[k] + ".part"@),
        indices_where(
            listing.len(),
            |j: int| is_own_partial(snapshot, destinations, listing[j].path@, listing[j].name@),
        ).contains(i as usize),
{
    assert(is_announced_partial(destinations, destinations[k] + ".part"@));
    law_cancel_deletes_only_own_partial_files(snapshot, destinations, listing, i);
}

} // verus!

