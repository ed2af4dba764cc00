//! Download records: the service's torrent, web and usenet records, the unified row
//! shown in the table, and the conversion between them.

use vstd::prelude::*;
use vstd::std_specs::iter::IteratorSpec;
use crate::clock::{instant_before, is_before, now_instant, parse_rfc3339, rfc3339_instant};
use crate::season::{extract_season_number, first_parsed, is_season_name, names_season, season_groups};
use crate::status::{detect_stalled_status_at, stalled_status_spec};
use crate::text::{
    contains_seq, lowercase_of, opt_string_view, starts_with_seq, str_contains,
    str_eq, str_starts_with, to_lowercase,
};

verus! {

/// Kind of a download.
#[derive(Clone, Copy, Debug, PartialEq, Eq, Hash, Structural)]
pub enum DownloadType {
    Torrent,
    WebDownload,
    Usenet,
}

impl DownloadType {
    /// The name shown for a kind.
    pub open spec fn display_name(self) -> Seq<char> {
        match self {
            DownloadType::Torrent => "Torrent"@,
            DownloadType::WebDownload => "Web Download"@,
            DownloadType::Usenet => "Usenet"@,
        }
    }

    /// The name shown for a kind (what `Display` writes).
    pub fn to_display_string(&self) -> (r: String)
        ensures
            r@ == self.display_name(),
    {
        match self {
            DownloadType::Torrent => String::from_str("Torrent"),
            DownloadType::WebDownload => String::from_str("Web Download"),
            DownloadType::Usenet => String::from_str("Usenet"),
        }
    }
}

/// A file of a download.
pub struct DownloadFile {
    pub id: i32,
    pub name: String,
    pub size: i64,
    pub md5: Option<String>,
    pub hash: Option<String>,
    pub zipped: Option<bool>,
    pub s3_path: Option<String>,
    pub infected: Option<bool>,
    pub mimetype: Option<String>,
    pub short_name: Option<String>,
    pub absolute_path: Option<String>,
    pub opensubtitles_hash: Option<String>,
}

/// An episode of a season pack.
pub struct EpisodeInfo {
    pub episode_number: i32,
    pub name: String,
    pub size: i64,
    pub file_id: i32,
}

/// What is known of a season pack.
pub struct SeasonInfo {
    pub season_number: Option<i32>,
    pub episode_count: i32,
    pub episodes: Vec<EpisodeInfo>,
}

/// A row of the downloads table. The transfer progress and share ratio, which the
/// service reports as floating-point numbers, are kept beside it by the caller.
pub struct DownloadItem {
    pub id: i32,
    pub name: String,
    pub size: i64,
    pub created_at: String,
    pub status: String,
    pub download_type: DownloadType,
    pub download_speed: i64,
    pub upload_speed: i64,
    pub active: bool,
    pub files: Vec<DownloadFile>,
    pub is_season: bool,
    pub season_info: Option<SeasonInfo>,
    pub eta: Option<i32>,
    pub total_downloaded: Option<i64>,
    pub private: bool,
    pub magnet: Option<String>,
    pub source_url: Option<String>,
    pub seeds: Option<i32>,
    pub peers: Option<i32>,
}

/// The file has a MIME type that starts with one of the given prefixes.
pub open spec fn mimetype_starts_with(file: DownloadFile, prefix: Seq<char>) -> bool {
    match file.mimetype {
        Some(m) => starts_with_seq(m@, prefix),
        None => false,
    }
}

/// A video or audio file.
pub open spec fn is_media(file: DownloadFile) -> bool {
    mimetype_starts_with(file, "video/"@) || mimetype_starts_with(file, "audio/"@)
}

/// A video file.
pub open spec fn is_video(file: DownloadFile) -> bool {
    mimetype_starts_with(file, "video/"@)
}

/// The file can be handed out: neither zipped nor infected (unknown counts as no).
pub open spec fn is_usable(file: DownloadFile) -> bool {
    file.zipped != Some(true) && file.infected != Some(true)
}

/// Whether a file is a video or audio file, by its MIME type.
pub fn is_media_file(file: &DownloadFile) -> (r: bool)
    ensures
        r == is_media(*file),
{
    match &file.mimetype {
        Some(m) => str_starts_with(m.as_str(), "video/") || str_starts_with(m.as_str(), "audio/"),
        None => false,
    }
}

/// Whether a file is a video file, by its MIME type.
pub fn is_video_file(file: &DownloadFile) -> (r: bool)
    ensures
        r == is_video(*file),
{
    match &file.mimetype {
        Some(m) => str_starts_with(m.as_str(), "video/"),
        None => false,
    }
}

fn is_usable_file(file: &DownloadFile) -> (r: bool)
    ensures
        r == is_usable(*file),
{
    let zipped = match file.zipped {
        Some(z) => z,
        None => false,
    };
    let infected = match file.infected {
        Some(i) => i,
        None => false,
    };
    !zipped && !infected
}

/// The files, in order, that satisfy `keep`.
pub open spec fn filter_files(files: Seq<DownloadFile>, keep: spec_fn(DownloadFile) -> bool) -> Seq<DownloadFile>
    decreases files.len(),
{
    if files.len() == 0 {
        Seq::empty()
    } else {
        let rest = filter_files(files.drop_last(), keep);
        if keep(files.last()) {
            rest.push(files.last())
        } else {
            rest
        }
    }
}

/// Usable media files.
pub open spec fn usable_media(f: DownloadFile) -> bool {
    is_media(f) && is_usable(f)
}

/// Usable video files.
pub open spec fn usable_video(f: DownloadFile) -> bool {
    is_video(f) && is_usable(f)
}

/// The usable video and audio files, in their order.
pub fn get_media_files(files: &[DownloadFile]) -> (r: Vec<&DownloadFile>)
    ensures
        r@.unref() == filter_files(files@, |f: DownloadFile| usable_media(f)),
{
    let mut r: Vec<&DownloadFile> = Vec::new();
    let mut i: usize = 0;
    while i < files.len()
        invariant
            i <= files@.len(),
            r@.unref() == filter_files(files@.take(i as int), |f: DownloadFile| usable_media(f)),
        decreases files@.len() - i,
    {
        assert(files@.take(i + 1).drop_last() =~= files@.take(i as int));
        let f = &files[i];
        if is_media_file(f) && is_usable_file(f) {
            r.push(f);
        }
        i = i + 1;
    }
    assert(files@.take(i as int) =~= files@);
    r
}

/// The usable video files, in their order.
pub fn get_video_files(files: &[DownloadFile]) -> (r: Vec<&DownloadFile>)
    ensures
        r@.unref() == filter_files(files@, |f: DownloadFile| usable_video(f)),
{
    let mut r: Vec<&DownloadFile> = Vec::new();
    let mut i: usize = 0;
    while i < files.len()
        invariant
            i <= files@.len(),
            r@.unref() == filter_files(files@.take(i as int), |f: DownloadFile| usable_video(f)),
        decreases files@.len() - i,
    {
        assert(files@.take(i + 1).drop_last() =~= files@.take(i as int));
        let f = &files[i];
        if is_video_file(f) && is_usable_file(f) {
            r.push(f);
        }
        i = i + 1;
    }
    assert(files@.take(i as int) =~= files@);
    r
}


/// Index of the largest file by size; among equally large files, the last one
/// (as `Iterator::max_by_key` picks). Meaningful for a non-empty sequence.
pub open spec fn largest_index(files: Seq<DownloadFile>) -> int
    decreases files.len(),
{
    if files.len() <= 1 {
        0
    } else {
        let j = largest_index(files.drop_last());
        if files.last().size >= files[j].size {
            files.len() - 1
        } else {
            j
        }
    }
}

proof fn lemma_largest_index(files: Seq<DownloadFile>)
    requires
        files.len() > 0,
    ensures
        0 <= largest_index(files) < files.len(),
        forall|k: int| 0 <= k < files.len() ==> (#[trigger] files[k]).size <= files[largest_index(files)].size,
        forall|k: int|
            largest_index(files) < k < files.len() ==> (#[trigger] files[k]).size < files[largest_index(
                files,
            )].size,
    decreases files.len(),
{
    if files.len() > 1 {
        let p = files.drop_last();
        lemma_largest_index(p);
        let b = largest_index(files);
        assert forall|k: int| 0 <= k < files.len() implies (#[trigger] files[k]).size
            <= files[b].size by {
            if k < files.len() - 1 {
                assert(files[k] == p[k]);
            }
        }
        assert forall|k: int| b < k < files.len() implies (#[trigger] files[k]).size
            < files[b].size by {
            if k < files.len() - 1 {
                assert(files[k] == p[k]);
            }
        }
    }
}

/// The largest usable video file; the last one among equally large ones.
pub fn get_largest_video_file(files: &[DownloadFile]) -> (r: Option<&DownloadFile>)
    ensures
        ({
            let vids = filter_files(files@, |f: DownloadFile| usable_video(f));
            match r {
                Some(f) => vids.len() > 0 && *f == vids[largest_index(vids)],
                None => vids.len() == 0,
            }
        }),
{
    let vids = get_video_files(files);
    let ghost vs = vids@.unref();
    if vids.len() == 0 {
        return None;
    }
    let mut best: usize = 0;
    let mut i: usize = 1;
    while i < vids.len()
        invariant
            vs == vids@.unref(),
            1 <= i <= vids@.len(),
            best == largest_index(vs.take(i as int)),
        decreases vids@.len() - i,
    {
        assert(vs.take(i + 1).drop_last() =~= vs.take(i as int));
        proof {
            lemma_largest_index(vs.take(i as int));
        }
        if vids[i].size >= vids[best].size {
            best = i;
        }
        i = i + 1;
    }
    assert(vs.take(i as int) =~= vs);
    proof {
        lemma_largest_index(vs);
    }
    Some(vids[best])
}

/// The first usable video file.
pub fn get_first_video_file(files: &[DownloadFile]) -> (r: Option<&DownloadFile>)
    ensures
        ({
            let vids = filter_files(files@, |f: DownloadFile| usable_video(f));
            match r {
                Some(f) => vids.len() > 0 && *f == vids[0],
                None => vids.len() == 0,
            }
        }),
{
    let vids = get_video_files(files);
    if vids.len() == 0 {
        None
    } else {
        Some(vids[0])
    }
}


/// A file as the service lists it for a torrent or a usenet download.
pub struct RemoteFile {
    pub id: i32,
    pub name: String,
    pub size: i64,
    pub md5: Option<String>,
    pub hash: Option<String>,
    pub zipped: bool,
    pub s3_path: String,
    pub infected: bool,
    pub mimetype: String,
    pub short_name: String,
    pub absolute_path: String,
    pub opensubtitles_hash: Option<String>,
}

/// A file as the service lists it for a web download.
pub struct WebDownloadFile {
    pub id: i32,
    pub name: String,
    pub size: i64,
}

/// A torrent as the service reports it (its progress and ratio, floating-point
/// numbers, are kept by the caller).
pub struct Torrent {
    pub id: i32,
    pub name: String,
    pub size: i64,
    pub created_at: String,
    pub updated_at: String,
    pub download_state: String,
    pub download_speed: i64,
    pub upload_speed: i64,
    pub active: bool,
    pub seeds: i32,
    pub peers: i32,
    pub download_finished: bool,
    pub cached: bool,
    pub expires_at: Option<String>,
    pub files: Option<Vec<RemoteFile>>,
    pub eta: i32,
    pub total_downloaded: i64,
    pub private: bool,
    pub magnet: Option<String>,
}

/// A web download as the service reports it (its progress is kept by the caller).
pub struct WebDownload {
    pub id: i32,
    pub name: String,
    pub size: i64,
    pub created_at: String,
    pub status: String,
    pub url: String,
    pub files: Vec<WebDownloadFile>,
}

/// A usenet download as the service reports it (its progress is kept by the caller).
pub struct UsenetDownload {
    pub id: i32,
    pub name: String,
    pub size: i64,
    pub created_at: String,
    pub updated_at: String,
    pub download_state: String,
    pub download_speed: i64,
    pub active: bool,
    pub download_finished: bool,
    pub cached: bool,
    pub expires_at: Option<String>,
    pub files: Vec<RemoteFile>,
    pub eta: i32,
    pub original_url: Option<String>,
}

/// The row file for a torrent or usenet file.
pub open spec fn remote_file_row(f: RemoteFile) -> DownloadFile {
    DownloadFile {
        id: f.id,
        name: f.name,
        size: f.size,
        md5: f.md5,
        hash: f.hash,
        zipped: Some(f.zipped),
        s3_path: Some(f.s3_path),
        infected: Some(f.infected),
        mimetype: Some(f.mimetype),
        short_name: Some(f.short_name),
        absolute_path: Some(f.absolute_path),
        opensubtitles_hash: f.opensubtitles_hash,
    }
}

/// The row files for torrent or usenet files, in order.
pub open spec fn remote_file_rows_of(fs: Seq<RemoteFile>) -> Seq<DownloadFile> {
    fs.map_values(|f: RemoteFile| remote_file_row(f))
}

/// The row files for web download files, in order.
pub open spec fn web_file_rows_of(fs: Seq<WebDownloadFile>) -> Seq<DownloadFile> {
    fs.map_values(|f: WebDownloadFile| web_file_row(f))
}

/// The row file for a web download file: only id, name and size are known.
pub open spec fn web_file_row(f: WebDownloadFile) -> DownloadFile {
    DownloadFile {
        id: f.id,
        name: f.name,
        size: f.size,
        md5: None,
        hash: None,
        zipped: None,
        s3_path: None,
        infected: None,
        mimetype: None,
        short_name: None,
        absolute_path: None,
        opensubtitles_hash: None,
    }
}

fn remote_file_rows(files: Vec<RemoteFile>) -> (r: Vec<DownloadFile>)
    ensures
        r@ == remote_file_rows_of(files@),
{
    let ghost src = files@;
    let mut r: Vec<DownloadFile> = Vec::new();
    for f in it: files.into_iter()
        invariant
            it.seq() == src,
            r@ == remote_file_rows_of(src.take(it.index() as int)),
    {
        let ghost before = r@;
        r.push(
            DownloadFile {
                id: f.id,
                name: f.name,
                size: f.size,
                md5: f.md5,
                hash: f.hash,
                zipped: Some(f.zipped),
                s3_path: Some(f.s3_path),
                infected: Some(f.infected),
                mimetype: Some(f.mimetype),
                short_name: Some(f.short_name),
                absolute_path: Some(f.absolute_path),
                opensubtitles_hash: f.opensubtitles_hash,
            },
        );
        assert(remote_file_rows_of(src.take(it.index() + 1))
            =~= before.push(remote_file_row(src[it.index() as int])));
    }
    assert(src.take(src.len() as int) =~= src);
    r
}

fn web_file_rows(files: Vec<WebDownloadFile>) -> (r: Vec<DownloadFile>)
    ensures
        r@ == web_file_rows_of(files@),
{
    let ghost src = files@;
    let mut r: Vec<DownloadFile> = Vec::new();
    for f in it: files.into_iter()
        invariant
            it.seq() == src,
            r@ == web_file_rows_of(src.take(it.index() as int)),
    {
        let ghost before = r@;
        r.push(
            DownloadFile {
                id: f.id,
                name: f.name,
                size: f.size,
                md5: None,
                hash: None,
                zipped: None,
                s3_path: None,
                infected: None,
                mimetype: None,
                short_name: None,
                absolute_path: None,
                opensubtitles_hash: None,
            },
        );
        assert(web_file_rows_of(src.take(it.index() + 1))
            =~= before.push(web_file_row(src[it.index() as int])));
    }
    assert(src.take(src.len() as int) =~= src);
    r
}


/// `cached` for a cached finished download, else `completed`.
pub open spec fn finished_status(cached: bool) -> Seq<char> {
    if cached {
        "cached"@
    } else {
        "completed"@
    }
}

/// Whether an expiry time has passed at `now` (an unreadable time never has).
pub open spec fn expiry_passed(expires_at: Option<Seq<char>>, now: (i64, u32)) -> bool {
    match expires_at {
        Some(e) => match rfc3339_instant(e) {
            Some(t) => instant_before(t, now),
            None => false,
        },
        None => false,
    }
}

/// The status shown for a torrent or usenet download, from the status after stall
/// detection: a finished download that is not active counts as cached or completed
/// instead of seeding; an expired one is cached or completed when finished and
/// inactive otherwise; an unfinished one that is not active is inactive unless its
/// status says cached, completed, uploading, seeding or (for torrents only) stalled.
/// `stalled_rule` holds for torrents, whose stalled inactive downloads are inactive.
pub open spec fn final_status(
    detected: Seq<char>,
    active: bool,
    finished: bool,
    cached: bool,
    expired: bool,
    stalled_rule: bool,
) -> Seq<char> {
    let l1 = lowercase_of(detected);
    let s2 = if (contains_seq(l1, "uploading"@) || contains_seq(l1, "seeding"@)) && !active
        && finished {
        finished_status(cached)
    } else {
        detected
    };
    let s3 = if stalled_rule && contains_seq(l1, "stalled"@) && !active && !finished {
        "inactive"@
    } else {
        s2
    };
    let s4 = if expired && finished {
        finished_status(cached)
    } else {
        s3
    };
    let l4 = lowercase_of(s4);
    let s5 = if l4 == "expired"@ {
        if finished {
            finished_status(cached)
        } else {
            "inactive"@
        }
    } else {
        s4
    };
    let l5 = lowercase_of(s5);
    if expired && !finished {
        "inactive"@
    } else if !active && !finished && s5 != "expired"@ && !contains_seq(l5, "cached"@)
        && !contains_seq(l5, "completed"@) && !contains_seq(l5, "uploading"@) && !contains_seq(
        l5,
        "seeding"@,
    ) && !(stalled_rule && contains_seq(l5, "stalled"@)) {
        "inactive"@
    } else {
        s5
    }
}

fn finished_status_exec(cached: bool) -> (r: String)
    ensures
        r@ == finished_status(cached),
{
    if cached {
        String::from_str("cached")
    } else {
        String::from_str("completed")
    }
}

/// The status shown for a torrent (`stalled_rule` true) or a usenet download
/// (`stalled_rule` false), given its status after stall detection and whether it has
/// expired.
pub fn resolve_final_status(
    detected: String,
    active: bool,
    finished: bool,
    cached: bool,
    expired: bool,
    stalled_rule: bool,
) -> (r: String)
    ensures
        r@ == final_status(detected@, active, finished, cached, expired, stalled_rule),
{
    let mut status = detected;
    let lower1 = to_lowercase(status.as_str());
    let l1 = lower1.as_str();
    if (str_contains(l1, "uploading") || str_contains(l1, "seeding")) && !active && finished {
        status = finished_status_exec(cached);
    }
    if stalled_rule && str_contains(l1, "stalled") && !active && !finished {
        status = String::from_str("inactive");
    }
    if expired && finished {
        status = finished_status_exec(cached);
    }
    let lower4 = to_lowercase(status.as_str());
    if str_eq(lower4.as_str(), "expired") {
        if finished {
            status = finished_status_exec(cached);
        } else {
            status = String::from_str("inactive");
        }
    }
    let lower5 = to_lowercase(status.as_str());
    let l5 = lower5.as_str();
    if expired && !finished {
        status = String::from_str("inactive");
    } else if !active && !finished && !str_eq(status.as_str(), "expired") && !str_contains(
        l5,
        "cached",
    ) && !str_contains(l5, "completed") && !str_contains(l5, "uploading") && !str_contains(
        l5,
        "seeding",
    ) && !(stalled_rule && str_contains(l5, "stalled")) {
        status = String::from_str("inactive");
    }
    status
}

/// Whether an expiry time has passed at `now`.
pub fn has_expired(expires_at: &Option<String>, now: (i64, u32)) -> (r: bool)
    ensures
        r == expiry_passed(opt_string_view(*expires_at), now),
{
    match expires_at {
        Some(e) => match parse_rfc3339(e.as_str()) {
            Some(t) => is_before(t, now),
            None => false,
        },
        None => false,
    }
}

/// Season facts for a download name with a given number of files.
pub open spec fn season_row(name: Seq<char>, file_count: int) -> Option<(Option<i32>, i32)> {
    if names_season(lowercase_of(name)) {
        Some((first_parsed(season_groups(name), 0), file_count as i32))
    } else {
        None
    }
}

/// The season facts of a row agree with `season_row` (with no episodes listed).
pub open spec fn season_info_matches(info: Option<SeasonInfo>, expected: Option<(Option<i32>, i32)>) -> bool {
    match (info, expected) {
        (Some(i), Some(e)) => i.season_number == e.0 && i.episode_count == e.1
            && i.episodes@.len() == 0,
        (None, None) => true,
        _ => false,
    }
}

fn season_info_for(name: &str, is_season: bool, file_count: usize) -> (r: Option<SeasonInfo>)
    requires
        is_season == names_season(lowercase_of(name@)),
    ensures
        season_info_matches(r, season_row(name@, file_count as int)),
{
    if is_season {
        Some(
            SeasonInfo {
                season_number: extract_season_number(name),
                episode_count: file_count as i32,
                episodes: Vec::new(),
            },
        )
    } else {
        None
    }
}

/// `r` is the row made from `torrent` at `now`, with `state` as its reported status.
pub open spec fn torrent_row_as(torrent: Torrent, state: Seq<char>, now: (i64, u32), r: DownloadItem) -> bool {
    &&& r.id == torrent.id
    &&& r.name == torrent.name
    &&& r.size == torrent.size
    &&& r.created_at == torrent.created_at
    &&& r.status@ == final_status(
            stalled_status_spec(
                state,
                torrent.download_speed,
                torrent.upload_speed,
                Some(torrent.active),
                Some(torrent.seeds),
                Some(torrent.peers),
                rfc3339_instant(torrent.updated_at@),
                now,
            ),
            torrent.active,
            torrent.download_finished,
            torrent.cached,
            expiry_passed(opt_string_view(torrent.expires_at), now),
            true
    )
    &&& r.download_type == DownloadType::Torrent
    &&& r.download_speed == torrent.download_speed
    &&& r.upload_speed == torrent.upload_speed
    &&& r.active == torrent.active
    &&& r.files@ == remote_file_rows_of(match torrent.files {
            Some(fs) => fs@,
            None => Seq::empty(),
        })
    &&& r.is_season == names_season(lowercase_of(torrent.name@))
    &&& season_info_matches(
            r.season_info,
            match torrent.files {
                Some(fs) => season_row(torrent.name@, fs@.len() as int),
                None => None,
            }
    )
    &&& r.eta == Some(torrent.eta)
    &&& r.total_downloaded == Some(torrent.total_downloaded)
    &&& r.private == torrent.private
    &&& r.magnet == torrent.magnet
    &&& r.source_url is None
    &&& r.seeds == Some(torrent.seeds)
    &&& r.peers == Some(torrent.peers)
}

/// `r` is the row made from `web_dl` at `now`, with `state` as its reported status.
pub open spec fn web_row_as(web_dl: WebDownload, state: Seq<char>, now: (i64, u32), r: DownloadItem) -> bool {
    &&& r.id == web_dl.id
    &&& r.name == web_dl.name
    &&& r.size == web_dl.size
    &&& r.created_at == web_dl.created_at
    &&& r.status@ == stalled_status_spec(
            state,
            0,
            0,
            None,
            None,
            None,
            rfc3339_instant(web_dl.created_at@),
            now
    )
    &&& r.download_type == DownloadType::WebDownload
    &&& r.download_speed == 0
    &&& r.upload_speed == 0
    &&& r.active == (lowercase_of(state) == "downloading"@ || lowercase_of(
            state
    ) == "active"@)
    &&& r.files@ == web_file_rows_of(web_dl.files@)
    &&& r.is_season == names_season(lowercase_of(web_dl.name@))
    &&& season_info_matches(r.season_info, season_row(web_dl.name@, web_dl.files@.len() as int))
    &&& r.eta is None
    &&& r.total_downloaded is None
    &&& !r.private
    &&& r.magnet is None
    &&& r.source_url == Some(web_dl.url)
    &&& r.seeds is None
    &&& r.peers is None
}

/// `r` is the row made from `usenet` at `now`, with `state` as its reported status.
pub open spec fn usenet_row_as(usenet: UsenetDownload, state: Seq<char>, now: (i64, u32), r: DownloadItem) -> bool {
    &&& r.id == usenet.id
    &&& r.name == usenet.name
    &&& r.size == usenet.size
    &&& r.created_at == usenet.created_at
    &&& r.status@ == final_status(
            stalled_status_spec(
                state,
                usenet.download_speed,
                0,
                Some(usenet.active),
                None,
                None,
                rfc3339_instant(usenet.updated_at@),
                now,
            ),
            usenet.active,
            usenet.download_finished,
            usenet.cached,
            expiry_passed(opt_string_view(usenet.expires_at), now),
            false
    )
    &&& r.download_type == DownloadType::Usenet
    &&& r.download_speed == usenet.download_speed
    &&& r.upload_speed == 0
    &&& r.active == usenet.active
    &&& r.files@ == remote_file_rows_of(usenet.files@)
    &&& r.is_season == names_season(lowercase_of(usenet.name@))
    &&& season_info_matches(r.season_info, season_row(usenet.name@, usenet.files@.len() as int))
    &&& r.eta == Some(usenet.eta)
    &&& r.total_downloaded is None
    &&& !r.private
    &&& r.magnet is None
    &&& r.source_url == usenet.original_url
    &&& r.seeds is None
    &&& r.peers is None
}

impl DownloadItem {
    /// The row for a torrent at a given current instant.
    pub fn from_torrent_at(torrent: Torrent, now: (i64, u32)) -> (r: DownloadItem)
        ensures
            torrent_row_as(torrent, torrent.download_state@, now, r),
    {
        let is_season = is_season_name(torrent.name.as_str());
        let season_info = match &torrent.files {
            Some(fs) => season_info_for(torrent.name.as_str(), is_season, fs.len()),
            None => None,
        };
        let detected = detect_stalled_status_at(
            torrent.download_state.as_str(),
            torrent.download_speed,
            torrent.upload_speed,
            Some(torrent.active),
            Some(torrent.seeds),
            Some(torrent.peers),
            torrent.created_at.as_str(),
            Some(torrent.updated_at.as_str()),
            now,
        );
        let expired = has_expired(&torrent.expires_at, now);
        let status = resolve_final_status(
            detected,
            torrent.active,
            torrent.download_finished,
            torrent.cached,
            expired,
            true,
        );
        let ghost listed: Seq<RemoteFile> = if torrent.files is Some {
            torrent.files->0@
        } else {
            Seq::empty()
        };
        let files = match torrent.files {
            Some(fs) => remote_file_rows(fs),
            None => Vec::new(),
        };
        assert(files@ == remote_file_rows_of(listed)) by {
            if listed.len() == 0 {
                assert(remote_file_rows_of(listed) =~= Seq::<DownloadFile>::empty());
            }
        }
        DownloadItem {
            id: torrent.id,
            name: torrent.name,
            size: torrent.size,
            created_at: torrent.created_at,
            status,
            download_type: DownloadType::Torrent,
            download_speed: torrent.download_speed,
            upload_speed: torrent.upload_speed,
            active: torrent.active,
            files,
            is_season,
            season_info,
            eta: Some(torrent.eta),
            total_downloaded: Some(torrent.total_downloaded),
            private: torrent.private,
            magnet: torrent.magnet,
            source_url: None,
            seeds: Some(torrent.seeds),
            peers: Some(torrent.peers),
        }
    }

    /// The row for a torrent at the current time of the system clock.
    pub fn from_torrent(torrent: Torrent) -> (r: DownloadItem)
        ensures
            r.id == torrent.id,
            r.name == torrent.name,
            r.size == torrent.size,
            r.created_at == torrent.created_at,
            exists|now: (i64, u32)|
                r.status@ == #[trigger] final_status(
                    stalled_status_spec(
                        torrent.download_state@,
                        torrent.download_speed,
                        torrent.upload_speed,
                        Some(torrent.active),
                        Some(torrent.seeds),
                        Some(torrent.peers),
                        rfc3339_instant(torrent.updated_at@),
                        now,
                    ),
                    torrent.active,
                    torrent.download_finished,
                    torrent.cached,
                    expiry_passed(opt_string_view(torrent.expires_at), now),
                    true,
                ),
            r.download_type == DownloadType::Torrent,
            r.download_speed == torrent.download_speed,
            r.upload_speed == torrent.upload_speed,
            r.active == torrent.active,
            r.files@ == remote_file_rows_of(
                match torrent.files {
                    Some(fs) => fs@,
                    None => Seq::empty(),
                },
            ),
            r.is_season == names_season(lowercase_of(torrent.name@)),
            season_info_matches(
                r.season_info,
                match torrent.files {
                    Some(fs) => season_row(torrent.name@, fs@.len() as int),
                    None => None,
                },
            ),
            r.eta == Some(torrent.eta),
            r.total_downloaded == Some(torrent.total_downloaded),
            r.private == torrent.private,
            r.magnet == torrent.magnet,
            r.source_url is None,
            r.seeds == Some(torrent.seeds),
            r.peers == Some(torrent.peers),
    {
        let now = now_instant();
        Self::from_torrent_at(torrent, now)
    }

    /// The row for a web download at a given current instant.
    pub fn from_web_download_at(web_dl: WebDownload, now: (i64, u32)) -> (r: DownloadItem)
        ensures
            web_row_as(web_dl, web_dl.status@, now, r),
    {
        let is_season = is_season_name(web_dl.name.as_str());
        let season_info = season_info_for(web_dl.name.as_str(), is_season, web_dl.files.len());
        let status = detect_stalled_status_at(
            web_dl.status.as_str(),
            0,
            0,
            None,
            None,
            None,
            web_dl.created_at.as_str(),
            None,
            now,
        );
        let lower = to_lowercase(web_dl.status.as_str());
        let active = str_eq(lower.as_str(), "downloading") || str_eq(lower.as_str(), "active");
        let files = web_file_rows(web_dl.files);
        DownloadItem {
            id: web_dl.id,
            name: web_dl.name,
            size: web_dl.size,
            created_at: web_dl.created_at,
            status,
            download_type: DownloadType::WebDownload,
            download_speed: 0,
            upload_speed: 0,
            active,
            files,
            is_season,
            season_info,
            eta: None,
            total_downloaded: None,
            private: false,
            magnet: None,
            source_url: Some(web_dl.url),
            seeds: None,
            peers: None,
        }
    }

    /// The row for a web download at the current time of the system clock.
    pub fn from_web_download(web_dl: WebDownload) -> (r: DownloadItem)
        ensures
            r.id == web_dl.id,
            r.name == web_dl.name,
            r.size == web_dl.size,
            r.created_at == web_dl.created_at,
            exists|now: (i64, u32)|
                r.status@ == #[trigger] stalled_status_spec(
                    web_dl.status@,
                    0,
                    0,
                    None,
                    None,
                    None,
                    rfc3339_instant(web_dl.created_at@),
                    now,
                ),
            r.download_type == DownloadType::WebDownload,
            r.download_speed == 0,
            r.upload_speed == 0,
            r.active == (lowercase_of(web_dl.status@) == "downloading"@ || lowercase_of(
                web_dl.status@,
            ) == "active"@),
            r.files@ == web_file_rows_of(web_dl.files@),
            r.is_season == names_season(lowercase_of(web_dl.name@)),
            season_info_matches(r.season_info, season_row(web_dl.name@, web_dl.files@.len() as int)),
            r.eta is None,
            r.total_downloaded is None,
            !r.private,
            r.magnet is None,
            r.source_url == Some(web_dl.url),
            r.seeds is None,
            r.peers is None,
    {
        let now = now_instant();
        Self::from_web_download_at(web_dl, now)
    }

    /// The row for a usenet download at a given current instant.
    pub fn from_usenet_at(usenet: UsenetDownload, now: (i64, u32)) -> (r: DownloadItem)
        ensures
            usenet_row_as(usenet, usenet.download_state@, now, r),
    {
        let is_season = is_season_name(usenet.name.as_str());
        let season_info = season_info_for(usenet.name.as_str(), is_season, usenet.files.len());
        let detected = detect_stalled_status_at(
            usenet.download_state.as_str(),
            usenet.download_speed,
            0,
            Some(usenet.active),
            None,
            None,
            usenet.created_at.as_str(),
            Some(usenet.updated_at.as_str()),
            now,
        );
        let expired = has_expired(&usenet.expires_at, now);
        let status = resolve_final_status(
            detected,
            usenet.active,
            usenet.download_finished,
            usenet.cached,
            expired,
            false,
        );
        let files = remote_file_rows(usenet.files);
        DownloadItem {
            id: usenet.id,
            name: usenet.name,
            size: usenet.size,
            created_at: usenet.created_at,
            status,
            download_type: DownloadType::Usenet,
            download_speed: usenet.download_speed,
            upload_speed: 0,
            active: usenet.active,
            files,
            is_season,
            season_info,
            eta: Some(usenet.eta),
            total_downloaded: None,
            private: false,
            magnet: None,
            source_url: usenet.original_url,
            seeds: None,
            peers: None,
        }
    }

    /// The row for a usenet download at the current time of the system clock.
    pub fn from_usenet(usenet: UsenetDownload) -> (r: DownloadItem)
        ensures
            r.id == usenet.id,
            r.name == usenet.name,
            r.size == usenet.size,
            r.created_at == usenet.created_at,
            exists|now: (i64, u32)|
                r.status@ == #[trigger] final_status(
                    stalled_status_spec(
                        usenet.download_state@,
                        usenet.download_speed,
                        0,
                        Some(usenet.active),
                        None,
                        None,
                        rfc3339_instant(usenet.updated_at@),
                        now,
                    ),
                    usenet.active,
                    usenet.download_finished,
                    usenet.cached,
                    expiry_passed(opt_string_view(usenet.expires_at), now),
                    false,
                ),
            r.download_type == DownloadType::Usenet,
            r.download_speed == usenet.download_speed,
            r.upload_speed == 0,
            r.active == usenet.active,
            r.files@ == remote_file_rows_of(usenet.files@),
            r.is_season == names_season(lowercase_of(usenet.name@)),
            season_info_matches(r.season_info, season_row(usenet.name@, usenet.files@.len() as int)),
            r.eta == Some(usenet.eta),
            r.total_downloaded is None,
            !r.private,
            r.magnet is None,
            r.source_url == usenet.original_url,
            r.seeds is None,
            r.peers is None,
    {
        let now = now_instant();
        Self::from_usenet_at(usenet, now)
    }
}

} // verus!
