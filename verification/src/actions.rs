//! Which actions a download row offers, what they send, and the links they copy.

use vstd::prelude::*;
use crate::download::{
    filter_files, get_largest_video_file, get_media_files, largest_index, usable_media,
    usable_video, DownloadItem, DownloadType,
};
use crate::text::{
    chars_of, contains_seq, int_decimal, lowercase_of, occurs_at, push_decimal, push_str,
    str_contains, str_eq, string_from_chars, to_lowercase,
};

verus! {

/// A status that blocks handing files out: paused, stopped, stalled, failed,
/// inactive, unknown or erroneous.
pub open spec fn blocks_files(l: Seq<char>) -> bool {
    l == "paused"@ || l == "stopped"@ || contains_seq(l, "stopped"@) || contains_seq(l, "stalled"@)
        || l == "failed"@ || l == "inactive"@ || l == "unknown"@ || contains_seq(l, "error"@)
}

/// Files can be handed out (downloaded, streamed, uploaded to the cloud): the status,
/// in lower case, is completed, cached or seeding, and nothing blocks it.
pub open spec fn files_available(status: Seq<char>) -> bool {
    let l = lowercase_of(status);
    !blocks_files(l) && (l == "completed"@ || l == "cached"@ || (contains_seq(l, "seeding"@)
        && !contains_seq(l, "stopped"@)))
}

fn files_available_exec(status: &str) -> (r: bool)
    ensures
        r == files_available(status@),
{
    let lower = to_lowercase(status);
    let l = lower.as_str();
    if str_eq(l, "paused") || str_eq(l, "stopped") || str_contains(l, "stopped") || str_contains(
        l,
        "stalled",
    ) || str_eq(l, "failed") || str_eq(l, "inactive") || str_eq(l, "unknown") || str_contains(
        l,
        "error",
    ) {
        return false;
    }
    str_eq(l, "completed") || str_eq(l, "cached") || (str_contains(l, "seeding") && !str_contains(
        l,
        "stopped",
    ))
}

/// Whether a row offers downloading its files.
pub fn is_download_enabled(status: &str) -> (r: bool)
    ensures
        r == files_available(status@),
{
    files_available_exec(status)
}

/// Whether a row offers an upload to a cloud drive.
pub fn is_cloud_upload_enabled(status: &str) -> (r: bool)
    ensures
        r == files_available(status@),
{
    files_available_exec(status)
}

/// Whether a row offers streaming: only on the streaming plan, and only when its files
/// can be handed out.
pub fn is_stream_enabled(status: &str, has_streaming_plan: bool) -> (r: bool)
    ensures
        r == (has_streaming_plan && files_available(status@)),
{
    if !has_streaming_plan {
        return false;
    }
    files_available_exec(status)
}

/// A status that can be paused or resumed.
pub open spec fn pausable(status: Seq<char>) -> bool {
    let l = lowercase_of(status);
    l == "downloading"@ || l == "active"@ || contains_seq(l, "seeding"@) || l == "paused"@ || l
        == "stopped"@ || contains_seq(l, "stalled"@)
}

/// Whether a row offers pausing or resuming.
pub fn is_pause_resume_enabled(status: &str) -> (r: bool)
    ensures
        r == pausable(status@),
{
    let lower = to_lowercase(status);
    let l = lower.as_str();
    str_eq(l, "downloading") || str_eq(l, "active") || str_contains(l, "seeding") || str_eq(
        l,
        "paused",
    ) || str_eq(l, "stopped") || str_contains(l, "stalled")
}

/// Whether a row offers asking the trackers again: torrents that are stalled or checking.
pub fn is_reannounce_enabled(status: &str, download_type: DownloadType) -> (r: bool)
    ensures
        r == (download_type == DownloadType::Torrent && ({
            let l = lowercase_of(status@);
            l == "stalled"@ || l == "stalled (no seeds)"@ || l == "checking"@
        })),
{
    if download_type != DownloadType::Torrent {
        return false;
    }
    let lower = to_lowercase(status);
    let l = lower.as_str();
    str_eq(l, "stalled") || str_eq(l, "stalled (no seeds)") || str_eq(l, "checking")
}

/// Whether a row offers deletion: always.
pub fn is_delete_enabled(_status: &str) -> (r: bool)
    ensures
        r,
{
    true
}

/// The control operation that the pause/resume button sends.
pub open spec fn pause_resume_operation(download_type: DownloadType, status: Seq<char>) -> Seq<char> {
    let l = lowercase_of(status);
    if download_type == DownloadType::Torrent {
        if l == "downloading"@ || l == "active"@ {
            "stop"@
        } else if l == "seeding"@ || l == "completed"@ || l == "cached"@ || contains_seq(
            l,
            "seeding"@,
        ) || contains_seq(l, "uploading"@) {
            "stop_seeding"@
        } else if l == "paused"@ || l == "stopped"@ || contains_seq(l, "stalled"@) {
            "resume"@
        } else {
            "stop"@
        }
    } else if l == "downloading"@ || l == "active"@ {
        "stop"@
    } else if l == "paused"@ || l == "stopped"@ || l == "stalled"@ {
        "resume"@
    } else {
        "stop"@
    }
}

/// For every kind of download, a paused, stopped or stalled row (in any letter case)
/// is resumed, never stopped again.
pub proof fn lemma_paused_rows_resume(download_type: DownloadType, status: Seq<char>)
    requires
        lowercase_of(status) == "paused"@ || lowercase_of(status) == "stopped"@ || lowercase_of(
            status,
        ) == "stalled"@,
    ensures
        pause_resume_operation(download_type, status) == "resume"@,
{
    let l = lowercase_of(status);
    reveal_strlit("paused");
    reveal_strlit("stopped");
    reveal_strlit("stalled");
    reveal_strlit("downloading");
    reveal_strlit("active");
    reveal_strlit("seeding");
    reveal_strlit("completed");
    reveal_strlit("cached");
    reveal_strlit("uploading");
    assert("paused"@[0] != "active"@[0] && "paused"@[0] != "cached"@[0]);
    assert("stopped"@[1] != "seeding"@[1] && "stalled"@[1] != "seeding"@[1]);
    assert(l != "downloading"@ && l != "active"@ && l != "seeding"@ && l != "completed"@ && l
        != "cached"@);
    assert(!contains_seq(l, "uploading"@));
    assert(!contains_seq(l, "seeding"@)) by {
        if contains_seq(l, "seeding"@) {
            let i = choose|i: int| occurs_at(l, "seeding"@, i);
            assert(i == 0);
            assert(l.subrange(0, 7) =~= l);
        }
    }
    if l == "stalled"@ {
        assert(occurs_at(l, "stalled"@, 0)) by {
            assert(l.subrange(0, 7) =~= l);
        }
    }
}

/// A seeding, completed or cached torrent stops seeding; a completed or cached web or
/// usenet download is sent a plain stop.
pub proof fn lemma_finished_rows_stop(download_type: DownloadType, status: Seq<char>)
    requires
        lowercase_of(status) == "seeding"@ || lowercase_of(status) == "completed"@
            || lowercase_of(status) == "cached"@,
    ensures
        download_type == DownloadType::Torrent ==> pause_resume_operation(download_type, status)
            == "stop_seeding"@,
        download_type != DownloadType::Torrent && lowercase_of(status) != "seeding"@
            ==> pause_resume_operation(download_type, status) == "stop"@,
{
    reveal_strlit("seeding");
    reveal_strlit("completed");
    reveal_strlit("cached");
    reveal_strlit("downloading");
    reveal_strlit("active");
    reveal_strlit("paused");
    reveal_strlit("stopped");
    reveal_strlit("stalled");
    assert("seeding"@.len() == 7 && "completed"@.len() == 9 && "cached"@.len() == 6);
    assert("downloading"@.len() == 11 && "active"@.len() == 6);
    assert("cached"@[0] != "active"@[0] && "cached"@[0] != "paused"@[0]);
    assert("completed"@.len() != "stopped"@.len() && "completed"@.len() != "stalled"@.len());
}

/// For every kind of download, a downloading or active row (in any letter case) is
/// stopped.
pub proof fn lemma_downloading_rows_stop(download_type: DownloadType, status: Seq<char>)
    requires
        lowercase_of(status) == "downloading"@ || lowercase_of(status) == "active"@,
    ensures
        pause_resume_operation(download_type, status) == "stop"@,
{
}

/// The control operation that the pause/resume button sends for a row.
pub fn stop_resume_operation(download_type: DownloadType, current_status: &str) -> (r: &'static str)
    ensures
        r@ == pause_resume_operation(download_type, current_status@),
{
    let lower = to_lowercase(current_status);
    let l = lower.as_str();
    if download_type == DownloadType::Torrent {
        if str_eq(l, "downloading") || str_eq(l, "active") {
            "stop"
        } else if str_eq(l, "seeding") || str_eq(l, "completed") || str_eq(l, "cached")
            || str_contains(l, "seeding") || str_contains(l, "uploading") {
            "stop_seeding"
        } else if str_eq(l, "paused") || str_eq(l, "stopped") || str_contains(l, "stalled") {
            "resume"
        } else {
            "stop"
        }
    } else if str_eq(l, "downloading") || str_eq(l, "active") {
        "stop"
    } else if str_eq(l, "paused") || str_eq(l, "stopped") || str_eq(l, "stalled") {
        "resume"
    } else {
        "stop"
    }
}

/// The service path that hands out download links for a kind.
pub open spec fn download_path(t: DownloadType) -> Seq<char> {
    match t {
        DownloadType::Torrent => "/api/torrents/download"@,
        DownloadType::WebDownload => "/api/webdl/download"@,
        DownloadType::Usenet => "/api/usenet/download"@,
    }
}

/// The query parameter that names the download for a kind.
pub open spec fn id_parameter(t: DownloadType) -> Seq<char> {
    match t {
        DownloadType::Torrent => "torrent_id="@,
        DownloadType::WebDownload => "web_id="@,
        DownloadType::Usenet => "usenet_id="@,
    }
}

/// The address that asks for a download link: `<origin><path>?<kind>_id=<id>`, with
/// `&file_id=<file>` for a single file.
pub open spec fn download_request_url(origin: Seq<char>, t: DownloadType, id: i32, file_id: Option<i32>) -> Seq<char> {
    let base = origin + download_path(t) + "?"@ + id_parameter(t) + int_decimal(id as int);
    match file_id {
        Some(f) => base + "&file_id="@ + int_decimal(f as int),
        None => base,
    }
}

/// The address that asks the service for a download link of a download or one of its files.
pub fn download_request_url_for(origin: &str, t: DownloadType, id: i32, file_id: Option<i32>) -> (r: String)
    ensures
        r@ == download_request_url(origin@, t, id, file_id),
{
    let mut out = chars_of(origin);
    let (path, param) = match t {
        DownloadType::Torrent => ("/api/torrents/download", "torrent_id="),
        DownloadType::WebDownload => ("/api/webdl/download", "web_id="),
        DownloadType::Usenet => ("/api/usenet/download", "usenet_id="),
    };
    push_str(&mut out, path);
    push_str(&mut out, "?");
    push_str(&mut out, param);
    push_decimal(&mut out, id as i64);
    let ghost base = out@;
    match file_id {
        Some(f) => {
            push_str(&mut out, "&file_id=");
            push_decimal(&mut out, f as i64);
        },
        None => {},
    }
    string_from_chars(&out)
}

/// The stream kind sent when streaming a download.
pub open spec fn stream_kind(t: DownloadType) -> Seq<char> {
    match t {
        DownloadType::Torrent => "torrent"@,
        DownloadType::WebDownload => "webdownload"@,
        DownloadType::Usenet => "usenet"@,
    }
}

/// The stream kind sent when streaming a download.
pub fn stream_type_name(t: DownloadType) -> (r: &'static str)
    ensures
        r@ == stream_kind(t),
{
    match t {
        DownloadType::Torrent => "torrent",
        DownloadType::WebDownload => "webdownload",
        DownloadType::Usenet => "usenet",
    }
}

/// The kind sent with a cloud upload request.
pub open spec fn cloud_kind(t: DownloadType) -> Seq<char> {
    match t {
        DownloadType::Torrent => "torrent"@,
        DownloadType::WebDownload => "webdl"@,
        DownloadType::Usenet => "usenet"@,
    }
}

/// The kind sent with a cloud upload request.
pub fn cloud_upload_type_name(t: DownloadType) -> (r: &'static str)
    ensures
        r@ == cloud_kind(t),
{
    match t {
        DownloadType::Torrent => "torrent",
        DownloadType::WebDownload => "webdl",
        DownloadType::Usenet => "usenet",
    }
}

/// The position of the first row with the given id (-1 if none).
pub open spec fn first_with_id(rows: Seq<DownloadItem>, id: i32) -> int
    decreases rows.len(),
{
    if rows.len() == 0 {
        -1
    } else if rows[0].id == id {
        0
    } else {
        let r = first_with_id(rows.drop_first(), id);
        if r < 0 {
            -1
        } else {
            r + 1
        }
    }
}

proof fn lemma_first_with_id(rows: Seq<DownloadItem>, id: i32)
    ensures
        -1 <= first_with_id(rows, id) < rows.len(),
        first_with_id(rows, id) >= 0 ==> rows[first_with_id(rows, id)].id == id,
        first_with_id(rows, id) >= 0 ==> forall|k: int| 0 <= k < first_with_id(rows, id) ==> (#[trigger] rows[k]).id != id,
        first_with_id(rows, id) < 0 ==> forall|k: int| 0 <= k < rows.len() ==> (#[trigger] rows[k]).id != id,
    decreases rows.len(),
{
    if rows.len() > 0 && rows[0].id != id {
        lemma_first_with_id(rows.drop_first(), id);
        assert forall|k: int| 1 <= k < rows.len() implies rows[k] == rows.drop_first()[k - 1] by {}
    }
}

/// The position of the first row with the given id.
pub fn find_by_id(rows: &[DownloadItem], id: i32) -> (r: Option<usize>)
    ensures
        match r {
            Some(p) => p as int == first_with_id(rows@, id) && p < rows@.len() && rows@[p as int].id
                == id,
            None => first_with_id(rows@, id) == -1,
        },
{
    proof {
        lemma_first_with_id(rows@, id);
    }
    let mut i: usize = 0;
    while i < rows.len()
        invariant
            i <= rows@.len(),
            forall|k: int| 0 <= k < i ==> (#[trigger] rows@[k]).id != id,
            -1 <= first_with_id(rows@, id) < rows@.len(),
            first_with_id(rows@, id) >= 0 ==> rows@[first_with_id(rows@, id)].id == id,
            first_with_id(rows@, id) >= 0 ==> forall|k: int| 0 <= k < first_with_id(rows@, id) ==> (#[trigger] rows@[k]).id != id,
            first_with_id(rows@, id) < 0 ==> forall|k: int| 0 <= k < rows@.len() ==> (#[trigger] rows@[k]).id != id,
        decreases rows@.len() - i,
    {
        if rows[i].id == id {
            return Some(i);
        }
        i = i + 1;
    }
    None
}

/// The link copied for a row: the magnet link of a torrent, the source address otherwise.
pub open spec fn copy_link_of(item: DownloadItem) -> Option<String> {
    match item.download_type {
        DownloadType::Torrent => item.magnet,
        _ => item.source_url,
    }
}

/// The link copied for a row.
pub fn copy_link(item: &DownloadItem) -> (r: Option<String>)
    ensures
        r == copy_link_of(*item),
{
    match item.download_type {
        DownloadType::Torrent => item.magnet.clone(),
        _ => item.source_url.clone(),
    }
}


/// The links copied for selected ids, in the given order: for each id, the link of the
/// first row with that id, where the row has one.
pub open spec fn selected_links(ids: Seq<i32>, rows: Seq<DownloadItem>) -> Seq<Seq<char>>
    decreases ids.len(),
{
    if ids.len() == 0 {
        Seq::empty()
    } else {
        let rest = selected_links(ids.drop_last(), rows);
        let p = first_with_id(rows, ids.last());
        if p >= 0 && copy_link_of(rows[p]) is Some {
            rest.push(copy_link_of(rows[p])->0@)
        } else {
            rest
        }
    }
}

/// Texts joined with a separator between them.
pub open spec fn joined(parts: Seq<Seq<char>>, sep: Seq<char>) -> Seq<char>
    decreases parts.len(),
{
    if parts.len() == 0 {
        Seq::empty()
    } else if parts.len() == 1 {
        parts[0]
    } else {
        joined(parts.drop_last(), sep) + sep + parts.last()
    }
}

/// The text copied for a bulk copy of links: the links of the selected rows, one per
/// line; `None` when no selected row has a link.
pub fn bulk_copy_text(ids: &Vec<i32>, rows: &[DownloadItem]) -> (r: Option<String>)
    ensures
        match r {
            Some(t) => selected_links(ids@, rows@).len() > 0 && t@ == joined(
                selected_links(ids@, rows@),
                "\n"@,
            ),
            None => selected_links(ids@, rows@).len() == 0,
        },
{
    let mut out: Vec<char> = Vec::new();
    let mut count: usize = 0;
    let mut i: usize = 0;
    while i < ids.len()
        invariant
            i <= ids@.len(),
            count == selected_links(ids@.take(i as int), rows@).len(),
            count <= i,
            out@ == joined(selected_links(ids@.take(i as int), rows@), "\n"@),
        decreases ids@.len() - i,
    {
        assert(ids@.take(i + 1).drop_last() =~= ids@.take(i as int));
        match find_by_id(rows, ids[i]) {
            Some(p) => {
                match copy_link(&rows[p]) {
                    Some(link) => {
                        let ghost before = selected_links(ids@.take(i as int), rows@);
                        let ghost after = before.push(link@);
                        assert(after.drop_last() =~= before);
                        if count > 0 {
                            push_str(&mut out, "\n");
                        }
                        push_str(&mut out, link.as_str());
                        count = count + 1;
                        assert(selected_links(ids@.take(i + 1), rows@) == after);
                        assert(out@ =~= joined(after, "\n"@));
                    },
                    None => {},
                }
            },
            None => {},
        }
        i = i + 1;
    }
    assert(ids@.take(i as int) =~= ids@);
    if count == 0 {
        None
    } else {
        Some(string_from_chars(&out))
    }
}

/// The kinds of the selected ids, in the given order: for each id, the id and kind of
/// the first row with that id; ids without a row are skipped.
pub open spec fn selected_targets(ids: Seq<i32>, rows: Seq<DownloadItem>) -> Seq<(i32, DownloadType)>
    decreases ids.len(),
{
    if ids.len() == 0 {
        Seq::empty()
    } else {
        let rest = selected_targets(ids.drop_last(), rows);
        let p = first_with_id(rows, ids.last());
        if p >= 0 {
            rest.push((ids.last(), rows[p].download_type))
        } else {
            rest
        }
    }
}

/// The id and kind of each selected row, for bulk downloads and deletions.
pub fn resolve_selected(ids: &Vec<i32>, rows: &[DownloadItem]) -> (r: Vec<(i32, DownloadType)>)
    ensures
        r@ == selected_targets(ids@, rows@),
{
    let mut out: Vec<(i32, DownloadType)> = Vec::new();
    let mut i: usize = 0;
    while i < ids.len()
        invariant
            i <= ids@.len(),
            out@ == selected_targets(ids@.take(i as int), rows@),
        decreases ids@.len() - i,
    {
        assert(ids@.take(i + 1).drop_last() =~= ids@.take(i as int));
        match find_by_id(rows, ids[i]) {
            Some(p) => {
                out.push((ids[i], rows[p].download_type));
            },
            None => {},
        }
        i = i + 1;
    }
    assert(ids@.take(i as int) =~= ids@);
    out
}

/// The file ids fetched by a download action: the given file, or else the usable media
/// files of the first row with the id (none when there is no such row).
pub open spec fn download_targets(rows: Seq<DownloadItem>, id: i32, file_id: Option<i32>) -> Seq<i32> {
    match file_id {
        Some(f) => seq![f],
        None => {
            let p = first_with_id(rows, id);
            if p >= 0 {
                filter_files(rows[p].files@, |f: crate::download::DownloadFile| usable_media(f)).map_values(
                    |f: crate::download::DownloadFile| f.id,
                )
            } else {
                Seq::empty()
            }
        },
    }
}

/// The file ids fetched by a download action.
pub fn download_file_ids(rows: &[DownloadItem], id: i32, file_id: Option<i32>) -> (r: Vec<i32>)
    ensures
        r@ == download_targets(rows@, id, file_id),
{
    match file_id {
        Some(f) => {
            let mut v: Vec<i32> = Vec::new();
            v.push(f);
            assert(v@ =~= seq![f]);
            v
        },
        None => match find_by_id(rows, id) {
            Some(p) => {
                let media = get_media_files(rows[p].files.as_slice());
                let mut v: Vec<i32> = Vec::new();
                let mut k: usize = 0;
                let ghost ms = media@.unref();
                while k < media.len()
                    invariant
                        k <= media@.len(),
                        ms == media@.unref(),
                        v@ == ms.take(k as int).map_values(|f: crate::download::DownloadFile| f.id),
                    decreases media@.len() - k,
                {
                    v.push(media[k].id);
                    k = k + 1;
                    assert(v@ =~= ms.take(k as int).map_values(|f: crate::download::DownloadFile| f.id));
                }
                assert(ms.take(k as int) =~= ms);
                v
            },
            None => Vec::new(),
        },
    }
}

/// The addresses a download action asks, in order: one per fetched file, with its file
/// id; or, when no file is to be fetched, one for the whole download without a file id.
pub open spec fn download_requests(
    origin: Seq<char>,
    rows: Seq<DownloadItem>,
    t: DownloadType,
    id: i32,
    file_id: Option<i32>,
) -> Seq<Seq<char>> {
    let fs = download_targets(rows, id, file_id);
    if fs.len() == 0 {
        seq![download_request_url(origin, t, id, None)]
    } else {
        fs.map_values(|f: i32| download_request_url(origin, t, id, Some(f)))
    }
}

/// The addresses a download action asks, in order.
pub fn download_request_urls(
    origin: &str,
    rows: &[DownloadItem],
    t: DownloadType,
    id: i32,
    file_id: Option<i32>,
) -> (r: Vec<String>)
    ensures
        crate::upload::string_views(r@) == download_requests(origin@, rows@, t, id, file_id),
{
    let targets = download_file_ids(rows, id, file_id);
    let mut out: Vec<String> = Vec::new();
    if targets.len() == 0 {
        out.push(download_request_url_for(origin, t, id, None));
        assert(crate::upload::string_views(out@) =~= download_requests(origin@, rows@, t, id, file_id));
        return out;
    }
    let mut i: usize = 0;
    while i < targets.len()
        invariant
            i <= targets@.len(),
            targets@ == download_targets(rows@, id, file_id),
            crate::upload::string_views(out@) == targets@.take(i as int).map_values(
                |f: i32| download_request_url(origin@, t, id, Some(f)),
            ),
        decreases targets@.len() - i,
    {
        let ghost before = out@;
        out.push(download_request_url_for(origin, t, id, Some(targets[i])));
        assert(crate::upload::string_views(out@) =~= crate::upload::string_views(before).push(
            download_request_url(origin@, t, id, Some(targets@[i as int])),
        ));
        assert(targets@.take(i + 1) =~= targets@.take(i as int).push(targets@[i as int]));
        i = i + 1;
        assert(crate::upload::string_views(out@) =~= targets@.take(i as int).map_values(
            |f: i32| download_request_url(origin@, t, id, Some(f)),
        ));
    }
    assert(targets@.take(i as int) =~= targets@);
    out
}

/// The file streamed by a stream action: the given file, or else the largest usable video
/// file of the first row with the id.
pub open spec fn stream_target(rows: Seq<DownloadItem>, id: i32, file_id: Option<i32>) -> Option<i32> {
    match file_id {
        Some(f) => Some(f),
        None => {
            let p = first_with_id(rows, id);
            if p >= 0 {
                let vids = filter_files(rows[p].files@, |f: crate::download::DownloadFile| usable_video(f));
                if vids.len() > 0 {
                    Some(vids[largest_index(vids)].id)
                } else {
                    None
                }
            } else {
                None
            }
        },
    }
}

/// The file streamed by a stream action.
pub fn stream_file_id(rows: &[DownloadItem], id: i32, file_id: Option<i32>) -> (r: Option<i32>)
    ensures
        r == stream_target(rows@, id, file_id),
{
    match file_id {
        Some(f) => Some(f),
        None => match find_by_id(rows, id) {
            Some(p) => match get_largest_video_file(rows[p].files.as_slice()) {
                Some(f) => Some(f.id),
                None => None,
            },
            None => None,
        },
    }
}

/// Whether the user's plan includes streaming (plan 2).
pub fn has_streaming_plan(plan: Option<i32>) -> (r: bool)
    ensures
        r == (plan == Some(2i32)),
{
    match plan {
        Some(p) => p == 2,
        None => false,
    }
}

/// The shown name of a plan.
pub open spec fn plan_label(plan: i32) -> Seq<char> {
    if plan == 1 {
        "Essential"@
    } else if plan == 2 {
        "Pro"@
    } else if plan == 3 {
        "Standard"@
    } else {
        "Plan "@ + int_decimal(plan as int)
    }
}

/// The shown name of a plan.
pub fn plan_name(plan: i32) -> (r: String)
    ensures
        r@ == plan_label(plan),
{
    if plan == 1 {
        String::from_str("Essential")
    } else if plan == 2 {
        String::from_str("Pro")
    } else if plan == 3 {
        String::from_str("Standard")
    } else {
        let mut out = chars_of("Plan ");
        push_decimal(&mut out, plan as i64);
        string_from_chars(&out)
    }
}

} // verus!
