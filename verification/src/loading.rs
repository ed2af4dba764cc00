//! Loading the download lists: what a failed list is reported as, how the failures of
//! one load are summed up, and when the rows loaded so far are shown.

use vstd::prelude::*;
use crate::actions::joined;
use crate::clock::now_instant;
use crate::download::{
    torrent_row_as, usenet_row_as, web_row_as, DownloadItem, Torrent, UsenetDownload, WebDownload,
};
use crate::text::{push_str, string_from_chars};
use crate::upload::string_views;

verus! {

/// The lists one load asks for.
#[derive(Clone, Copy, Debug, PartialEq, Eq, Structural)]
pub enum DownloadList {
    Torrents,
    WebDownloads,
    Usenet,
    QueuedTorrents,
    QueuedUsenet,
    QueuedWebDownloads,
}

/// How a list is named in a failure message.
pub open spec fn list_phrase(l: DownloadList) -> Seq<char> {
    match l {
        DownloadList::Torrents => "torrents"@,
        DownloadList::WebDownloads => "web downloads"@,
        DownloadList::Usenet => "usenet downloads"@,
        DownloadList::QueuedTorrents => "queued torrents"@,
        DownloadList::QueuedUsenet => "queued usenet downloads"@,
        DownloadList::QueuedWebDownloads => "queued web downloads"@,
    }
}

fn list_phrase_exec(l: DownloadList) -> (r: &'static str)
    ensures
        r@ == list_phrase(l),
{
    match l {
        DownloadList::Torrents => "torrents",
        DownloadList::WebDownloads => "web downloads",
        DownloadList::Usenet => "usenet downloads",
        DownloadList::QueuedTorrents => "queued torrents",
        DownloadList::QueuedUsenet => "queued usenet downloads",
        DownloadList::QueuedWebDownloads => "queued web downloads",
    }
}

/// The message for a list that could not be fetched: `Failed to fetch <list>: <error>`.
pub fn fetch_failure_message(l: DownloadList, error: &str) -> (r: String)
    ensures
        r@ == "Failed to fetch "@ + list_phrase(l) + ": "@ + error@,
{
    let mut out: Vec<char> = Vec::new();
    push_str(&mut out, "Failed to fetch ");
    push_str(&mut out, list_phrase_exec(l));
    push_str(&mut out, ": ");
    push_str(&mut out, error);
    string_from_chars(&out)
}

/// What a finished load reports: an error when every list failed to give a row and
/// something failed; warnings when something failed but rows came.
pub struct LoadReport {
    pub error: Option<String>,
    pub warnings: Vec<String>,
}

/// The report of a load with the given failure messages and number of rows: failures
/// and no rows make one error, the messages joined by `; `; failures with rows are
/// warnings; no failure reports nothing.
pub open spec fn report_of(failures: Seq<Seq<char>>, loaded: nat, r: LoadReport) -> bool {
    &&& failures.len() > 0 && loaded == 0 ==> (r.error matches Some(e) && e@ == joined(
        failures,
        "; "@,
    )) && r.warnings@.len() == 0
    &&& failures.len() > 0 && loaded > 0 ==> r.error is None && string_views(r.warnings@)
        == failures
    &&& failures.len() == 0 ==> r.error is None && r.warnings@.len() == 0
}

/// Sums up a load from its failure messages and the number of rows it gave: failures
/// and no rows make one error, the messages joined by `; `; failures with rows are
/// warnings; no failure reports nothing.
pub fn summarize_load(failures: Vec<String>, loaded: usize) -> (r: LoadReport)
    ensures
        report_of(string_views(failures@), loaded as nat, r),
{
    if failures.len() == 0 {
        return LoadReport { error: None, warnings: Vec::new() };
    }
    if loaded == 0 {
        let mut out: Vec<char> = Vec::new();
        let mut i: usize = 0;
        while i < failures.len()
            invariant
                i <= failures@.len(),
                out@ == joined(string_views(failures@.take(i as int)), "; "@),
            decreases failures@.len() - i,
        {
            let ghost before = string_views(failures@.take(i as int));
            assert(string_views(failures@.take(i + 1)) =~= before.push(failures@[i as int]@));
            assert(before.push(failures@[i as int]@).drop_last() =~= before);
            if i > 0 {
                push_str(&mut out, "; ");
            }
            push_str(&mut out, failures[i].as_str());
            i = i + 1;
        }
        assert(failures@.take(i as int) =~= failures@);
        LoadReport { error: Some(string_from_chars(&out)), warnings: Vec::new() }
    } else {
        LoadReport { error: None, warnings: failures }
    }
}

/// Why a load could not start.
#[derive(Clone, Copy, Debug, PartialEq, Eq, Structural)]
pub enum LoadBlocker {
    NoWindow,
    NoStorage,
    NoApiKey,
}

/// The error shown when a load could not start.
pub fn blocker_message(b: LoadBlocker) -> (r: &'static str)
    ensures
        r@ == match b {
            LoadBlocker::NoWindow => "Failed to access window"@,
            LoadBlocker::NoStorage => "Failed to access localStorage"@,
            LoadBlocker::NoApiKey => "No API key found"@,
        },
{
    match b {
        LoadBlocker::NoWindow => "Failed to access window",
        LoadBlocker::NoStorage => "Failed to access localStorage",
        LoadBlocker::NoApiKey => "No API key found",
    }
}

/// What the loader does after adding a row: show the rows so far and let the page
/// draw (every twentieth row), only let other tasks run (every third row otherwise),
/// or go on.
#[derive(Clone, Copy, Debug, PartialEq, Eq, Structural)]
pub enum LoadPause {
    ShowRows,
    LetTasksRun,
    GoOn,
}

/// What the loader does after the given number of rows.
pub fn pause_after(rows_loaded: usize) -> (r: LoadPause)
    ensures
        r == if rows_loaded % 20 == 0 {
            LoadPause::ShowRows
        } else if rows_loaded % 3 == 0 {
            LoadPause::LetTasksRun
        } else {
            LoadPause::GoOn
        },
{
    if rows_loaded % 20 == 0 {
        LoadPause::ShowRows
    } else if rows_loaded % 3 == 0 {
        LoadPause::LetTasksRun
    } else {
        LoadPause::GoOn
    }
}

/// A torrent from the queued list: its state is `queued`.
pub fn queued_torrent(t: Torrent) -> (r: Torrent)
    ensures
        r.download_state@ == "queued"@,
        r.id == t.id,
        r.name == t.name,
        r.size == t.size,
        r.created_at == t.created_at,
        r.updated_at == t.updated_at,
        r.download_speed == t.download_speed,
        r.upload_speed == t.upload_speed,
        r.active == t.active,
        r.seeds == t.seeds,
        r.peers == t.peers,
        r.download_finished == t.download_finished,
        r.cached == t.cached,
        r.expires_at == t.expires_at,
        r.files == t.files,
        r.eta == t.eta,
        r.total_downloaded == t.total_downloaded,
        r.private == t.private,
        r.magnet == t.magnet,
{
    let mut t = t;
    t.download_state = String::from_str("queued");
    t
}

/// A usenet download from the queued list: its state is `queued`.
pub fn queued_usenet(u: UsenetDownload) -> (r: UsenetDownload)
    ensures
        r.download_state@ == "queued"@,
        r.id == u.id,
        r.name == u.name,
        r.size == u.size,
        r.created_at == u.created_at,
        r.updated_at == u.updated_at,
        r.download_speed == u.download_speed,
        r.active == u.active,
        r.download_finished == u.download_finished,
        r.cached == u.cached,
        r.expires_at == u.expires_at,
        r.files == u.files,
        r.eta == u.eta,
        r.original_url == u.original_url,
{
    let mut u = u;
    u.download_state = String::from_str("queued");
    u
}

/// A web download from the queued list: its status is `queued`.
pub fn queued_web_download(w: WebDownload) -> (r: WebDownload)
    ensures
        r.status@ == "queued"@,
        r.id == w.id,
        r.name == w.name,
        r.size == w.size,
        r.created_at == w.created_at,
        r.url == w.url,
        r.files == w.files,
{
    let mut w = w;
    w.status = String::from_str("queued");
    w
}

/// The rows a list gives, appended to `out` in list order: each made at `now`, with the
/// reported status, or `queued` for a queued list.
fn append_torrent_rows(out: &mut Vec<DownloadItem>, list: Vec<Torrent>, queued: bool, now: (i64, u32))
    ensures
        final(out)@.len() == old(out)@.len() + list@.len(),
        forall|i: int| 0 <= i < old(out)@.len() ==> #[trigger] final(out)@[i] == old(out)@[i],
        forall|i: int|
            0 <= i < list@.len() ==> torrent_row_as(
                list@[i],
                if queued {
                    "queued"@
                } else {
                    list@[i].download_state@
                },
                now,
                #[trigger] final(out)@[old(out)@.len() + i],
            ),
{
    let ghost src = list@;
    let ghost start = out@;
    for t in it: list.into_iter()
        invariant
            it.seq() == src,
            out@.len() == start.len() + it.index(),
            forall|i: int| 0 <= i < start.len() ==> #[trigger] out@[i] == start[i],
            forall|i: int|
                0 <= i < it.index() ==> torrent_row_as(
                    src[i],
                    if queued {
                        "queued"@
                    } else {
                        src[i].download_state@
                    },
                    now,
                    #[trigger] out@[start.len() + i],
                ),
    {
        let ghost k = it.index() as int;
        let row = if queued {
            DownloadItem::from_torrent_at(queued_torrent(t), now)
        } else {
            DownloadItem::from_torrent_at(t, now)
        };
        out.push(row);
        assert(out@[start.len() + k] == row);
    }
}

fn append_web_rows(out: &mut Vec<DownloadItem>, list: Vec<WebDownload>, queued: bool, now: (i64, u32))
    ensures
        final(out)@.len() == old(out)@.len() + list@.len(),
        forall|i: int| 0 <= i < old(out)@.len() ==> #[trigger] final(out)@[i] == old(out)@[i],
        forall|i: int|
            0 <= i < list@.len() ==> web_row_as(
                list@[i],
                if queued {
                    "queued"@
                } else {
                    list@[i].status@
                },
                now,
                #[trigger] final(out)@[old(out)@.len() + i],
            ),
{
    let ghost src = list@;
    let ghost start = out@;
    for w in it: list.into_iter()
        invariant
            it.seq() == src,
            out@.len() == start.len() + it.index(),
            forall|i: int| 0 <= i < start.len() ==> #[trigger] out@[i] == start[i],
            forall|i: int|
                0 <= i < it.index() ==> web_row_as(
                    src[i],
                    if queued {
                        "queued"@
                    } else {
                        src[i].status@
                    },
                    now,
                    #[trigger] out@[start.len() + i],
                ),
    {
        let ghost k = it.index() as int;
        let row = if queued {
            DownloadItem::from_web_download_at(queued_web_download(w), now)
        } else {
            DownloadItem::from_web_download_at(w, now)
        };
        out.push(row);
        assert(out@[start.len() + k] == row);
    }
}

fn append_usenet_rows(out: &mut Vec<DownloadItem>, list: Vec<UsenetDownload>, queued: bool, now: (i64, u32))
    ensures
        final(out)@.len() == old(out)@.len() + list@.len(),
        forall|i: int| 0 <= i < old(out)@.len() ==> #[trigger] final(out)@[i] == old(out)@[i],
        forall|i: int|
            0 <= i < list@.len() ==> usenet_row_as(
                list@[i],
                if queued {
                    "queued"@
                } else {
                    list@[i].download_state@
                },
                now,
                #[trigger] final(out)@[old(out)@.len() + i],
            ),
{
    let ghost src = list@;
    let ghost start = out@;
    for u in it: list.into_iter()
        invariant
            it.seq() == src,
            out@.len() == start.len() + it.index(),
            forall|i: int| 0 <= i < start.len() ==> #[trigger] out@[i] == start[i],
            forall|i: int|
                0 <= i < it.index() ==> usenet_row_as(
                    src[i],
                    if queued {
                        "queued"@
                    } else {
                        src[i].download_state@
                    },
                    now,
                    #[trigger] out@[start.len() + i],
                ),
    {
        let ghost k = it.index() as int;
        let row = if queued {
            DownloadItem::from_usenet_at(queued_usenet(u), now)
        } else {
            DownloadItem::from_usenet_at(u, now)
        };
        out.push(row);
        assert(out@[start.len() + k] == row);
    }
}

/// The six lists one load asks for, each as the service answered: its records, or the
/// text of the error.
pub struct DownloadLists {
    pub torrents: Result<Vec<Torrent>, String>,
    pub web_downloads: Result<Vec<WebDownload>, String>,
    pub usenet: Result<Vec<UsenetDownload>, String>,
    pub queued_torrents: Result<Vec<Torrent>, String>,
    pub queued_usenet: Result<Vec<UsenetDownload>, String>,
    pub queued_web_downloads: Result<Vec<WebDownload>, String>,
}

/// The records a list answered with (none when it failed).
pub open spec fn answered<T>(a: Result<Vec<T>, String>) -> Seq<T> {
    match a {
        Ok(v) => v@,
        Err(_) => Seq::empty(),
    }
}

/// The failure message of a list, if it failed.
pub open spec fn list_failure<T>(l: DownloadList, a: Result<Vec<T>, String>) -> Seq<Seq<char>> {
    match a {
        Ok(_) => Seq::empty(),
        Err(e) => seq!["Failed to fetch "@ + list_phrase(l) + ": "@ + e@],
    }
}

/// The failure messages of a load, in the order the lists are read.
pub open spec fn load_failures(lists: DownloadLists) -> Seq<Seq<char>> {
    list_failure(DownloadList::Torrents, lists.torrents) + list_failure(
        DownloadList::WebDownloads,
        lists.web_downloads,
    ) + list_failure(DownloadList::Usenet, lists.usenet) + list_failure(
        DownloadList::QueuedTorrents,
        lists.queued_torrents,
    ) + list_failure(DownloadList::QueuedUsenet, lists.queued_usenet) + list_failure(
        DownloadList::QueuedWebDownloads,
        lists.queued_web_downloads,
    )
}

/// The rows of a load at `now`: the torrents, web downloads and usenet downloads as
/// reported, then the queued torrents, usenet downloads and web downloads with status
/// `queued`, each list in its order.
pub open spec fn rows_from_lists(lists: DownloadLists, now: (i64, u32), rows: Seq<DownloadItem>) -> bool {
    let t = answered(lists.torrents);
    let w = answered(lists.web_downloads);
    let u = answered(lists.usenet);
    let qt = answered(lists.queued_torrents);
    let qu = answered(lists.queued_usenet);
    let qw = answered(lists.queued_web_downloads);
    let o1 = t.len() as int;
    let o2 = o1 + w.len();
    let o3 = o2 + u.len();
    let o4 = o3 + qt.len();
    let o5 = o4 + qu.len();
    &&& rows.len() == o5 + qw.len()
    &&& forall|i: int| 0 <= i < t.len() ==> torrent_row_as(t[i], t[i].download_state@, now, #[trigger] rows[i])
    &&& forall|i: int| 0 <= i < w.len() ==> web_row_as(w[i], w[i].status@, now, #[trigger] rows[o1 + i])
    &&& forall|i: int| 0 <= i < u.len() ==> usenet_row_as(u[i], u[i].download_state@, now, #[trigger] rows[o2 + i])
    &&& forall|i: int| 0 <= i < qt.len() ==> torrent_row_as(qt[i], "queued"@, now, #[trigger] rows[o3 + i])
    &&& forall|i: int| 0 <= i < qu.len() ==> usenet_row_as(qu[i], "queued"@, now, #[trigger] rows[o4 + i])
    &&& forall|i: int| 0 <= i < qw.len() ==> web_row_as(qw[i], "queued"@, now, #[trigger] rows[o5 + i])
}

fn note_failure<T>(failures: &mut Vec<String>, l: DownloadList, a: &Result<Vec<T>, String>)
    ensures
        string_views(final(failures)@) == string_views(old(failures)@) + list_failure(l, *a),
{
    match a {
        Ok(_) => {
            assert(string_views(failures@) =~= string_views(old(failures)@) + list_failure(l, *a));
        },
        Err(e) => {
            failures.push(fetch_failure_message(l, e.as_str()));
            assert(string_views(failures@) =~= string_views(old(failures)@) + list_failure(l, *a));
        },
    }
}

/// The rows and report of a load whose rows are made at `now`.
pub fn load_rows_at(lists: DownloadLists, now: (i64, u32)) -> (r: (Vec<DownloadItem>, LoadReport))
    ensures
        rows_from_lists(lists, now, r.0@),
        report_of(load_failures(lists), r.0@.len(), r.1),
{
    let ghost l = lists;
    let mut failures: Vec<String> = Vec::new();
    note_failure(&mut failures, DownloadList::Torrents, &lists.torrents);
    note_failure(&mut failures, DownloadList::WebDownloads, &lists.web_downloads);
    note_failure(&mut failures, DownloadList::Usenet, &lists.usenet);
    note_failure(&mut failures, DownloadList::QueuedTorrents, &lists.queued_torrents);
    note_failure(&mut failures, DownloadList::QueuedUsenet, &lists.queued_usenet);
    note_failure(&mut failures, DownloadList::QueuedWebDownloads, &lists.queued_web_downloads);
    assert(string_views(failures@) =~= load_failures(l));
    let mut rows: Vec<DownloadItem> = Vec::new();
    let ghost r0 = rows@;
    match lists.torrents {
        Ok(v) => append_torrent_rows(&mut rows, v, false, now),
        Err(_) => {},
    }
    let ghost r1 = rows@;
    match lists.web_downloads {
        Ok(v) => append_web_rows(&mut rows, v, false, now),
        Err(_) => {},
    }
    let ghost r2 = rows@;
    match lists.usenet {
        Ok(v) => append_usenet_rows(&mut rows, v, false, now),
        Err(_) => {},
    }
    let ghost r3 = rows@;
    match lists.queued_torrents {
        Ok(v) => append_torrent_rows(&mut rows, v, true, now),
        Err(_) => {},
    }
    let ghost r4 = rows@;
    match lists.queued_usenet {
        Ok(v) => append_usenet_rows(&mut rows, v, true, now),
        Err(_) => {},
    }
    let ghost r5 = rows@;
    match lists.queued_web_downloads {
        Ok(v) => append_web_rows(&mut rows, v, true, now),
        Err(_) => {},
    }
    let ghost r6 = rows@;
    proof {
        let t = answered(l.torrents);
        let w = answered(l.web_downloads);
        let u = answered(l.usenet);
        let qt = answered(l.queued_torrents);
        let qu = answered(l.queued_usenet);
        assert(r1.len() == t.len());
        assert(r2.len() == r1.len() + w.len());
        assert(r3.len() == r2.len() + u.len());
        assert(r4.len() == r3.len() + qt.len());
        assert(r5.len() == r4.len() + qu.len());
        assert forall|i: int| 0 <= i < t.len() implies torrent_row_as(
            t[i],
            t[i].download_state@,
            now,
            #[trigger] r6[i],
        ) by {
            assert(r6[i] == r5[i] && r5[i] == r4[i] && r4[i] == r3[i] && r3[i] == r2[i] && r2[i]
                == r1[i]);
            assert(r1[r0.len() + i] == r1[i]);
        }
        assert forall|i: int| 0 <= i < w.len() implies web_row_as(
            w[i],
            w[i].status@,
            now,
            #[trigger] r6[r1.len() + i],
        ) by {
            let k = r1.len() + i;
            assert(r6[k] == r5[k] && r5[k] == r4[k] && r4[k] == r3[k] && r3[k] == r2[k]);
        }
        assert forall|i: int| 0 <= i < u.len() implies usenet_row_as(
            u[i],
            u[i].download_state@,
            now,
            #[trigger] r6[r2.len() + i],
        ) by {
            let k = r2.len() + i;
            assert(r6[k] == r5[k] && r5[k] == r4[k] && r4[k] == r3[k]);
        }
        assert forall|i: int| 0 <= i < qt.len() implies torrent_row_as(
            qt[i],
            "queued"@,
            now,
            #[trigger] r6[r3.len() + i],
        ) by {
            let k = r3.len() + i;
            assert(r6[k] == r5[k] && r5[k] == r4[k]);
        }
        assert forall|i: int| 0 <= i < qu.len() implies usenet_row_as(
            qu[i],
            "queued"@,
            now,
            #[trigger] r6[r4.len() + i],
        ) by {
            let k = r4.len() + i;
            assert(r6[k] == r5[k]);
        }
    }
    let loaded = rows.len();
    let report = summarize_load(failures, loaded);
    (rows, report)
}

/// The rows and report of a load whose rows are made at the current time of the system
/// clock.
pub fn load_rows(lists: DownloadLists) -> (r: (Vec<DownloadItem>, LoadReport))
    ensures
        exists|now: (i64, u32)| #[trigger] rows_from_lists(lists, now, r.0@),
        report_of(load_failures(lists), r.0@.len(), r.1),
{
    let now = now_instant();
    load_rows_at(lists, now)
}

} // verus!
