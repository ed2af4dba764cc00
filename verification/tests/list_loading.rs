use torbox_companion::download::{Torrent, UsenetDownload, WebDownload};
use torbox_companion::loading::{
    blocker_message, fetch_failure_message, load_rows, load_rows_at, pause_after, queued_torrent,
    queued_usenet, queued_web_download, summarize_load, DownloadList, DownloadLists, LoadBlocker,
    LoadPause,
};

#[test]
fn failure_messages() {
    assert_eq!(fetch_failure_message(DownloadList::Torrents, "timeout"), "Failed to fetch torrents: timeout");
    assert_eq!(
        fetch_failure_message(DownloadList::QueuedWebDownloads, "500"),
        "Failed to fetch queued web downloads: 500"
    );
    assert_eq!(fetch_failure_message(DownloadList::Usenet, ""), "Failed to fetch usenet downloads: ");
}

#[test]
fn load_summaries() {
    let failures = vec!["a failed".to_string(), "b failed".to_string()];
    let none_loaded = summarize_load(failures.clone(), 0);
    assert_eq!(none_loaded.error.as_deref(), Some("a failed; b failed"));
    assert!(none_loaded.warnings.is_empty());
    let some_loaded = summarize_load(failures.clone(), 3);
    assert!(some_loaded.error.is_none());
    assert_eq!(some_loaded.warnings, failures);
    let clean = summarize_load(Vec::new(), 0);
    assert!(clean.error.is_none() && clean.warnings.is_empty());
}

#[test]
fn load_blockers() {
    assert_eq!(blocker_message(LoadBlocker::NoWindow), "Failed to access window");
    assert_eq!(blocker_message(LoadBlocker::NoStorage), "Failed to access localStorage");
    assert_eq!(blocker_message(LoadBlocker::NoApiKey), "No API key found");
}

#[test]
fn loader_pauses() {
    assert_eq!(pause_after(20), LoadPause::ShowRows);
    assert_eq!(pause_after(60), LoadPause::ShowRows);
    assert_eq!(pause_after(3), LoadPause::LetTasksRun);
    assert_eq!(pause_after(21), LoadPause::LetTasksRun);
    assert_eq!(pause_after(7), LoadPause::GoOn);
}

#[test]
fn queued_lists_mark_their_rows() {
    let t = Torrent {
        id: 1,
        name: "t".to_string(),
        size: 1,
        created_at: String::new(),
        updated_at: String::new(),
        download_state: "downloading".to_string(),
        download_speed: 0,
        upload_speed: 0,
        active: false,
        seeds: 0,
        peers: 0,
        download_finished: false,
        cached: false,
        expires_at: None,
        files: None,
        eta: 0,
        total_downloaded: 0,
        private: false,
        magnet: None,
    };
    assert_eq!(queued_torrent(t).download_state, "queued");
    let u = UsenetDownload {
        id: 2,
        name: "u".to_string(),
        size: 1,
        created_at: String::new(),
        updated_at: String::new(),
        download_state: "x".to_string(),
        download_speed: 0,
        active: false,
        download_finished: false,
        cached: false,
        expires_at: None,
        files: Vec::new(),
        eta: 0,
        original_url: None,
    };
    assert_eq!(queued_usenet(u).download_state, "queued");
    let w = WebDownload {
        id: 3,
        name: "w".to_string(),
        size: 1,
        created_at: String::new(),
        status: "x".to_string(),
        url: "https://w".to_string(),
        files: Vec::new(),
    };
    let w = queued_web_download(w);
    assert_eq!(w.status, "queued");
    assert_eq!(w.url, "https://w");
}

fn web(id: i32, status: &str) -> WebDownload {
    WebDownload {
        id,
        name: format!("w{}", id),
        size: 1,
        created_at: "2024-01-01T00:00:00Z".to_string(),
        status: status.to_string(),
        url: format!("https://w/{}", id),
        files: Vec::new(),
    }
}

#[test]
fn full_load_orders_rows_and_reports() {
    let lists = DownloadLists {
        torrents: Err("timeout".to_string()),
        web_downloads: Ok(vec![web(1, "completed"), web(2, "downloading")]),
        usenet: Ok(Vec::new()),
        queued_torrents: Ok(Vec::new()),
        queued_usenet: Err("500".to_string()),
        queued_web_downloads: Ok(vec![web(3, "whatever")]),
    };
    let (rows, report) = load_rows_at(lists, (1_704_067_200, 0));
    let ids: Vec<i32> = rows.iter().map(|r| r.id).collect();
    assert_eq!(ids, vec![1, 2, 3]);
    assert_eq!(rows[2].status, "queued");
    assert_eq!(rows[0].status, "completed");
    assert!(report.error.is_none());
    assert_eq!(
        report.warnings,
        vec![
            "Failed to fetch torrents: timeout".to_string(),
            "Failed to fetch queued usenet downloads: 500".to_string()
        ]
    );
}

#[test]
fn failed_load_is_one_error() {
    let lists = DownloadLists {
        torrents: Err("a".to_string()),
        web_downloads: Err("b".to_string()),
        usenet: Ok(Vec::new()),
        queued_torrents: Ok(Vec::new()),
        queued_usenet: Ok(Vec::new()),
        queued_web_downloads: Ok(Vec::new()),
    };
    let (rows, report) = load_rows(lists);
    assert!(rows.is_empty());
    assert_eq!(
        report.error.as_deref(),
        Some("Failed to fetch torrents: a; Failed to fetch web downloads: b")
    );
}
