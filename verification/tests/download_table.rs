use std::collections::HashSet;
use torbox_companion::actions::{
    bulk_copy_text, copy_link, download_file_ids, download_request_urls, find_by_id, resolve_selected,
    stream_file_id,
};
use torbox_companion::status::normalize_status;
use torbox_companion::download::{DownloadFile, DownloadItem, DownloadType};
use torbox_companion::rows::{
    all_files_expanded, has_files, toggle_dropdown, toggle_expand_all_files, toggle_expansion,
};
use torbox_companion::table::{
    get_download_counts, merge_polled_downloads, remove_download, sort_key_from_name,
    status_filter_matches, type_filter_matches, visible_positions, DownloadSortKey,
};

fn file(id: i32, size: i64, mime: Option<&str>) -> DownloadFile {
    DownloadFile {
        id,
        name: format!("file{}", id),
        size,
        md5: None,
        hash: None,
        zipped: Some(false),
        s3_path: None,
        infected: Some(false),
        mimetype: mime.map(|m| m.to_string()),
        short_name: None,
        absolute_path: None,
        opensubtitles_hash: None,
    }
}

fn row(id: i32, t: DownloadType, name: &str, size: i64, created: &str, status: &str) -> DownloadItem {
    DownloadItem {
        id,
        name: name.to_string(),
        size,
        created_at: created.to_string(),
        status: status.to_string(),
        download_type: t,
        download_speed: 0,
        upload_speed: 0,
        active: false,
        files: Vec::new(),
        is_season: false,
        season_info: None,
        eta: None,
        total_downloaded: None,
        private: false,
        magnet: None,
        source_url: None,
        seeds: None,
        peers: None,
    }
}

fn sample() -> Vec<DownloadItem> {
    vec![
        row(1, DownloadType::Torrent, "beta", 10, "2024-01-02", "downloading"),
        row(2, DownloadType::Usenet, "alpha", 30, "2024-01-01", "completed"),
        row(3, DownloadType::WebDownload, "gamma", 20, "2024-01-03", "queued"),
        row(4, DownloadType::Torrent, "delta", 20, "2024-01-04", "paused"),
    ]
}

#[test]
fn status_filters() {
    assert!(status_filter_matches("all", "anything"));
    assert!(status_filter_matches("downloading", "metaDL"));
    assert!(status_filter_matches("Downloading", "downloading"));
    assert!(status_filter_matches("cached", "completed"));
    assert!(!status_filter_matches("completed", "cached"));
    assert!(status_filter_matches("inactive", "paused"));
    assert!(status_filter_matches("inactive", "weird"));
    assert!(!status_filter_matches("inactive", "seeding"));
    assert!(!status_filter_matches("queued", "downloading"));
}

#[test]
fn kind_filters() {
    assert!(type_filter_matches("all", DownloadType::Usenet));
    assert!(type_filter_matches("torrent", DownloadType::Torrent));
    assert!(!type_filter_matches("torrent", DownloadType::Usenet));
    assert!(type_filter_matches("web", DownloadType::WebDownload));
    assert!(type_filter_matches("other", DownloadType::WebDownload));
}

#[test]
fn sort_keys_by_name() {
    assert_eq!(sort_key_from_name("name"), Some(DownloadSortKey::Name));
    assert_eq!(sort_key_from_name("progress"), None);
    assert_eq!(sort_key_from_name("created_at"), Some(DownloadSortKey::Date));
    assert_eq!(sort_key_from_name("type"), Some(DownloadSortKey::Type));
}

#[test]
fn visible_rows_sorted_and_filtered() {
    let rows = sample();
    assert_eq!(visible_positions(&rows, "all", "all", "name", "asc"), vec![1, 0, 3, 2]);
    assert_eq!(visible_positions(&rows, "all", "all", "name", "desc"), vec![2, 3, 0, 1]);
    assert_eq!(visible_positions(&rows, "all", "all", "size", "asc"), vec![0, 2, 3, 1]);
    assert_eq!(visible_positions(&rows, "all", "all", "size", "desc"), vec![1, 2, 3, 0]);
    assert_eq!(visible_positions(&rows, "all", "all", "created_at", "asc"), vec![1, 0, 2, 3]);
    assert_eq!(visible_positions(&rows, "all", "all", "progress", "asc"), vec![0, 1, 2, 3]);
    assert_eq!(visible_positions(&rows, "all", "torrent", "name", "asc"), vec![0, 3]);
    assert_eq!(visible_positions(&rows, "inactive", "all", "name", "asc"), vec![3]);
    assert_eq!(visible_positions(&rows, "all", "all", "status", "asc"), vec![2, 0, 1, 3]);
    assert_eq!(visible_positions(&rows, "all", "all", "queued", "asc"), vec![2, 1, 0, 3]);
    assert_eq!(visible_positions(&rows, "all", "all", "type", "asc"), vec![0, 3, 1, 2]);
}

#[test]
fn equal_keys_keep_their_order() {
    let rows = sample();
    let asc = visible_positions(&rows, "all", "all", "size", "asc");
    let p2 = asc.iter().position(|&p| p == 2).unwrap();
    let p3 = asc.iter().position(|&p| p == 3).unwrap();
    assert!(p2 < p3);
    let desc = visible_positions(&rows, "all", "all", "size", "desc");
    let q2 = desc.iter().position(|&p| p == 2).unwrap();
    let q3 = desc.iter().position(|&p| p == 3).unwrap();
    assert!(q2 < q3);
}

#[test]
fn row_counts() {
    let rows = sample();
    let c = get_download_counts(&rows);
    assert_eq!(c.total, 4);
    assert_eq!(c.torrents, 2);
    assert_eq!(c.usenet, 1);
    assert_eq!(c.webdl, 1);
    assert_eq!(c.downloading, 1);
    assert_eq!(c.queued, 1);
    assert_eq!(c.cached, 1);
    assert_eq!(c.inactive, 1);
    assert_eq!(c.seeding, 0);
    assert_eq!(c.paused, 0);
    assert_eq!(c.error, 0);
    assert_eq!(c.stalled, 0);
}

#[test]
fn poll_merge_replaces_appends_and_drops() {
    let current = sample();
    let mut updated = row(1, DownloadType::Torrent, "beta", 10, "2024-01-02", "seeding");
    updated.download_speed = 5;
    let fetched = vec![
        updated,
        row(9, DownloadType::Usenet, "new", 1, "2024-02-01", "queued"),
        row(3, DownloadType::WebDownload, "gamma", 20, "2024-01-03", "downloading"),
    ];
    let merged = merge_polled_downloads(current, fetched);
    let ids: Vec<(i32, DownloadType)> = merged.iter().map(|r| (r.id, r.download_type)).collect();
    assert_eq!(ids, vec![(1, DownloadType::Torrent), (3, DownloadType::WebDownload), (9, DownloadType::Usenet)]);
    assert_eq!(merged[0].status, "seeding");
    assert_eq!(merged[0].download_speed, 5);
    assert_eq!(merged[1].status, "downloading");
}

#[test]
fn poll_merge_tells_kinds_apart() {
    let current = vec![row(1, DownloadType::Torrent, "t", 1, "a", "queued")];
    let fetched = vec![row(1, DownloadType::Usenet, "u", 2, "b", "queued")];
    let merged = merge_polled_downloads(current, fetched);
    assert_eq!(merged.len(), 1);
    assert_eq!(merged[0].download_type, DownloadType::Usenet);
}

#[test]
fn poll_with_nothing_clears_the_list() {
    let merged = merge_polled_downloads(sample(), Vec::new());
    assert!(merged.is_empty());
}

#[test]
fn deletion_drops_only_that_row() {
    let rows = remove_download(sample(), 1, DownloadType::Torrent);
    assert_eq!(rows.len(), 3);
    assert!(rows.iter().all(|r| r.id != 1));
    let same = remove_download(sample(), 1, DownloadType::Usenet);
    assert_eq!(same.len(), 4);
}

#[test]
fn links_and_targets() {
    let mut rows = sample();
    rows[0].magnet = Some("magnet:?xt=one".to_string());
    rows[1].source_url = Some("https://nzb".to_string());
    rows[0].files = vec![
        file(11, 500, Some("video/mp4")),
        file(12, 900, Some("video/x-matroska")),
        file(13, 50, Some("text/plain")),
        file(14, 70, Some("audio/flac")),
    ];
    assert_eq!(copy_link(&rows[0]), Some("magnet:?xt=one".to_string()));
    assert_eq!(copy_link(&rows[2]), None);
    assert_eq!(bulk_copy_text(&vec![2, 1, 3], &rows), Some("https://nzb\nmagnet:?xt=one".to_string()));
    assert_eq!(bulk_copy_text(&vec![3, 4], &rows), None);
    assert_eq!(find_by_id(&rows, 3), Some(2));
    assert_eq!(find_by_id(&rows, 42), None);
    assert_eq!(
        resolve_selected(&vec![4, 42, 2], &rows),
        vec![(4, DownloadType::Torrent), (2, DownloadType::Usenet)]
    );
    assert_eq!(download_file_ids(&rows, 1, None), vec![11, 12, 14]);
    assert_eq!(download_file_ids(&rows, 1, Some(13)), vec![13]);
    assert_eq!(stream_file_id(&rows, 1, None), Some(12));
    assert_eq!(stream_file_id(&rows, 2, None), None);
}

#[test]
fn expansion_toggles() {
    let mut expanded: HashSet<i32> = HashSet::new();
    toggle_expansion(&mut expanded, 5);
    assert!(expanded.contains(&5));
    toggle_expansion(&mut expanded, 5);
    assert!(!expanded.contains(&5));
}

#[test]
fn unfold_all_then_fold_all() {
    let mut rows = sample();
    rows[0].files = vec![file(1, 1, None)];
    rows[2].files = vec![file(2, 1, None)];
    assert!(has_files(&rows));
    let mut expanded: HashSet<i32> = HashSet::new();
    expanded.insert(1);
    expanded.insert(77);
    assert!(!all_files_expanded(&rows, &expanded));
    toggle_expand_all_files(&mut expanded, &rows);
    assert!(expanded.contains(&1) && expanded.contains(&3) && expanded.contains(&77));
    assert!(all_files_expanded(&rows, &expanded));
    toggle_expand_all_files(&mut expanded, &rows);
    assert!(!expanded.contains(&1) && !expanded.contains(&3));
    assert!(expanded.contains(&77));
    assert!(!has_files(&sample()));
}

#[test]
fn dropdown_toggles() {
    assert_eq!(toggle_dropdown(None, 3), Some(3));
    assert_eq!(toggle_dropdown(Some(3), 3), None);
    assert_eq!(toggle_dropdown(Some(2), 3), Some(3));
}

#[test]
fn download_action_urls() {
    let mut rows = sample();
    rows[0].files = vec![file(11, 500, Some("video/mp4")), file(13, 50, Some("text/plain"))];
    rows[2].files = vec![file(21, 5, Some("text/plain"))];
    assert_eq!(
        download_request_urls("https://x", &rows, DownloadType::Torrent, 1, None),
        vec!["https://x/api/torrents/download?torrent_id=1&file_id=11".to_string()]
    );
    assert_eq!(
        download_request_urls("https://x", &rows, DownloadType::WebDownload, 3, None),
        vec!["https://x/api/webdl/download?web_id=3".to_string()]
    );
    assert_eq!(
        download_request_urls("https://x", &rows, DownloadType::Usenet, 42, None),
        vec!["https://x/api/usenet/download?usenet_id=42".to_string()]
    );
    assert_eq!(
        download_request_urls("", &rows, DownloadType::Usenet, 2, Some(7)),
        vec!["/api/usenet/download?usenet_id=2&file_id=7".to_string()]
    );
}

#[test]
fn normalizing_twice_changes_nothing() {
    for s in ["Downloading", "metaDL", "COMPLETED", "paused", "stalled (no seeds)", "Queued", "weird", ""] {
        let once = normalize_status(s);
        assert_eq!(normalize_status(&once), once);
    }
}

#[test]
fn counts_match_filtered_rows() {
    let mut rows = sample();
    rows.push(row(5, DownloadType::Usenet, "eps", 1, "2024-01-05", "uploading"));
    rows.push(row(6, DownloadType::WebDownload, "zeta", 1, "2024-01-06", "checkingResumeData"));
    rows.push(row(7, DownloadType::Torrent, "eta", 1, "2024-01-07", "Échec"));
    rows.push(row(8, DownloadType::Usenet, "theta", 1, "2024-01-08", "téléchargement"));
    let c = get_download_counts(&rows);
    assert_eq!(c.total, rows.len());
    assert_eq!(c.torrents + c.usenet + c.webdl, c.total);
    assert_eq!(c.cached + c.downloading + c.seeding + c.queued + c.inactive, c.total);
    assert_eq!(visible_positions(&rows, "downloading", "all", "name", "asc").len(), c.downloading);
    assert_eq!(visible_positions(&rows, "seeding", "all", "name", "asc").len(), c.seeding);
    assert_eq!(visible_positions(&rows, "queued", "all", "name", "asc").len(), c.queued);
    assert_eq!(visible_positions(&rows, "cached", "all", "name", "asc").len(), c.cached);
    assert_eq!(visible_positions(&rows, "inactive", "all", "name", "asc").len(), c.inactive);
}
