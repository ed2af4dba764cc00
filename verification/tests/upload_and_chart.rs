use std::collections::VecDeque;
use torbox_companion::chart::{
    calculate_total_speeds, chart_notice, ChartPanel, css_fallback, has_activity, label_step, peak_speeds,
    record_speeds, shows_time_label, time_span, DataPoint, TEN_MINUTES_MS,
};
use torbox_companion::download::{DownloadItem, DownloadType};
use torbox_companion::upload::{
    accept_extension, accepts_file_name, dropped_files_text, error_message, failure_status,
    join_lines, parse_links, picked_files_text, ApiFailure, UploadForm, UploadRequest, UploadType,
};

fn active_row(id: i32, active: bool, dl: i64, ul: i64) -> DownloadItem {
    DownloadItem {
        id,
        name: "n".to_string(),
        size: 0,
        created_at: String::new(),
        status: "downloading".to_string(),
        download_type: DownloadType::Torrent,
        download_speed: dl,
        upload_speed: ul,
        active,
        files: Vec::new(),
        is_season: false,
        season_info: None,
        eta: None,
        total_downloaded: None,
        private: false,
        magnet: None,
        source_url: None,
        seeds: None,
        peers: None,
    }
}

fn names(v: &[&str]) -> Vec<String> {
    v.iter().map(|s| s.to_string()).collect()
}

#[test]
fn links_are_split_trimmed_and_blank_lines_dropped() {
    let links = parse_links("  magnet:?a \n\n\t\r\nmagnet:?b\r\n   \nhttps://c  ");
    assert_eq!(links, names(&["magnet:?a", "magnet:?b", "https://c"]));
    assert!(parse_links("").is_empty());
    assert!(parse_links("\n \n").is_empty());
    assert_eq!(parse_links("one"), names(&["one"]));
}

#[test]
fn parsed_links_have_no_outer_spaces() {
    for l in parse_links(" a b \n\u{a0}x\u{2003}\n") {
        assert!(!l.is_empty());
        assert_eq!(l.trim(), l);
        assert!(!l.contains('\n'));
    }
}

#[test]
fn file_kinds() {
    assert_eq!(accept_extension(UploadType::Torrents), Some(".torrent"));
    assert_eq!(accept_extension(UploadType::NZB), Some(".nzb"));
    assert_eq!(accept_extension(UploadType::WebLinks), None);
    assert!(accepts_file_name(UploadType::Torrents, "a.torrent"));
    assert!(!accepts_file_name(UploadType::Torrents, "a.nzb"));
    assert!(accepts_file_name(UploadType::NZB, "b.nzb"));
    assert!(!accepts_file_name(UploadType::WebLinks, "a.torrent"));
}

#[test]
fn dropped_and_picked_files() {
    let dropped = names(&["a.torrent", "b.nzb", "c.torrent"]);
    assert_eq!(dropped_files_text(UploadType::Torrents, &dropped), Some("a.torrent\nc.torrent".to_string()));
    assert_eq!(dropped_files_text(UploadType::NZB, &dropped), Some("b.nzb".to_string()));
    assert_eq!(dropped_files_text(UploadType::WebLinks, &dropped), None);
    assert_eq!(picked_files_text(&dropped), Some("a.torrent\nb.nzb\nc.torrent".to_string()));
    assert_eq!(picked_files_text(&Vec::new()), None);
    assert_eq!(join_lines(&names(&["x"])), "x");
    assert_eq!(join_lines(&Vec::new()), "");
}

#[test]
fn failure_notes() {
    assert_eq!(failure_status(ApiFailure::HttpError(503)), "Status: 503");
    assert_eq!(failure_status(ApiFailure::RateLimitError), "Status: 429");
    assert_eq!(failure_status(ApiFailure::AuthenticationError), "Status: 401");
    assert_eq!(failure_status(ApiFailure::ValidationError), "Status: 400");
    assert_eq!(failure_status(ApiFailure::NotFoundError), "Status: 404");
    assert_eq!(failure_status(ApiFailure::ServerError), "Status: 500");
    assert_eq!(failure_status(ApiFailure::Other), "Unknown error");
    assert_eq!(error_message("Bad link", ApiFailure::ValidationError), "Bad link (Status: 400)");
}

#[test]
fn upload_run_all_accepted_clears_text() {
    let mut form = UploadForm::new();
    assert!(form.is_collapsed);
    assert!(form.upload_disabled());
    form.set_links_text(UploadType::Torrents, " m1 \n\nm2\n".to_string());
    assert!(!form.upload_disabled());
    let links = form.begin_upload().unwrap();
    assert_eq!(links, names(&["m1", "m2"]));
    assert!(form.is_uploading);
    assert!(form.upload_disabled());
    assert_eq!(form.upload_total, 2);
    assert_eq!(form.progress_text(), "Processing 0 of 2");
    assert_eq!(form.button_label(), "Uploading...");
    assert!(form.begin_upload().is_none());
    form.record_success();
    form.record_success();
    assert_eq!(form.progress_text(), "Processing 2 of 2");
    form.finish_upload(UploadType::Torrents, true);
    assert!(!form.is_uploading);
    assert_eq!(form.links_text(UploadType::Torrents), "");
    assert_eq!(form.button_label(), "Upload");
}

#[test]
fn upload_run_with_failure_keeps_text() {
    let mut form = UploadForm::new();
    form.upload_type = UploadType::NZB;
    form.set_links_text(UploadType::NZB, "https://a\nhttps://b".to_string());
    form.set_links_text(UploadType::WebLinks, "keep".to_string());
    let links = form.begin_upload().unwrap();
    form.record_success();
    form.record_failure(&links[1], "Not found", ApiFailure::NotFoundError);
    assert_eq!(form.upload_progress, 2);
    assert_eq!(form.upload_errors, vec![("https://b".to_string(), "Not found (Status: 404)".to_string())]);
    form.finish_upload(UploadType::NZB, true);
    assert_eq!(form.links_text(UploadType::NZB), "https://a\nhttps://b");
    assert_eq!(form.links_text(UploadType::WebLinks), "keep");
}

#[test]
fn upload_without_links_or_key() {
    let mut form = UploadForm::new();
    form.set_links_text(UploadType::Torrents, " \n ".to_string());
    assert!(form.begin_upload().is_none());
    assert!(!form.is_uploading);
    assert_eq!(form.upload_total, 0);
    form.set_links_text(UploadType::Torrents, "m".to_string());
    form.begin_upload().unwrap();
    form.finish_upload(UploadType::Torrents, false);
    assert_eq!(form.links_text(UploadType::Torrents), "m");
}

#[test]
fn upload_requests_carry_options() {
    let mut form = UploadForm::new();
    form.seed_duration = 3;
    form.allow_zip = true;
    form.add_only_if_cached = true;
    match form.request_for(UploadType::Torrents, "magnet:?x") {
        UploadRequest::Torrent { magnet, seed, allow_zip, as_queued, add_only_if_cached } => {
            assert_eq!(magnet, "magnet:?x");
            assert_eq!(seed, 3);
            assert!(allow_zip && !as_queued && add_only_if_cached);
        }
        _ => panic!("expected a torrent request"),
    }
    match form.request_for(UploadType::WebLinks, "https://w") {
        UploadRequest::Web { link, .. } => assert_eq!(link, "https://w"),
        _ => panic!("expected a web request"),
    }
    match form.request_for(UploadType::NZB, "https://n") {
        UploadRequest::Usenet { link, .. } => assert_eq!(link, "https://n"),
        _ => panic!("expected a usenet request"),
    }
    form.toggle_collapse();
    assert!(!form.is_collapsed);
}

#[test]
fn speeds_of_active_downloads() {
    let rows = vec![active_row(1, true, 100, 5), active_row(2, false, 999, 999), active_row(3, true, 50, 0)];
    assert_eq!(calculate_total_speeds(&rows), (150, 5));
    assert_eq!(calculate_total_speeds(&[]), (0, 0));
    assert!(has_activity((0, 1)));
    assert!(!has_activity((0, 0)));
    assert!(!has_activity((-5, 0)));
}

#[test]
fn history_keeps_ten_minutes() {
    let mut points: VecDeque<DataPoint> = VecDeque::new();
    record_speeds(&mut points, 1_000, 10, 0);
    record_speeds(&mut points, 2_000, 0, 0);
    assert_eq!(points.len(), 1);
    record_speeds(&mut points, 300_000, 20, 1);
    record_speeds(&mut points, 1_000 + TEN_MINUTES_MS, 30, 0);
    assert_eq!(points.len(), 3);
    record_speeds(&mut points, 1_001 + TEN_MINUTES_MS, 40, 0);
    assert_eq!(points.len(), 3);
    assert_eq!(points[0].timestamp, 300_000);
    assert_eq!(points.back().unwrap().download_speed, 40);
    for p in points.iter() {
        assert!(1_001 + TEN_MINUTES_MS - p.timestamp <= TEN_MINUTES_MS);
    }
}

#[test]
fn chart_figures() {
    let mut points: VecDeque<DataPoint> = VecDeque::new();
    assert_eq!(chart_notice(&points), Some("No data available"));
    assert_eq!(peak_speeds(&points), (0, 0));
    assert_eq!(time_span(&points, 1_000_000), (400_000, 600_000));
    points.push_back(DataPoint { timestamp: 5_000, download_speed: 0, upload_speed: 0 });
    assert_eq!(chart_notice(&points), Some("No network activity"));
    points.push_back(DataPoint { timestamp: 5_500, download_speed: 300, upload_speed: 7 });
    points.push_back(DataPoint { timestamp: 9_000, download_speed: 100, upload_speed: 70 });
    assert_eq!(chart_notice(&points), None);
    assert_eq!(peak_speeds(&points), (300, 70));
    assert_eq!(time_span(&points, 0), (5_000, 4_000));
    let short: VecDeque<DataPoint> = points.iter().take(2).cloned().collect();
    assert_eq!(time_span(&short, 0), (5_000, 1_000));
}

#[test]
fn time_labels() {
    assert_eq!(label_step(0), 1);
    assert_eq!(label_step(8), 1);
    assert_eq!(label_step(9), 1);
    assert_eq!(label_step(17), 2);
    assert_eq!(label_step(80), 10);
    assert!(shows_time_label(0, 80));
    assert!(shows_time_label(10, 80));
    assert!(!shows_time_label(11, 80));
    assert!(shows_time_label(79, 80));
    assert_eq!(css_fallback("--bg-card"), "#1a1a1a");
    assert_eq!(css_fallback("--text-secondary"), "#a3a3a3");
    assert_eq!(css_fallback("--other"), "#000000");
}

#[test]
fn chart_panel_folds_with_activity() {
    let mut panel = ChartPanel::new();
    assert!(panel.collapsed);
    panel.follow_activity((0, 3));
    assert!(!panel.collapsed);
    panel.toggle();
    assert!(panel.collapsed);
    panel.toggle();
    assert!(!panel.collapsed);
    panel.follow_activity((0, 0));
    assert!(panel.collapsed);
}
