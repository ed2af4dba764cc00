use torbox_companion::actions::{
    cloud_upload_type_name, download_request_url_for, has_streaming_plan, is_cloud_upload_enabled,
    is_delete_enabled, is_download_enabled, is_pause_resume_enabled, is_reannounce_enabled,
    is_stream_enabled, plan_name, stop_resume_operation, stream_type_name,
};
use torbox_companion::download::DownloadType;
use torbox_companion::format::{
    byte_scale, format_date, format_eta, format_whole_bytes, result_size_unit, scale_divisor,
    scale_unit_name, ByteScale,
};
use torbox_companion::status::{
    detect_stalled_status_at, get_progress_bar_style, get_progress_bg_color,
    get_status_badge_style, get_status_color_style, get_status_priority, normalize_status,
    stalled_status,
};

#[test]
fn normalize_known_statuses() {
    assert_eq!(normalize_status("downloading"), "Downloading");
    assert_eq!(normalize_status("stalledDL"), "Stalled");
    assert_eq!(normalize_status("uploading"), "Seeding");
    assert_eq!(normalize_status("stopped seeding"), "Paused");
    assert_eq!(normalize_status("queued"), "Queued");
    assert_eq!(normalize_status("queuedUP"), "Seeding");
    assert_eq!(normalize_status("cached"), "Cached");
    assert_eq!(normalize_status("completed"), "Completed");
    assert_eq!(normalize_status("metaDL"), "Downloading");
    assert_eq!(normalize_status("checkingResumeData"), "Downloading");
    assert_eq!(normalize_status("paused"), "Paused");
    assert_eq!(normalize_status("error"), "Failed");
    assert_eq!(normalize_status("missingFiles"), "Failed");
    assert_eq!(normalize_status("EXPIRED"), "Expired");
    assert_eq!(normalize_status("inactive"), "Inactive");
}

#[test]
fn normalize_unknown_statuses() {
    assert_eq!(normalize_status(""), "Unknown");
    assert_eq!(normalize_status("weird state"), "Weird state");
    assert_eq!(normalize_status("éclair"), "Éclair");
}

#[test]
fn status_priorities() {
    assert_eq!(get_status_priority("queued"), 1);
    assert_eq!(get_status_priority("downloading"), 2);
    assert_eq!(get_status_priority("seeding"), 3);
    assert_eq!(get_status_priority("completed"), 4);
    assert_eq!(get_status_priority("cached"), 5);
    assert_eq!(get_status_priority("paused"), 6);
    assert_eq!(get_status_priority("stalled"), 7);
    assert_eq!(get_status_priority("inactive"), 8);
    assert_eq!(get_status_priority("failed"), 9);
    assert_eq!(get_status_priority("expired"), 10);
    assert_eq!(get_status_priority("something else"), 99);
}

#[test]
fn status_styles() {
    assert_eq!(get_status_color_style("completed"), "color: #4ade80;");
    assert_eq!(get_status_color_style("downloading"), "color: #3b82f6;");
    assert_eq!(get_status_color_style("paused"), "color: #facc15;");
    assert_eq!(get_status_color_style("mystery"), "color: #94a3b8;");
    assert_eq!(
        get_status_badge_style("failed"),
        "background-color: rgba(248, 113, 113, 0.15); color: #f87171; border: 1px solid rgba(248, 113, 113, 0.3);"
    );
    assert_eq!(get_progress_bg_color("completed"), "");
    assert_eq!(get_progress_bar_style("completed"), "background-color: var(--progress-fill);");
}

#[test]
fn stalled_when_no_peers_and_no_speed() {
    let r = stalled_status("downloading", 0, 0, Some(true), Some(0), Some(0), None, (0, 0));
    assert_eq!(r, "downloading (stalled)");
    let moving = stalled_status("downloading", 4096, 0, Some(true), Some(0), Some(0), None, (0, 0));
    assert_eq!(moving, "downloading");
    let inactive = stalled_status("downloading", 0, 0, Some(false), None, None, None, (0, 0));
    assert_eq!(inactive, "downloading (stalled)");
    let unknown = stalled_status("downloading", 0, 0, None, None, None, None, (0, 0));
    assert_eq!(unknown, "downloading");
}

#[test]
fn uploading_is_shown_as_seeding() {
    assert_eq!(stalled_status("uploading", 0, 0, None, None, None, None, (0, 0)), "seeding");
    assert_eq!(stalled_status("Uploading", 0, 0, None, None, None, None, (0, 0)), "seeding");
}

#[test]
fn checking_stalls_after_six_hours() {
    let created = "2024-01-01T00:00:00Z";
    let start: i64 = 1_704_067_200;
    let early = detect_stalled_status_at("checking", 0, 0, None, None, None, created, None, (start + 21_600, 0));
    assert_eq!(early, "checking");
    let late = detect_stalled_status_at("checking", 0, 0, None, None, None, created, None, (start + 21_601, 0));
    assert_eq!(late, "checking (stalled)");
    let updated = detect_stalled_status_at(
        "checking", 0, 0, None, None, None, created, Some("2024-01-01T05:00:00Z"), (start + 21_601, 0),
    );
    assert_eq!(updated, "checking");
    let unreadable = detect_stalled_status_at("checking", 0, 0, None, None, None, "not a date", None, (start + 99_999, 0));
    assert_eq!(unreadable, "checking");
}

#[test]
fn eta_texts() {
    assert_eq!(format_eta(0), "-");
    assert_eq!(format_eta(-5), "-");
    assert_eq!(format_eta(59), "59s");
    assert_eq!(format_eta(61), "1m 1s");
    assert_eq!(format_eta(3661), "1h 1m");
    assert_eq!(format_eta(90061), "1d 1h");
    assert_eq!(format_eta(172800), "2d 0h");
}

#[test]
fn date_texts() {
    assert_eq!(format_date(""), "N/A");
    assert_eq!(format_date("2024-01-15T10:30:00Z"), "January 15, 2024 at 10:30 AM");
    assert_eq!(format_date("2023-07-04T18:05:00+02:00"), "July 04, 2023 at 06:05 PM");
    assert_eq!(format_date("yesterday"), "yesterday");
}

#[test]
fn byte_scales() {
    assert_eq!(byte_scale(-1), ByteScale::Negative);
    assert_eq!(byte_scale(1023), ByteScale::Bytes);
    assert_eq!(byte_scale(1024), ByteScale::Kilo);
    assert_eq!(byte_scale(1_048_576), ByteScale::Mega);
    assert_eq!(byte_scale(1_073_741_824), ByteScale::Giga);
    assert_eq!(byte_scale(1_099_511_627_776), ByteScale::Tera);
    assert_eq!(scale_divisor(ByteScale::Mega), 1_048_576);
    assert_eq!(scale_unit_name(ByteScale::Giga, false), "GB");
    assert_eq!(scale_unit_name(ByteScale::Kilo, true), "KB/s");
    assert_eq!(scale_unit_name(ByteScale::Bytes, false), "bytes");
}

#[test]
fn whole_byte_texts() {
    assert_eq!(format_whole_bytes(-1, false), Some("Unknown".to_string()));
    assert_eq!(format_whole_bytes(-1, true), Some("0 B/s".to_string()));
    assert_eq!(format_whole_bytes(0, false), Some("0 bytes".to_string()));
    assert_eq!(format_whole_bytes(512, true), Some("512 B/s".to_string()));
    assert_eq!(format_whole_bytes(1024, false), None);
}

#[test]
fn file_actions_follow_status() {
    assert!(is_download_enabled("completed"));
    assert!(is_download_enabled("Cached"));
    assert!(is_download_enabled("seeding"));
    assert!(!is_download_enabled("stopped seeding"));
    assert!(!is_download_enabled("paused"));
    assert!(!is_download_enabled("downloading"));
    assert!(is_cloud_upload_enabled("completed"));
    assert!(!is_cloud_upload_enabled("error"));
    assert!(is_stream_enabled("completed", true));
    assert!(!is_stream_enabled("completed", false));
    assert!(is_delete_enabled("anything"));
}

#[test]
fn pause_resume_and_reannounce() {
    assert!(is_pause_resume_enabled("downloading"));
    assert!(is_pause_resume_enabled("stalledDL"));
    assert!(!is_pause_resume_enabled("completed"));
    assert!(is_reannounce_enabled("stalled", DownloadType::Torrent));
    assert!(is_reannounce_enabled("Checking", DownloadType::Torrent));
    assert!(!is_reannounce_enabled("stalled", DownloadType::Usenet));
    assert_eq!(stop_resume_operation(DownloadType::Torrent, "downloading"), "stop");
    assert_eq!(stop_resume_operation(DownloadType::Torrent, "seeding"), "stop_seeding");
    assert_eq!(stop_resume_operation(DownloadType::Torrent, "paused"), "resume");
    assert_eq!(stop_resume_operation(DownloadType::Usenet, "stalled"), "resume");
    assert_eq!(stop_resume_operation(DownloadType::Usenet, "completed"), "stop");
}

#[test]
fn request_addresses_and_names() {
    assert_eq!(
        download_request_url_for("https://host", DownloadType::Torrent, 5, Some(7)),
        "https://host/api/torrents/download?torrent_id=5&file_id=7"
    );
    assert_eq!(
        download_request_url_for("", DownloadType::WebDownload, -3, None),
        "/api/webdl/download?web_id=-3"
    );
    assert_eq!(stream_type_name(DownloadType::WebDownload), "webdownload");
    assert_eq!(cloud_upload_type_name(DownloadType::WebDownload), "webdl");
    assert_eq!(plan_name(1), "Essential");
    assert_eq!(plan_name(2), "Pro");
    assert_eq!(plan_name(3), "Standard");
    assert_eq!(plan_name(9), "Plan 9");
    assert!(has_streaming_plan(Some(2)));
    assert!(!has_streaming_plan(Some(1)));
    assert!(!has_streaming_plan(None));
    assert_eq!(DownloadType::WebDownload.to_display_string(), "Web Download");
}

#[test]
fn result_size_units() {
    assert_eq!(result_size_unit(0), (0, "B"));
    assert_eq!(result_size_unit(1023), (0, "B"));
    assert_eq!(result_size_unit(1024), (1, "KB"));
    assert_eq!(result_size_unit(5 * 1024 * 1024), (2, "MB"));
    assert_eq!(result_size_unit(3 << 30), (3, "GB"));
    assert_eq!(result_size_unit(1 << 40), (4, "TB"));
    assert_eq!(result_size_unit(u64::MAX), (4, "TB"));
}
