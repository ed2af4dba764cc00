use torbox_companion::dashboard::{shown_panel, DashboardContext, DashboardTab, MobileMenu, UserFetch, USER_POLL_INTERVAL_MS};
use torbox_companion::download::{
    get_first_video_file, get_largest_video_file, get_media_files, get_video_files, is_media_file,
    is_video_file, DownloadFile, DownloadItem, DownloadType, RemoteFile, Torrent, UsenetDownload,
    WebDownload, WebDownloadFile,
};
use torbox_companion::season::{extract_season_number, first_parsed_season, is_season_name};
use torbox_companion::spinner::{
    container_class, resolve_spinner, ring_class, ring_style, SpinnerSize, SpinnerVariant,
};

const NOW: (i64, u32) = (1_704_067_200, 0);

fn dfile(id: i32, size: i64, mime: Option<&str>, zipped: Option<bool>, infected: Option<bool>) -> DownloadFile {
    DownloadFile {
        id,
        name: format!("f{}", id),
        size,
        md5: None,
        hash: None,
        zipped,
        s3_path: None,
        infected,
        mimetype: mime.map(|m| m.to_string()),
        short_name: None,
        absolute_path: None,
        opensubtitles_hash: None,
    }
}

fn rfile(id: i32, mime: &str) -> RemoteFile {
    RemoteFile {
        id,
        name: format!("r{}", id),
        size: 10,
        md5: None,
        hash: None,
        zipped: false,
        s3_path: "s3".to_string(),
        infected: false,
        mimetype: mime.to_string(),
        short_name: "short".to_string(),
        absolute_path: "/abs".to_string(),
        opensubtitles_hash: None,
    }
}

fn torrent(state: &str, active: bool, finished: bool, cached: bool) -> Torrent {
    Torrent {
        id: 7,
        name: "Show.S02.1080p".to_string(),
        size: 1000,
        created_at: "2024-01-01T00:00:00Z".to_string(),
        updated_at: "2024-01-01T00:00:00Z".to_string(),
        download_state: state.to_string(),
        download_speed: 0,
        upload_speed: 0,
        active,
        seeds: 0,
        peers: 0,
        download_finished: finished,
        cached,
        expires_at: None,
        files: Some(vec![rfile(1, "video/mp4"), rfile(2, "text/plain")]),
        eta: 30,
        total_downloaded: 500,
        private: true,
        magnet: Some("magnet:?t".to_string()),
    }
}

#[test]
fn torrent_rows() {
    let row = DownloadItem::from_torrent_at(torrent("downloading", true, false, false), NOW);
    assert_eq!(row.status, "downloading (stalled)");
    assert_eq!(row.download_type, DownloadType::Torrent);
    assert_eq!(row.files.len(), 2);
    assert_eq!(row.files[0].mimetype.as_deref(), Some("video/mp4"));
    assert_eq!(row.files[0].zipped, Some(false));
    assert!(row.is_season);
    let season = row.season_info.unwrap();
    assert_eq!(season.season_number, Some(2));
    assert_eq!(season.episode_count, 2);
    assert!(season.episodes.is_empty());
    assert_eq!(row.eta, Some(30));
    assert_eq!(row.seeds, Some(0));
    assert_eq!(row.magnet.as_deref(), Some("magnet:?t"));
    assert!(row.source_url.is_none());
    assert!(row.private);
}

#[test]
fn torrent_final_statuses() {
    let seeding_done = DownloadItem::from_torrent_at(torrent("uploading", false, true, true), NOW);
    assert_eq!(seeding_done.status, "cached");
    let seeding_done_uncached = DownloadItem::from_torrent_at(torrent("seeding", false, true, false), NOW);
    assert_eq!(seeding_done_uncached.status, "completed");
    let stalled = DownloadItem::from_torrent_at(torrent("stalledDL", false, false, false), NOW);
    assert_eq!(stalled.status, "inactive");
    let paused = DownloadItem::from_torrent_at(torrent("paused", false, false, false), NOW);
    assert_eq!(paused.status, "inactive");
    let mut expired = torrent("downloading", true, true, false);
    expired.expires_at = Some("2020-01-01T00:00:00Z".to_string());
    assert_eq!(DownloadItem::from_torrent_at(expired, NOW).status, "completed");
    let mut expired_unfinished = torrent("downloading", true, false, false);
    expired_unfinished.expires_at = Some("2020-01-01T00:00:00Z".to_string());
    assert_eq!(DownloadItem::from_torrent_at(expired_unfinished, NOW).status, "inactive");
    let mut later = torrent("downloading", true, false, false);
    later.expires_at = Some("2030-01-01T00:00:00Z".to_string());
    later.download_speed = 5000;
    assert_eq!(DownloadItem::from_torrent_at(later, NOW).status, "downloading");
}

#[test]
fn web_rows() {
    let web = WebDownload {
        id: 3,
        name: "file.zip".to_string(),
        size: 10,
        created_at: "2024-01-01T00:00:00Z".to_string(),
        status: "Downloading".to_string(),
        url: "https://example.com/file.zip".to_string(),
        files: vec![WebDownloadFile { id: 1, name: "file.zip".to_string(), size: 10 }],
    };
    let row = DownloadItem::from_web_download_at(web, NOW);
    assert!(row.active);
    assert_eq!(row.status, "Downloading");
    assert_eq!(row.source_url.as_deref(), Some("https://example.com/file.zip"));
    assert_eq!(row.files[0].mimetype, None);
    assert!(!row.is_season);
    assert!(row.season_info.is_none());
    assert_eq!(row.download_type, DownloadType::WebDownload);
}

#[test]
fn usenet_rows() {
    let usenet = UsenetDownload {
        id: 4,
        name: "Series Season 3".to_string(),
        size: 10,
        created_at: "2024-01-01T00:00:00Z".to_string(),
        updated_at: "2024-01-01T00:00:00Z".to_string(),
        download_state: "completed".to_string(),
        download_speed: 0,
        active: false,
        download_finished: true,
        cached: true,
        expires_at: None,
        files: vec![rfile(1, "video/x-matroska")],
        eta: 0,
        original_url: Some("https://nzb/4".to_string()),
    };
    let row = DownloadItem::from_usenet_at(usenet, NOW);
    assert_eq!(row.status, "completed");
    assert_eq!(row.download_type, DownloadType::Usenet);
    assert_eq!(row.source_url.as_deref(), Some("https://nzb/4"));
    assert!(row.is_season);
    assert_eq!(row.season_info.unwrap().season_number, Some(3));
}

#[test]
fn rows_from_the_clock() {
    let row = DownloadItem::from_torrent(torrent("seeding", true, true, false));
    assert_eq!(row.status, "seeding");
}

#[test]
fn media_files() {
    let files = vec![
        dfile(1, 100, Some("video/mp4"), Some(false), Some(false)),
        dfile(2, 300, Some("video/mp4"), Some(true), Some(false)),
        dfile(3, 200, Some("audio/mpeg"), None, None),
        dfile(4, 250, Some("video/webm"), None, Some(true)),
        dfile(5, 250, Some("video/webm"), None, None),
        dfile(6, 999, None, None, None),
    ];
    assert!(is_media_file(&files[2]));
    assert!(!is_video_file(&files[2]));
    assert!(!is_media_file(&files[5]));
    let media: Vec<i32> = get_media_files(&files).iter().map(|f| f.id).collect();
    assert_eq!(media, vec![1, 3, 5]);
    let videos: Vec<i32> = get_video_files(&files).iter().map(|f| f.id).collect();
    assert_eq!(videos, vec![1, 5]);
    assert_eq!(get_largest_video_file(&files).map(|f| f.id), Some(5));
    assert_eq!(get_first_video_file(&files).map(|f| f.id), Some(1));
    assert!(get_largest_video_file(&files[5..]).is_none());
}

#[test]
fn season_names() {
    assert!(is_season_name("The.Show.S01.Complete"));
    assert!(is_season_name("the show season two"));
    assert!(!is_season_name("A Movie 2020"));
    assert_eq!(extract_season_number("The.Show.S01E02"), Some(1));
    assert_eq!(extract_season_number("Show Season 12"), Some(12));
    assert_eq!(extract_season_number("show.s05.pack"), Some(5));
    assert_eq!(extract_season_number("show season7"), Some(7));
    assert_eq!(extract_season_number("No number here"), None);
    assert_eq!(extract_season_number("S99999999999 then s4"), Some(4));
    assert_eq!(first_parsed_season(&vec![None, Some("x".to_string()), Some("08".to_string())]), Some(8));
    assert_eq!(first_parsed_season(&vec![]), None);
}

#[test]
fn dashboard_first_fetch() {
    let mut ctx: DashboardContext<String> = DashboardContext::new();
    assert_eq!(ctx.active_tab, "overview");
    assert_eq!(ctx.connection_label(), "Checking...");
    assert!(ctx.begin_initial_fetch());
    assert!(ctx.user_loading);
    ctx.finish_initial_fetch(UserFetch::Fetched(Some("alice".to_string())));
    assert_eq!(ctx.user_data.as_deref(), Some("alice"));
    assert!(ctx.api_connected);
    assert!(!ctx.is_loading && !ctx.user_loading);
    assert_eq!(ctx.connection_label(), "API Connected");
    assert!(!ctx.begin_initial_fetch());
}

#[test]
fn dashboard_without_key_or_with_errors() {
    let mut ctx: DashboardContext<String> = DashboardContext::new();
    ctx.begin_initial_fetch();
    ctx.finish_initial_fetch(UserFetch::NoApiKey);
    assert!(!ctx.api_connected);
    assert_eq!(ctx.connection_label(), "API Disconnected");
    ctx.apply_poll(UserFetch::Fetched(None));
    assert!(ctx.api_connected);
    assert!(ctx.user_data.is_none());
    ctx.apply_poll(UserFetch::NoApiKey);
    assert!(ctx.api_connected);
    ctx.apply_poll(UserFetch::Failed);
    assert!(!ctx.api_connected);
    assert_eq!(USER_POLL_INTERVAL_MS, 60_000);
}

#[test]
fn dashboard_tabs_and_menu() {
    let mut ctx: DashboardContext<String> = DashboardContext::new();
    assert!(ctx.is_tab_active("overview"));
    ctx.select_tab("themes");
    assert!(ctx.is_tab_active("themes"));
    assert!(!ctx.is_tab_active("overview"));
    assert_eq!(shown_panel("overview"), Some(DashboardTab::Overview));
    assert_eq!(shown_panel("user"), Some(DashboardTab::User));
    assert_eq!(shown_panel("themes"), Some(DashboardTab::Themes));
    assert_eq!(shown_panel("automations"), Some(DashboardTab::Automations));
    assert_eq!(shown_panel("elsewhere"), None);
    let mut menu = MobileMenu::new();
    menu.toggle();
    assert!(menu.open);
    menu.close();
    assert!(!menu.open);
}

#[test]
fn spinner_styles() {
    assert_eq!(SpinnerSize::Small.size_class(), "w-4 h-4");
    assert_eq!(SpinnerSize::ExtraLarge.border_width(), "5px");
    assert_eq!(SpinnerVariant::Danger.color(), "var(--accent-danger)");
    assert_eq!(SpinnerVariant::Accent.border_color(), "rgba(59, 130, 246, 0.2)");
    assert_eq!(resolve_spinner(None, None, None), (SpinnerSize::Medium, SpinnerVariant::Default, false));
    assert_eq!(
        resolve_spinner(Some(SpinnerSize::Large), Some(SpinnerVariant::Warning), Some(true)),
        (SpinnerSize::Large, SpinnerVariant::Warning, true)
    );
    assert_eq!(container_class(true, Some("mt-2")), "flex items-center justify-center gap-3 py-8 mt-2");
    assert_eq!(container_class(false, None), "flex items-center gap-3 ");
    assert_eq!(ring_class(SpinnerSize::Medium), "w-6 h-6 rounded-full animate-spin");
    assert_eq!(
        ring_style(SpinnerSize::Small, SpinnerVariant::Default),
        "border: 2px solid rgba(163, 163, 163, 0.2); border-top-color: var(--text-secondary); display: block; box-sizing: border-box;"
    );
}
