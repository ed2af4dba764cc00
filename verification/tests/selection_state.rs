use torbox_companion::download::{DownloadItem, DownloadType};
use torbox_companion::rows::{is_all_selected, is_partially_selected, shows_bulk_actions};
use torbox_companion::selection::{selection_storage_key, SelectionState};

fn row(id: i32) -> DownloadItem {
    DownloadItem {
        id,
        name: format!("item {}", id),
        size: 100,
        created_at: "2024-01-01T00:00:00Z".to_string(),
        status: "completed".to_string(),
        download_type: DownloadType::Torrent,
        download_speed: 0,
        upload_speed: 0,
        active: false,
        files: Vec::new(),
        is_season: false,
        season_info: None,
        eta: None,
        total_downloaded: None,
        private: false,
        magnet: None,
        source_url: None,
        seeds: None,
        peers: None,
    }
}

#[test]
fn new_selection_is_empty() {
    let s = SelectionState::new();
    assert!(!s.has_selected_items());
    assert!(!s.has_selected_files());
    assert_eq!(s.get_total_selected_count(), 0);
}

#[test]
fn toggle_item_twice_restores() {
    let mut s = SelectionState::new();
    s.select_item(3);
    s.toggle_item(7);
    assert!(s.is_item_selected(7));
    s.toggle_item(7);
    assert!(!s.is_item_selected(7));
    assert!(s.is_item_selected(3));
    assert_eq!(s.get_total_selected_count(), 1);
}

#[test]
fn deselecting_last_file_drops_the_item_entry() {
    let mut s = SelectionState::new();
    s.select_file(1, 10);
    s.select_file(1, 11);
    assert!(s.has_selected_files());
    assert!(s.is_file_selected(1, 10));
    s.deselect_file(1, 10);
    assert!(!s.is_file_selected(1, 10));
    assert!(s.is_file_selected(1, 11));
    s.deselect_file(1, 11);
    assert!(!s.has_selected_files());
    assert!(!s.selected_files.contains_key(&1));
}

#[test]
fn toggle_file_twice_restores() {
    let mut s = SelectionState::new();
    s.select_file(2, 5);
    s.toggle_file(2, 6);
    assert!(s.is_file_selected(2, 6));
    s.toggle_file(2, 6);
    assert!(!s.is_file_selected(2, 6));
    assert!(s.is_file_selected(2, 5));
    assert_eq!(s.get_total_selected_count(), 1);
}

#[test]
fn total_counts_items_and_files() {
    let mut s = SelectionState::new();
    s.select_item(1);
    s.select_item(2);
    s.select_file(1, 100);
    s.select_file(3, 200);
    s.select_file(3, 201);
    assert_eq!(s.get_total_selected_count(), 5);
    s.clear();
    assert_eq!(s.get_total_selected_count(), 0);
}

#[test]
fn select_all_and_toggle_all() {
    let rows = vec![row(1), row(2), row(3)];
    let mut s = SelectionState::new();
    s.select_all_items(&rows);
    assert!(s.is_item_selected(1) && s.is_item_selected(2) && s.is_item_selected(3));
    assert!(is_all_selected(&s, rows.len()));
    s.toggle_all_items(&rows);
    assert!(!s.has_selected_items());
    s.toggle_all_items(&rows);
    assert_eq!(s.selected_items.len(), 3);
    s.deselect_all_items();
    assert!(!s.has_selected_items());
}

#[test]
fn toggle_all_from_partial_selects_all() {
    let rows = vec![row(1), row(2)];
    let mut s = SelectionState::new();
    s.select_item(1);
    assert!(is_partially_selected(&s, rows.len()));
    s.toggle_all_items(&rows);
    assert!(s.is_item_selected(2));
    assert!(!is_partially_selected(&s, rows.len()));
}

#[test]
fn select_all_box_needs_shown_rows() {
    let s = SelectionState::new();
    assert!(!is_all_selected(&s, 0));
    assert!(!is_partially_selected(&s, 0));
    assert!(!is_all_selected(&s, 2));
}

#[test]
fn bulk_bar_follows_selection() {
    let mut s = SelectionState::new();
    assert!(!shows_bulk_actions(&s));
    s.select_file(4, 1);
    assert!(shows_bulk_actions(&s));
    s.clear();
    s.select_item(9);
    assert!(shows_bulk_actions(&s));
}

#[test]
fn stored_selection_or_empty() {
    let mut stored = SelectionState::new();
    stored.select_item(5);
    let restored = SelectionState::from_stored(Some(stored));
    assert!(restored.is_item_selected(5));
    let fresh = SelectionState::from_stored(None);
    assert_eq!(fresh.get_total_selected_count(), 0);
    assert_eq!(selection_storage_key(), "torbox_selection_state");
}

#[test]
fn default_selection_is_empty() {
    let s: SelectionState = Default::default();
    assert!(!s.has_selected_items());
}

#[test]
fn toggle_all_twice_clears_distinct_rows() {
    let rows = vec![row(1), row(2)];
    let mut s = SelectionState::new();
    s.toggle_all_items(&rows);
    assert_eq!(s.selected_items.len(), 2);
    s.toggle_all_items(&rows);
    assert!(!s.has_selected_items());
}

#[test]
fn toggle_all_with_repeated_ids_keeps_selecting() {
    let rows = vec![row(1), row(1)];
    let mut s = SelectionState::new();
    s.toggle_all_items(&rows);
    s.toggle_all_items(&rows);
    assert!(s.is_item_selected(1));
}
