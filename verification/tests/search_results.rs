use torbox_companion::search::{
    add_request_for, group_results, note_search_failure, plan_search, restrict_custom_indexers,
    restrict_search_type, search_placeholder, search_type_from_preference, search_type_preference,
    search_failure_message, shown_result_count, sort_results, toggle_sort, AddRequest, ExpandedGroups,
    SearchRequest, SearchSource,
    SearchResultItem, SearchTorrent, SearchType, SearchUsenet, SortDirection, SortField,
    TitleParsedData,
};

fn torrent(title: &str, parsed: Option<&str>, size: u64, seeders: Option<i32>) -> SearchResultItem {
    SearchResultItem::Torrent(SearchTorrent {
        title: title.to_string(),
        size,
        hash: format!("hash-{}", title),
        magnet: Some(format!("magnet:?xt={}", title)),
        title_parsed_data: parsed.map(|p| TitleParsedData { title: Some(p.to_string()) }),
        last_known_seeders: seeders,
    })
}

fn usenet(title: &str, parsed: Option<&str>, size: u64, nzb: Option<&str>) -> SearchResultItem {
    SearchResultItem::Usenet(SearchUsenet {
        title: title.to_string(),
        size,
        hash: format!("u-{}", title),
        magnet: None,
        nzb: nzb.map(|n| n.to_string()),
        title_parsed_data: parsed.map(|p| TitleParsedData { title: Some(p.to_string()) }),
    })
}

#[test]
fn result_accessors() {
    let t = torrent("Movie.2020.1080p", Some("Movie"), 700, Some(12));
    assert_eq!(t.title(), "Movie.2020.1080p");
    assert_eq!(t.parsed_title(), "Movie");
    assert_eq!(t.size(), 700);
    assert_eq!(t.hash(), "hash-Movie.2020.1080p");
    assert!(t.is_torrent() && !t.is_usenet());
    assert_eq!(t.magnet(), Some("magnet:?xt=Movie.2020.1080p".to_string()));
    assert_eq!(t.nzb(), None);
    let u = usenet("Show.S01", None, 5, Some("https://nzb/1"));
    assert_eq!(u.parsed_title(), "Show.S01");
    assert!(u.is_usenet());
    assert_eq!(u.nzb(), Some("https://nzb/1".to_string()));
    let no_parsed = SearchResultItem::Torrent(SearchTorrent {
        title: "Raw".to_string(),
        size: 1,
        hash: String::new(),
        magnet: None,
        title_parsed_data: Some(TitleParsedData { title: None }),
        last_known_seeders: None,
    });
    assert_eq!(no_parsed.parsed_title(), "Raw");
}

#[test]
fn results_sorted_stably() {
    let results = vec![
        torrent("b", None, 30, Some(5)),
        torrent("a", None, 10, None),
        usenet("c", None, 30, None),
        torrent("a", None, 20, Some(9)),
    ];
    assert_eq!(sort_results(&results, SortField::Title, SortDirection::Asc), vec![1, 3, 0, 2]);
    assert_eq!(sort_results(&results, SortField::Title, SortDirection::Desc), vec![2, 0, 1, 3]);
    assert_eq!(sort_results(&results, SortField::Size, SortDirection::Asc), vec![1, 3, 0, 2]);
    assert_eq!(sort_results(&results, SortField::Size, SortDirection::Desc), vec![0, 2, 3, 1]);
    assert_eq!(sort_results(&results, SortField::Seeders, SortDirection::Desc), vec![3, 0, 1, 2]);
    assert_eq!(sort_results(&results, SortField::Date, SortDirection::Asc), vec![1, 3, 0, 2]);
}

#[test]
fn results_grouped_by_title_ignoring_case() {
    let results = vec![
        torrent("x1", Some("Movie"), 1, None),
        torrent("x2", Some("Another"), 1, None),
        usenet("x3", Some("MOVIE"), 1, None),
        torrent("x4", Some("another"), 1, None),
        torrent("x5", Some("Zeta"), 1, None),
    ];
    let order = vec![4, 2, 1, 0, 3];
    let groups = group_results(&results, &order);
    assert_eq!(groups.len(), 3);
    assert_eq!(groups[0].title, "Another");
    assert_eq!(groups[0].members, vec![1, 3]);
    assert_eq!(groups[1].title, "MOVIE");
    assert_eq!(groups[1].members, vec![2, 0]);
    assert_eq!(groups[2].title, "Zeta");
    assert_eq!(groups[2].members, vec![4]);
    assert!(group_results(&results, &Vec::new()).is_empty());
}

#[test]
fn group_unfolding() {
    let mut g = ExpandedGroups::new();
    assert!(!g.is_expanded("Movie"));
    g.toggle("Movie");
    assert!(g.is_expanded("movie"));
    assert!(g.is_expanded("MOVIE"));
    g.toggle("Other");
    g.toggle("mOvIe");
    assert!(!g.is_expanded("Movie"));
    assert!(g.is_expanded("other"));
    g.clear();
    assert!(!g.is_expanded("Other"));
}

#[test]
fn sort_header_clicks() {
    assert_eq!(toggle_sort(SortField::Size, SortDirection::Asc, SortField::Size), (SortField::Size, SortDirection::Desc));
    assert_eq!(toggle_sort(SortField::Size, SortDirection::Desc, SortField::Size), (SortField::Size, SortDirection::Asc));
    assert_eq!(toggle_sort(SortField::Size, SortDirection::Desc, SortField::Title), (SortField::Title, SortDirection::Asc));
}

#[test]
fn search_type_settings() {
    assert_eq!(search_type_from_preference("usenet"), SearchType::Usenet);
    assert_eq!(search_type_from_preference("both"), SearchType::Both);
    assert_eq!(search_type_from_preference("imdb"), SearchType::IMDB);
    assert_eq!(search_type_from_preference("nonsense"), SearchType::Torrents);
    assert_eq!(search_type_preference(SearchType::Both), "both");
    assert_eq!(restrict_search_type(SearchType::Usenet, false), SearchType::Torrents);
    assert_eq!(restrict_search_type(SearchType::Both, false), SearchType::Torrents);
    assert_eq!(restrict_search_type(SearchType::Usenet, true), SearchType::Usenet);
    assert_eq!(restrict_search_type(SearchType::IMDB, false), SearchType::IMDB);
    assert!(!restrict_custom_indexers(true, false));
    assert!(restrict_custom_indexers(true, true));
    assert_eq!(search_placeholder(SearchType::Torrents, true, true), "Search custom indexers");
    assert_eq!(search_placeholder(SearchType::Both, true, false), "Search torrents and usenet");
    assert_eq!(search_placeholder(SearchType::IMDB, false, false), "Enter IMDB ID (e.g., tt5151761)");
}

#[test]
fn search_requests() {
    assert!(matches!(plan_search("   ", SearchType::Torrents, false, true), SearchRequest::Clear));
    match plan_search(" abc ", SearchType::IMDB, false, true) {
        SearchRequest::Refused(m) => assert_eq!(m, "IMDB ID must start with 'tt' (e.g., tt5151761)"),
        _ => panic!("expected a refusal"),
    }
    match plan_search(" tt123 ", SearchType::IMDB, false, false) {
        SearchRequest::Imdb { id, usenet } => {
            assert_eq!(id, "tt123");
            assert!(!usenet);
        }
        _ => panic!("expected an IMDB request"),
    }
    match plan_search("query", SearchType::Usenet, false, false) {
        SearchRequest::Refused(m) => assert_eq!(m, "Usenet search requires Pro plan"),
        _ => panic!("expected a refusal"),
    }
    match plan_search(" q ", SearchType::Both, false, false) {
        SearchRequest::Text { query, torrents, usenet, custom_engines } => {
            assert_eq!(query, " q ");
            assert!(torrents && !usenet && !custom_engines);
        }
        _ => panic!("expected a text search"),
    }
    match plan_search("q", SearchType::Torrents, true, true) {
        SearchRequest::Text { torrents, usenet, custom_engines, .. } => {
            assert!(torrents && usenet && custom_engines);
        }
        _ => panic!("expected a text search"),
    }
}

#[test]
fn result_counts_and_errors() {
    assert_eq!(shown_result_count(120, 50), 120);
    assert_eq!(shown_result_count(0, 50), 50);
    assert_eq!(shown_result_count(-1, 3), 3);
    let mut error: Option<String> = None;
    note_search_failure(&mut error, "usenet failed".to_string(), true);
    assert_eq!(error.as_deref(), Some("usenet failed"));
    note_search_failure(&mut error, "later usenet".to_string(), true);
    assert_eq!(error.as_deref(), Some("usenet failed"));
    note_search_failure(&mut error, "torrent failed".to_string(), false);
    assert_eq!(error.as_deref(), Some("torrent failed"));
}

#[test]
fn adding_results() {
    match add_request_for(torrent("T", None, 1, None)) {
        Some(AddRequest::Torrent { magnet, name }) => {
            assert_eq!(magnet, "magnet:?xt=T");
            assert_eq!(name, "T");
        }
        _ => panic!("expected a torrent request"),
    }
    match add_request_for(usenet("U", None, 1, Some("https://nzb"))) {
        Some(AddRequest::Usenet { link, name }) => {
            assert_eq!(link, "https://nzb");
            assert_eq!(name, "U");
        }
        _ => panic!("expected a usenet request"),
    }
    assert!(add_request_for(usenet("U", None, 1, None)).is_none());
}

#[test]
fn failure_messages_name_the_part() {
    assert_eq!(
        search_failure_message(SearchSource::Service, false, "timeout"),
        "Torrent search failed: timeout"
    );
    assert_eq!(search_failure_message(SearchSource::Service, true, "503"), "Usenet search failed: 503");
    assert_eq!(
        search_failure_message(SearchSource::CustomIndexers, false, "x"),
        "Custom indexer torrent search failed: x"
    );
    assert_eq!(
        search_failure_message(SearchSource::CustomIndexers, true, ""),
        "Custom indexer usenet search failed: "
    );
    assert_eq!(search_failure_message(SearchSource::Imdb, false, "e"), "IMDB torrent search failed: e");
    assert_eq!(search_failure_message(SearchSource::Imdb, true, "e"), "IMDB usenet search failed: e");
}
