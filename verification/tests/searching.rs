use buck_tui::buck::BuckDirectory;
use buck_tui::buck::BuckProject;
use buck_tui::buck::BuckTarget;
use buck_tui::buck::UICurrentDirectory;
use buck_tui::events::EventHandler;
use buck_tui::search::SearchPane;
use buck_tui::search::SearchState;
use buck_tui::ui::Pane;
use buck_tui::ui::PaneGroup;

fn plain_dir(path: &str) -> BuckDirectory {
    BuckDirectory {
        path: path.to_string(),
        targets: Vec::new(),
        has_buck_file: false,
        targets_loaded: false,
        targets_loading: false,
    }
}

fn target(name: &str, rule: &str) -> BuckTarget {
    BuckTarget {
        name: name.to_string(),
        rule_type: rule.to_string(),
        path: "/r/d".to_string(),
        deps: Vec::new(),
        details_loaded: false,
    }
}

#[test]
fn search_state_starts_inactive() {
    let s = SearchState::new();
    assert!(!s.active);
    assert_eq!(s.query, "");
    assert_eq!(s.total_matches, 0);
    assert!(s.matches.is_empty());
    assert_eq!(s.searching_in_pane, SearchPane::CurrentDirectory);
}

#[test]
fn activate_keeps_query_and_maps_pane() {
    let mut s = SearchState::new();
    s.query = "abc".to_string();
    s.activate(Pane::Targets, 3);
    assert!(s.active);
    assert_eq!(s.query, "abc");
    assert_eq!(s.current_match_idx, 3);
    assert_eq!(s.searching_in_pane, SearchPane::Targets);
    s.activate(Pane::Details, 0);
    assert_eq!(s.searching_in_pane, SearchPane::Targets);
    s.activate(Pane::ParentDirectory, 0);
    assert_eq!(s.searching_in_pane, SearchPane::CurrentDirectory);
    s.activate(Pane::SelectedDirectory, 0);
    assert_eq!(s.searching_in_pane, SearchPane::CurrentDirectory);
}

#[test]
fn reset_clears_everything_but_pane() {
    let mut s = SearchState::new();
    s.activate(Pane::Targets, 2);
    s.query = "q".to_string();
    s.matches = vec![1, 2];
    s.total_matches = 2;
    s.reset();
    assert!(!s.active);
    assert_eq!(s.query, "");
    assert_eq!(s.current_match_idx, 0);
    assert_eq!(s.total_matches, 0);
    assert!(s.matches.is_empty());
    assert_eq!(s.searching_in_pane, SearchPane::Targets);
}

#[test]
fn match_stepping_wraps_both_ways() {
    let mut s = SearchState::new();
    s.total_matches = 3;
    s.current_match_idx = 0;
    s.next_match();
    assert_eq!(s.current_match_idx, 1);
    s.next_match();
    assert_eq!(s.current_match_idx, 2);
    s.next_match();
    assert_eq!(s.current_match_idx, 0);
    s.prev_match();
    assert_eq!(s.current_match_idx, 2);
    s.total_matches = 0;
    s.current_match_idx = 9;
    s.next_match();
    assert_eq!(s.current_match_idx, 9);
    s.prev_match();
    assert_eq!(s.current_match_idx, 9);
}

#[test]
fn pane_groups_exist() {
    assert_ne!(PaneGroup::Explorer, PaneGroup::Inspector);
    assert_ne!(Pane::Targets, Pane::Details);
}

#[test]
fn directory_search_finds_nearest_match() {
    let p = BuckProject::new("/r".to_string(), true).unwrap();
    let listing = UICurrentDirectory::new(
        "/r".to_string(),
        false,
        vec![
            plain_dir("/r/alpha"),
            plain_dir("/r/beta"),
            plain_dir("/r/alphabet"),
        ],
    );
    // Listing order: "/r" ".", then alpha, alphabet, beta.
    let h = EventHandler::new();
    let mut s = SearchState::new();
    s.active = true;
    s.query = "ALPHA".to_string();
    h.update_search_matches(&p, &listing, &mut s, 0);
    assert_eq!(s.matches, vec![1, 2]);
    assert_eq!(s.total_matches, 2);
    assert_eq!(s.current_match_idx, 0);
    // From position 2, the match at 2 itself is taken.
    h.update_search_matches(&p, &listing, &mut s, 2);
    assert_eq!(s.current_match_idx, 1);
    // From past the last match, the cursor wraps to the first.
    h.update_search_matches(&p, &listing, &mut s, 3);
    assert_eq!(s.current_match_idx, 0);
}

#[test]
fn empty_query_clears_matches() {
    let p = BuckProject::new("/r".to_string(), true).unwrap();
    let listing = UICurrentDirectory::new("/r".to_string(), false, Vec::new());
    let h = EventHandler::new();
    let mut s = SearchState::new();
    s.matches = vec![4];
    s.total_matches = 1;
    h.update_search_matches(&p, &listing, &mut s, 0);
    assert!(s.matches.is_empty());
    assert_eq!(s.total_matches, 0);
    assert_eq!(s.current_match_idx, 0);
}

#[test]
fn target_search_matches_titles() {
    let mut p = BuckProject::new("/r".to_string(), true).unwrap();
    p.filtered_targets = vec![
        target("//d:server", "rust_binary"),
        target("//d:docs", "genrule"),
        target("//d:service", "rust_library"),
    ];
    let listing = UICurrentDirectory::new("/r".to_string(), false, Vec::new());
    let h = EventHandler::new();
    let mut s = SearchState::new();
    s.activate(Pane::Targets, 0);
    s.query = "ser".to_string();
    h.update_search_matches(&p, &listing, &mut s, 0);
    assert_eq!(s.matches, vec![0, 2]);
}

#[test]
fn current_selection_follows_pane() {
    let mut p = BuckProject::new("/r".to_string(), true).unwrap();
    p.selected_directory = "/r/beta".to_string();
    p.selected_target = 7;
    let listing = UICurrentDirectory::new(
        "/r".to_string(),
        false,
        vec![plain_dir("/r/alpha"), plain_dir("/r/beta")],
    );
    let h = EventHandler::new();
    let mut s = SearchState::new();
    s.searching_in_pane = SearchPane::CurrentDirectory;
    assert_eq!(h.get_current_selection(&p, &s, &listing), 2);
    s.searching_in_pane = SearchPane::Targets;
    assert_eq!(h.get_current_selection(&p, &s, &listing), 7);
}

#[test]
fn navigating_a_directory_match_selects_and_requests() {
    let mut p = BuckProject::new("/r".to_string(), true).unwrap();
    let listing = UICurrentDirectory::new(
        "/r".to_string(),
        false,
        vec![
            {
                let mut d = plain_dir("/r/alpha");
                d.has_buck_file = true;
                d
            },
            plain_dir("/r/beta"),
        ],
    );
    let h = EventHandler::new();
    let mut s = SearchState::new();
    s.matches = vec![1];
    s.total_matches = 1;
    s.current_match_idx = 0;
    h.navigate_to_current_match(&mut p, &s, &listing);
    assert_eq!(p.selected_directory, "/r/alpha");
    let msgs = p.take_loader_requests();
    assert_eq!(msgs.len(), 1);
    assert_eq!(msgs[0].path, "/r/alpha");
}

#[test]
fn navigating_a_target_match_moves_selection() {
    let mut p = BuckProject::new("/r".to_string(), true).unwrap();
    let listing = UICurrentDirectory::new("/r".to_string(), false, Vec::new());
    let h = EventHandler::new();
    let mut s = SearchState::new();
    s.searching_in_pane = SearchPane::Targets;
    s.matches = vec![0, 5];
    s.total_matches = 2;
    s.current_match_idx = 1;
    h.navigate_to_current_match(&mut p, &s, &listing);
    assert_eq!(p.selected_target, 5);
}

#[test]
fn refresh_keeps_state_without_query() {
    let p = BuckProject::new("/r".to_string(), true).unwrap();
    let listing = UICurrentDirectory::new("/r".to_string(), false, Vec::new());
    let h = EventHandler::new();
    let mut s = SearchState::new();
    s.matches = vec![3];
    s.total_matches = 1;
    h.refresh_search_if_active(&p, &mut s, &listing);
    assert_eq!(s.matches, vec![3]);
}

#[test]
fn update_and_navigate_steers_to_match() {
    let mut p = BuckProject::new("/r".to_string(), true).unwrap();
    p.selected_directory = "/r".to_string();
    let listing = UICurrentDirectory::new(
        "/r".to_string(),
        false,
        vec![plain_dir("/r/needle"), plain_dir("/r/hay")],
    );
    let h = EventHandler::new();
    let mut s = SearchState::new();
    s.active = true;
    s.query = "needle".to_string();
    h.update_and_navigate(&mut p, &mut s, &listing);
    assert_eq!(s.total_matches, 1);
    assert_eq!(p.selected_directory, "/r/needle");
}
