use buck_tui::buck::BuckDirectory;
use buck_tui::buck::BuckProject;
use buck_tui::buck::BuckTarget;
use buck_tui::buck::CoreError;
use buck_tui::buck::DetailLoadResult;
use buck_tui::buck::DetailOutcome;
use buck_tui::buck::DirLoadResult;
use buck_tui::buck::LoadOutcome;
use buck_tui::buck::TargetDetails;
use buck_tui::buck::UICurrentDirectory;

fn plain_dir(path: &str, has_buck: bool) -> BuckDirectory {
    BuckDirectory {
        path: path.to_string(),
        targets: Vec::new(),
        has_buck_file: has_buck,
        targets_loaded: false,
        targets_loading: false,
    }
}

fn target(name: &str, path: &str) -> BuckTarget {
    BuckTarget {
        name: name.to_string(),
        rule_type: "unknown".to_string(),
        path: path.to_string(),
        deps: Vec::new(),
        details_loaded: false,
    }
}

fn fresh_project(root: &str) -> BuckProject {
    BuckProject::new(root.to_string(), true).expect("path exists")
}

#[test]
fn missing_root_is_fatal() {
    match BuckProject::new("/nowhere".to_string(), false) {
        Err(CoreError::PathNotFound) => {}
        _ => panic!("a missing project path must abort startup"),
    }
}

#[test]
fn request_directory_load_single_flight_preemption() {
    // The user navigates D1 -> D2 -> D3 faster than any load completes.
    let mut p = fresh_project("/r");
    for d in ["/r/d1", "/r/d2", "/r/d3"] {
        p.find_or_add_directory(&d.to_string(), true);
    }
    p.request_targets_for_directory("/r/d1".to_string());
    p.request_targets_for_directory("/r/d2".to_string());
    p.request_targets_for_directory("/r/d3".to_string());
    let msgs = p.take_loader_requests();
    assert_eq!(msgs.len(), 3);
    // The two superseded requests' tokens are signalled; the last is live.
    assert!(msgs[0].token.is_cancelled());
    assert!(msgs[1].token.is_cancelled());
    assert!(!msgs[2].token.is_cancelled());
    let active = p.active_load_request.as_ref().expect("one request active");
    assert_eq!(active.dir_path, "/r/d3");
    assert_eq!(active.generation, msgs[2].generation);
    // The workers drop the cancelled loads, so only D3's result arrives.
    let survivors: Vec<DirLoadResult> = msgs
        .iter()
        .filter(|m| !m.token.is_cancelled())
        .map(|m| DirLoadResult {
            path: m.path.clone(),
            generation: m.generation,
            outcome: LoadOutcome::Loaded(vec![target("//d3:t", &m.path)]),
        })
        .collect();
    p.update_loaded_target_results(survivors, Vec::new());
    let find = |p: &BuckProject, path: &str| -> BuckDirectory {
        p.directories
            .iter()
            .find(|d| d.path == path)
            .expect("indexed")
            .clone()
    };
    assert!(!find(&p, "/r/d1").targets_loaded);
    assert!(!find(&p, "/r/d2").targets_loaded);
    assert!(find(&p, "/r/d3").targets_loaded);
}

#[test]
fn request_directory_load_is_idempotent_when_loaded() {
    let mut p = fresh_project("/r");
    p.find_or_add_directory(&"/r/d".to_string(), true);
    p.request_targets_for_directory("/r/d".to_string());
    let first = p.take_loader_requests();
    assert_eq!(first.len(), 1);
    p.update_loaded_target_results(
        vec![DirLoadResult {
            path: "/r/d".to_string(),
            generation: first[0].generation,
            outcome: LoadOutcome::Loaded(vec![target("//d:a", "/r/d")]),
        }],
        Vec::new(),
    );
    let generation_before = p.next_generation;
    let active_before = p.active_load_request.is_some();
    p.request_targets_for_directory("/r/d".to_string());
    // No new token, no new order, no state change.
    assert_eq!(p.next_generation, generation_before);
    assert_eq!(p.active_load_request.is_some(), active_before);
    assert!(p.take_loader_requests().is_empty());
}

#[test]
fn request_directory_load_skips_while_loading() {
    let mut p = fresh_project("/r");
    p.find_or_add_directory(&"/r/d".to_string(), true);
    p.request_targets_for_directory("/r/d".to_string());
    let generation_before = p.next_generation;
    p.request_targets_for_directory("/r/d".to_string());
    assert_eq!(p.next_generation, generation_before);
    assert_eq!(p.take_loader_requests().len(), 1);
}

#[test]
fn directory_load_completion_installs_targets_and_chains_details() {
    // Directory D has a manifest; the build tool returns two labels.
    let mut p = fresh_project("/r");
    p.selected_directory = "/r/d".to_string();
    p.find_or_add_directory(&"/r/d".to_string(), true);
    p.request_targets_for_directory("/r/d".to_string());
    let msgs = p.take_loader_requests();
    assert_eq!(msgs.len(), 1);
    let outcome = buck_tui::parse::classify_targets_output(
        true,
        "//d:a\n//d:b\n",
        &"/r/d".to_string(),
        true,
    );
    p.update_loaded_target_results(
        vec![DirLoadResult {
            path: "/r/d".to_string(),
            generation: msgs[0].generation,
            outcome,
        }],
        Vec::new(),
    );
    let d = p
        .directories
        .iter()
        .find(|d| d.path == "/r/d")
        .unwrap()
        .clone();
    assert!(d.targets_loaded);
    assert!(!d.targets_loading);
    assert_eq!(d.targets.len(), 2);
    assert_eq!(d.targets[0].name, "//d:a");
    assert_eq!(d.targets[1].name, "//d:b");
    // D is selected: the filtered list mirrors the targets and a detail
    // load for the first target went out.
    assert_eq!(p.filtered_targets.len(), 2);
    assert_eq!(p.filtered_targets[0].name, "//d:a");
    assert_eq!(p.selected_target, 0);
    let details = p.take_detail_requests();
    assert_eq!(details.len(), 1);
    assert_eq!(details[0].target_label, "//d:a");
    assert_eq!(details[0].target_index, 0);
    assert_eq!(details[0].path, "/r/d");
}

#[test]
fn failed_directory_load_is_terminal_with_empty_targets() {
    // The build tool exits non-zero for a directory with a manifest.
    let mut p = fresh_project("/r");
    p.selected_directory = "/r/d".to_string();
    p.find_or_add_directory(&"/r/d".to_string(), true);
    p.request_targets_for_directory("/r/d".to_string());
    let msgs = p.take_loader_requests();
    let outcome =
        buck_tui::parse::classify_targets_output(false, "", &"/r/d".to_string(), true);
    assert!(matches!(
        outcome,
        LoadOutcome::Failed(CoreError::ExternalCommandFailure)
    ));
    p.update_loaded_target_results(
        vec![DirLoadResult {
            path: "/r/d".to_string(),
            generation: msgs[0].generation,
            outcome,
        }],
        Vec::new(),
    );
    let d = p
        .directories
        .iter()
        .find(|d| d.path == "/r/d")
        .unwrap()
        .clone();
    assert!(d.targets_loaded);
    assert!(d.targets.is_empty());
    // A second request is a no-op.
    let generation_before = p.next_generation;
    p.request_targets_for_directory("/r/d".to_string());
    assert_eq!(p.next_generation, generation_before);
    assert!(p.take_loader_requests().is_empty());
}

#[test]
fn detail_requests_preempt_each_other() {
    let mut p = fresh_project("/r");
    p.find_or_add_directory(&"/r/d".to_string(), true);
    p.directories[0].targets = vec![target("//d:a", "/r/d"), target("//d:b", "/r/d")];
    p.request_target_details("/r/d".to_string(), 0);
    p.request_target_details("/r/d".to_string(), 1);
    let msgs = p.take_detail_requests();
    assert_eq!(msgs.len(), 2);
    assert!(msgs[0].token.is_cancelled());
    assert!(!msgs[1].token.is_cancelled());
    let active = p.active_detail_request.as_ref().unwrap();
    assert_eq!(active.target_index, 1);
}

#[test]
fn detail_request_skips_out_of_range_and_loaded() {
    let mut p = fresh_project("/r");
    p.find_or_add_directory(&"/r/d".to_string(), true);
    let mut t = target("//d:a", "/r/d");
    t.details_loaded = true;
    p.directories[0].targets = vec![t];
    p.request_target_details("/r/d".to_string(), 5);
    p.request_target_details("/r/d".to_string(), 0);
    assert!(p.take_detail_requests().is_empty());
    assert!(p.active_detail_request.is_none());
}

#[test]
fn detail_result_installs_details() {
    let mut p = fresh_project("/r");
    p.find_or_add_directory(&"/r/d".to_string(), true);
    p.directories[0].targets = vec![target("//d:a", "/r/d")];
    p.update_loaded_target_results(
        Vec::new(),
        vec![DetailLoadResult {
            path: "/r/d".to_string(),
            target_index: 0,
            generation: 7,
            outcome: DetailOutcome::Loaded(TargetDetails {
                rule_type: "rust_library".to_string(),
                deps: vec!["//x:y".to_string()],
            }),
        }],
    );
    let t = &p.directories[0].targets[0];
    assert!(t.details_loaded);
    assert_eq!(t.rule_type, "rust_library");
    assert_eq!(t.deps, vec!["//x:y".to_string()]);
}

#[test]
fn failed_detail_load_sets_sentinel_rule_type() {
    let mut p = fresh_project("/r");
    p.find_or_add_directory(&"/r/d".to_string(), true);
    p.directories[0].targets = vec![target("//d:a", "/r/d")];
    p.update_loaded_target_results(
        Vec::new(),
        vec![DetailLoadResult {
            path: "/r/d".to_string(),
            target_index: 0,
            generation: 7,
            outcome: DetailOutcome::Failed(CoreError::ExternalCommandFailure),
        }],
    );
    let t = &p.directories[0].targets[0];
    assert!(t.details_loaded);
    assert_eq!(t.rule_type, "error");
}

#[test]
fn search_query_filters_targets() {
    let mut p = fresh_project("/r");
    p.selected_directory = "/r/d".to_string();
    p.find_or_add_directory(&"/r/d".to_string(), true);
    let mut rust_target = target("//d:server", "/r/d");
    rust_target.rule_type = "rust_binary".to_string();
    let mut py_target = target("//d:tool", "/r/d");
    py_target.rule_type = "python_library".to_string();
    p.directories[0].targets = vec![rust_target, py_target];
    p.set_search_query("RUST".to_string());
    assert_eq!(p.filtered_targets.len(), 1);
    assert_eq!(p.filtered_targets[0].name, "//d:server");
    p.set_search_query(String::new());
    assert_eq!(p.filtered_targets.len(), 2);
}

#[test]
fn target_navigation_wraps_and_requests_details() {
    let mut p = fresh_project("/r");
    p.selected_directory = "/r/d".to_string();
    p.find_or_add_directory(&"/r/d".to_string(), true);
    p.directories[0].targets = vec![target("//d:a", "/r/d"), target("//d:b", "/r/d")];
    p.update_filtered_targets();
    assert_eq!(p.selected_target, 0);
    p.next_target();
    assert_eq!(p.selected_target, 1);
    p.next_target();
    assert_eq!(p.selected_target, 0);
    p.prev_target();
    assert_eq!(p.selected_target, 1);
    // Each move asked for the newly selected target's details; the last
    // request wins.
    let msgs = p.take_detail_requests();
    assert_eq!(msgs.len(), 3);
    assert_eq!(msgs[2].target_index, 1);
}

#[test]
fn selected_target_getter_respects_bounds() {
    let mut p = fresh_project("/r");
    assert!(p.get_selected_target().is_none());
    p.filtered_targets = vec![target("//d:a", "/r/d")];
    p.selected_target = 0;
    assert_eq!(p.get_selected_target().unwrap().name, "//d:a");
    p.selected_target = 1;
    assert!(p.get_selected_target().is_none());
}

#[test]
fn cells_rank_by_longest_prefix() {
    let mut p = fresh_project("/repo");
    p.find_or_add_directory(&"/repo/cell/pkg".to_string(), true);
    p.selected_directory = "/repo/cell/pkg".to_string();
    p.install_cells(Some(vec![
        ("root".to_string(), "/repo".to_string()),
        ("cell".to_string(), "/repo/cell".to_string()),
    ]));
    assert_eq!(p.current_cell().unwrap().as_str(), "cell");
    assert_eq!(p.get_selected_buck_package_name().unwrap(), "cell//pkg");
}

#[test]
fn package_name_at_cell_root_is_bare() {
    let mut p = fresh_project("/repo");
    p.find_or_add_directory(&"/repo/cell".to_string(), true);
    p.selected_directory = "/repo/cell".to_string();
    p.install_cells(Some(vec![("cell".to_string(), "/repo/cell".to_string())]));
    assert_eq!(p.get_selected_buck_package_name().unwrap(), "cell//");
}

#[test]
fn cell_prefix_respects_component_boundaries() {
    let mut p = fresh_project("/repo");
    p.find_or_add_directory(&"/repo/cellar".to_string(), true);
    p.selected_directory = "/repo/cellar".to_string();
    p.install_cells(Some(vec![("cell".to_string(), "/repo/cell".to_string())]));
    // "/repo/cell" is a string prefix of "/repo/cellar" but not a path
    // prefix.
    assert!(p.current_cell().is_none());
}

#[test]
fn failed_cell_lookup_is_non_fatal() {
    let mut p = fresh_project("/repo");
    p.install_cells(None);
    assert!(p.cells.is_empty());
}

#[test]
fn listing_sorts_subdirectories_with_current_first() {
    let listing = UICurrentDirectory::new(
        "/r".to_string(),
        true,
        vec![
            plain_dir("/r/zeta", false),
            plain_dir("/r/alpha", true),
            plain_dir("/r/midway", false),
        ],
    );
    let names: Vec<&str> = listing
        .sub_directories
        .iter()
        .map(|d| d.path.as_str())
        .collect();
    assert_eq!(names, vec!["/r", "/r/alpha", "/r/midway", "/r/zeta"]);
    assert!(listing.sub_directories[0].has_buck_file);
}

#[test]
fn listing_navigation_wraps() {
    let listing = UICurrentDirectory::new(
        "/r".to_string(),
        false,
        vec![plain_dir("/r/a", false), plain_dir("/r/b", false)],
    );
    assert_eq!(
        listing.select_next_directory(&"/r".to_string()).unwrap().as_str(),
        "/r/a"
    );
    assert_eq!(
        listing.select_next_directory(&"/r/b".to_string()).unwrap().as_str(),
        "/r"
    );
    assert_eq!(
        listing.select_prev_directory(&"/r".to_string()).unwrap().as_str(),
        "/r/b"
    );
    assert_eq!(
        listing.select_prev_directory(&"/r/a".to_string()).unwrap().as_str(),
        "/r"
    );
    assert!(listing.select_next_directory(&"/nope".to_string()).is_none());
    assert!(listing.get_directory(&"/r/a".to_string()).is_some());
    assert!(listing.get_directory(&"/zzz".to_string()).is_none());
}

#[test]
fn navigate_to_directory_requests_targets() {
    let mut p = fresh_project("/r");
    let listing = UICurrentDirectory::new(
        "/r/sub".to_string(),
        true,
        Vec::new(),
    );
    p.navigate_to_directory("/r/sub".to_string(), &listing);
    assert_eq!(p.current_path, "/r/sub");
    assert_eq!(p.selected_directory, "/r/sub");
    assert_eq!(p.selected_target, 0);
    assert!(p.filtered_targets.is_empty());
    let msgs = p.take_loader_requests();
    assert_eq!(msgs.len(), 1);
    assert_eq!(msgs[0].path, "/r/sub");
}

#[test]
fn refresh_on_loaded_directory_restores_panel() {
    let mut p = fresh_project("/r");
    p.selected_directory = "/r/d".to_string();
    p.find_or_add_directory(&"/r/d".to_string(), true);
    p.directories[0].targets = vec![target("//d:a", "/r/d")];
    p.directories[0].targets_loaded = true;
    let listing = UICurrentDirectory::new(
        "/r".to_string(),
        false,
        vec![plain_dir("/r/d", true)],
    );
    p.update_targets_for_selected_directory(&listing);
    // Already loaded: no new request, but the panel shows the targets.
    assert!(p.take_loader_requests().is_empty());
    assert_eq!(p.filtered_targets.len(), 1);
}

#[test]
fn directory_without_manifest_clears_panel() {
    let mut p = fresh_project("/r");
    p.selected_directory = "/r/plain".to_string();
    p.filtered_targets = vec![target("//old:t", "/r/old")];
    p.selected_target = 0;
    let listing = UICurrentDirectory::new(
        "/r".to_string(),
        false,
        vec![plain_dir("/r/plain", false)],
    );
    p.update_targets_for_selected_directory(&listing);
    assert!(p.filtered_targets.is_empty());
    assert!(p.take_loader_requests().is_empty());
}
