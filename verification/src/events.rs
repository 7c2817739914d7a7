//! Search over the directory and target panes.
//!
//! The embedding program decodes key presses; what happens to the search
//! state and the project lives here.  A search walks either the current
//! directory listing or the filtered target list, collects the indices of
//! the entries whose display text contains the lowercased query, and
//! steers the selection to the nearest match.

use vstd::prelude::*;

use crate::buck::dir_first_match;
use crate::buck::dir_has;
use crate::buck::display_title_spec;
use crate::buck::targets_update_applied;
use crate::buck::BuckDirectory;
use crate::buck::BuckProject;
use crate::buck::TargetModel;
use crate::buck::UICurrentDirectory;
use crate::search::SearchPane;
use crate::search::SearchState;
use crate::strutil::lower_of;
use crate::strutil::seq_contains;
use crate::strutil::str_contains;
use crate::strutil::tail_after_last;
use crate::strutil::to_lower;

verus! {

/// The text a directory entry shows in the listing: `.` for the current
/// directory, its last path component otherwise.
pub open spec fn dir_display_name(d: BuckDirectory, current: Seq<char>) -> Seq<char> {
    if d.path@ == current {
        "."@
    } else {
        tail_after_last(d.path@, "/"@)
    }
}

/// Whether a listed directory matches the lowercased query `ql`.
pub open spec fn dir_matches(d: BuckDirectory, current: Seq<char>, ql: Seq<char>) -> bool {
    seq_contains(lower_of(dir_display_name(d, current)), ql)
}

/// Whether a listed target matches the lowercased query `ql`.
pub open spec fn target_title_matches(t: TargetModel, ql: Seq<char>) -> bool {
    seq_contains(lower_of(display_title_spec(t)), ql)
}

/// `ms` is exactly the ascending list of positions of the listed
/// directories whose display name matches `ql`.
pub open spec fn dir_match_indices_ok(
    ms: Seq<usize>,
    dirs: Seq<BuckDirectory>,
    current: Seq<char>,
    ql: Seq<char>,
) -> bool {
    &&& forall|a: int, b: int| 0 <= a < b < ms.len() ==> ms[a] < ms[b]
    &&& forall|a: int|
        0 <= a < ms.len() ==> 0 <= (#[trigger] ms[a]) < dirs.len() && dir_matches(
            dirs[ms[a] as int],
            current,
            ql,
        )
    &&& forall|idx: int|
        0 <= idx < dirs.len() && dir_matches(#[trigger] dirs[idx], current, ql) ==> exists|a: int|
            0 <= a < ms.len() && ms[a] == idx
}

/// `ms` is exactly the ascending list of positions of the filtered
/// targets whose display line matches `ql`.
pub open spec fn target_match_indices_ok(
    ms: Seq<usize>,
    targets: Seq<TargetModel>,
    ql: Seq<char>,
) -> bool {
    &&& forall|a: int, b: int| 0 <= a < b < ms.len() ==> ms[a] < ms[b]
    &&& forall|a: int|
        0 <= a < ms.len() ==> 0 <= (#[trigger] ms[a]) < targets.len() && target_title_matches(
            targets[ms[a] as int],
            ql,
        )
    &&& forall|idx: int|
        0 <= idx < targets.len() && target_title_matches(#[trigger] targets[idx], ql)
            ==> exists|a: int| 0 <= a < ms.len() && ms[a] == idx
}

/// Where the match cursor lands: on the match equal to the previous
/// selection if there is one, else on the first match past it, else on
/// the first match.
pub open spec fn cursor_ok(ms: Seq<usize>, cs: int, cursor: int) -> bool {
    if ms.len() == 0 {
        cursor == 0
    } else if exists|a: int| 0 <= a < ms.len() && (#[trigger] ms[a]) == cs {
        0 <= cursor < ms.len() && ms[cursor] == cs
    } else if exists|a: int| 0 <= a < ms.len() && (#[trigger] ms[a]) > cs {
        &&& 0 <= cursor < ms.len()
        &&& ms[cursor] > cs
        &&& forall|a: int| 0 <= a < cursor ==> (#[trigger] ms[a]) <= cs
    } else {
        cursor == 0
    }
}

/// The search state once the matches are recomputed, before the cursor
/// moves: the query, the active flag and the pane stay; an empty query
/// clears the matches, and a non-empty one collects exactly the matching
/// positions.
pub open spec fn search_matches_prepared(
    project: BuckProject,
    listing_dirs: Seq<BuckDirectory>,
    pre: SearchState,
    post: SearchState,
) -> bool {
    &&& post.query == pre.query
    &&& post.active == pre.active
    &&& post.searching_in_pane == pre.searching_in_pane
    &&& (if pre.query@.len() == 0 {
        post.matches@.len() == 0 && post.total_matches == 0
    } else {
        let ql = lower_of(pre.query@);
        &&& (match pre.searching_in_pane {
            SearchPane::CurrentDirectory => dir_match_indices_ok(
                post.matches@,
                listing_dirs,
                project.current_path@,
                ql,
            ),
            SearchPane::Targets => target_match_indices_ok(
                post.matches@,
                project.filtered_targets.deep_view(),
                ql,
            ),
        })
        &&& post.total_matches == post.matches@.len()
    })
}

/// The search state after the matches are recomputed against the panes:
/// with an empty query everything clears; otherwise the matches are the
/// positions whose display text contains the lowercased query, and the
/// cursor lands near `cs`.
pub open spec fn search_matches_updated(
    project: BuckProject,
    listing_dirs: Seq<BuckDirectory>,
    pre: SearchState,
    post: SearchState,
    cs: int,
) -> bool {
    &&& search_matches_prepared(project, listing_dirs, pre, post)
    &&& (if pre.query@.len() == 0 {
        post.current_match_idx == 0
    } else {
        cursor_ok(post.matches@, cs, post.current_match_idx as int)
    })
}

/// The key-press plumbing lives with the embedder; this type holds the
/// search logic it drives.
pub struct EventHandler;

impl EventHandler {
    pub fn new() -> (r: EventHandler) {
        EventHandler
    }

    /// The selection position the active search pane starts from: the
    /// selected directory's position in the listing, or the selected
    /// target's index.
    pub fn get_current_selection(
        &self,
        project: &BuckProject,
        search_state: &SearchState,
        listing: &UICurrentDirectory,
    ) -> (r: usize)
        ensures
            match search_state.searching_in_pane {
                SearchPane::CurrentDirectory => (exists|i: int|
                    #[trigger] dir_first_match(
                        listing.sub_directories@,
                        project.selected_directory@,
                        i,
                    ) && r == i) || (!dir_has(
                    listing.sub_directories@,
                    project.selected_directory@,
                ) && r == 0),
                SearchPane::Targets => r == project.selected_target,
            },
    {
        match search_state.searching_in_pane {
            SearchPane::CurrentDirectory => {
                match listing.index_of(&project.selected_directory) {
                    Some(i) => i,
                    None => 0,
                }
            },
            SearchPane::Targets => project.selected_target,
        }
    }

    /// Recompute which entries of the active pane match the query, and
    /// land the cursor on the match nearest to `current_selection`.
    pub fn update_search_matches(
        &self,
        project: &BuckProject,
        listing: &UICurrentDirectory,
        search_state: &mut SearchState,
        current_selection: usize,
    )
        ensures
            search_matches_updated(
                *project,
                listing.sub_directories@,
                *old(search_state),
                *final(search_state),
                current_selection as int,
            ),
    {
        if search_state.query.as_str().unicode_len() == 0 {
            search_state.matches = Vec::new();
            search_state.current_match_idx = 0;
            search_state.total_matches = 0;
            return ;
        }
        let query_lower = to_lower(search_state.query.as_str());
        let mut found: Vec<usize> = Vec::new();
        match search_state.searching_in_pane {
            SearchPane::CurrentDirectory => {
                let mut i: usize = 0;
                while i < listing.sub_directories.len()
                    invariant
                        0 <= i <= listing.sub_directories@.len(),
                        query_lower@ == lower_of(old(search_state).query@),
                        forall|a: int, b: int| 0 <= a < b < found@.len() ==> found@[a] < found@[b],
                        forall|a: int|
                            0 <= a < found@.len() ==> 0 <= (#[trigger] found@[a]) < i
                                && dir_matches(
                                listing.sub_directories@[found@[a] as int],
                                project.current_path@,
                                lower_of(old(search_state).query@),
                            ),
                        forall|idx: int|
                            0 <= idx < i && dir_matches(
                                #[trigger] listing.sub_directories@[idx],
                                project.current_path@,
                                lower_of(old(search_state).query@),
                            ) ==> exists|a: int| 0 <= a < found@.len() && found@[a] == idx,
                    decreases listing.sub_directories@.len() - i,
                {
                    let d = &listing.sub_directories[i];
                    let display: String = if d.path == project.current_path {
                        String::from_str(".")
                    } else {
                        proof {
                            reveal_strlit("/");
                        }
                        crate::strutil::str_tail_after_last(d.path.as_str(), "/")
                    };
                    proof {
                        reveal_strlit(".");
                        assert(display@ == dir_display_name(
                            listing.sub_directories@[i as int],
                            project.current_path@,
                        ));
                    }
                    let display_lower = to_lower(display.as_str());
                    let matched = str_contains(display_lower.as_str(), query_lower.as_str());
                    let ghost found0 = found@;
                    if matched {
                        found.push(i);
                    }
                    proof {
                        if matched {
                            assert(found@ == found0.push(i));
                        } else {
                            assert(!dir_matches(
                                listing.sub_directories@[i as int],
                                project.current_path@,
                                lower_of(old(search_state).query@),
                            ));
                        }
                        assert forall|idx: int|
                            0 <= idx < i + 1 && dir_matches(
                                #[trigger] listing.sub_directories@[idx],
                                project.current_path@,
                                lower_of(old(search_state).query@),
                            ) implies exists|a: int|
                            0 <= a < found@.len() && found@[a] == idx by {
                            if idx < i {
                                let a0 = choose|a: int|
                                    0 <= a < found0.len() && found0[a] == idx;
                                assert(found@[a0] == idx);
                            } else {
                                assert(found@[found@.len() - 1] == idx);
                            }
                        }
                    }
                    i = i + 1;
                }
                search_state.matches = found;
            },
            SearchPane::Targets => {
                let mut i: usize = 0;
                while i < project.filtered_targets.len()
                    invariant
                        0 <= i <= project.filtered_targets@.len(),
                        query_lower@ == lower_of(old(search_state).query@),
                        forall|a: int, b: int| 0 <= a < b < found@.len() ==> found@[a] < found@[b],
                        forall|a: int|
                            0 <= a < found@.len() ==> 0 <= (#[trigger] found@[a]) < i
                                && target_title_matches(
                                project.filtered_targets.deep_view()[found@[a] as int],
                                lower_of(old(search_state).query@),
                            ),
                        forall|idx: int|
                            0 <= idx < i && target_title_matches(
                                #[trigger] project.filtered_targets.deep_view()[idx],
                                lower_of(old(search_state).query@),
                            ) ==> exists|a: int| 0 <= a < found@.len() && found@[a] == idx,
                    decreases project.filtered_targets@.len() - i,
                {
                    let title = project.filtered_targets[i].display_title();
                    proof {
                        assert(project.filtered_targets.deep_view()[i as int]
                            == project.filtered_targets@[i as int]@);
                    }
                    let title_lower = to_lower(title.as_str());
                    let matched = str_contains(title_lower.as_str(), query_lower.as_str());
                    let ghost found0 = found@;
                    if matched {
                        found.push(i);
                    }
                    proof {
                        if !matched {
                            assert(!target_title_matches(
                                project.filtered_targets.deep_view()[i as int],
                                lower_of(old(search_state).query@),
                            ));
                        }
                        assert forall|idx: int|
                            0 <= idx < i + 1 && target_title_matches(
                                #[trigger] project.filtered_targets.deep_view()[idx],
                                lower_of(old(search_state).query@),
                            ) implies exists|a: int|
                            0 <= a < found@.len() && found@[a] == idx by {
                            if idx < i {
                                let a0 = choose|a: int|
                                    0 <= a < found0.len() && found0[a] == idx;
                                assert(found@[a0] == idx);
                            } else {
                                assert(found@[found@.len() - 1] == idx);
                            }
                        }
                    }
                    i = i + 1;
                }
                search_state.matches = found;
            },
        }
        search_state.total_matches = search_state.matches.len();
        let ghost ss0 = *search_state;
        proof {
            assert(search_matches_prepared(
                *project,
                listing.sub_directories@,
                *old(search_state),
                ss0,
            ));
        }
        if search_state.total_matches == 0 {
            search_state.current_match_idx = 0;
            return ;
        }
        let mut a: usize = 0;
        while a < search_state.matches.len()
            invariant
                *search_state == ss0,
                search_matches_prepared(
                    *project,
                    listing.sub_directories@,
                    *old(search_state),
                    ss0,
                ),
                old(search_state).query@.len() > 0,
                0 <= a <= search_state.matches@.len(),
                forall|k: int|
                    0 <= k < a ==> (#[trigger] search_state.matches@[k]) != current_selection,
            decreases search_state.matches@.len() - a,
        {
            if search_state.matches[a] == current_selection {
                search_state.current_match_idx = a;
                return ;
            }
            a = a + 1;
        }
        let mut b: usize = 0;
        while b < search_state.matches.len()
            invariant
                *search_state == ss0,
                search_matches_prepared(
                    *project,
                    listing.sub_directories@,
                    *old(search_state),
                    ss0,
                ),
                old(search_state).query@.len() > 0,
                0 <= b <= search_state.matches@.len(),
                forall|k: int|
                    0 <= k < b ==> (#[trigger] search_state.matches@[k]) <= current_selection,
                forall|k: int|
                    0 <= k < search_state.matches@.len() ==> (#[trigger] search_state.matches@[k])
                        != current_selection,
            decreases search_state.matches@.len() - b,
        {
            if search_state.matches[b] > current_selection {
                search_state.current_match_idx = b;
                return ;
            }
            b = b + 1;
        }
        search_state.current_match_idx = 0;
    }

    /// Steer the project to the match the cursor rests on: a directory
    /// match becomes the selected directory, whose targets are refreshed;
    /// a target match becomes the selected target.
    pub fn navigate_to_current_match(
        &self,
        project: &mut BuckProject,
        search_state: &SearchState,
        listing: &UICurrentDirectory,
    )
        requires
            old(project).wf(),
            old(project).next_generation < u64::MAX,
            search_state.current_match_idx < search_state.matches@.len(),
        ensures
            final(project).wf(),
            ({
                let m = search_state.matches@[search_state.current_match_idx as int] as int;
                match search_state.searching_in_pane {
                    SearchPane::CurrentDirectory => {
                        if m < listing.sub_directories@.len() {
                            &&& final(project).selected_directory@
                                == listing.sub_directories@[m].path@
                            &&& final(project).current_path == old(project).current_path
                            &&& targets_update_applied(
                                *old(project),
                                *final(project),
                                listing.sub_directories@[m].path@,
                                listing.sub_directories@,
                                old(project).filtered_targets.deep_view(),
                                old(project).selected_target as int,
                            )
                        } else {
                            *final(project) == *old(project)
                        }
                    },
                    SearchPane::Targets => *final(project) == (BuckProject {
                        selected_target: m as usize,
                        ..*old(project)
                    }),
                }
            }),
    {
        if search_state.matches.len() == 0 {
            return ;
        }
        let m = search_state.matches[search_state.current_match_idx];
        match search_state.searching_in_pane {
            SearchPane::CurrentDirectory => {
                if m < listing.sub_directories.len() {
                    project.selected_directory = listing.sub_directories[m].path.clone();
                    project.update_targets_for_selected_directory(listing);
                }
            },
            SearchPane::Targets => {
                project.selected_target = m;
            },
        }
    }

    /// Recompute the matches for the pane being searched, then move to the
    /// nearest one if any match exists.
    pub fn update_and_navigate(
        &self,
        project: &mut BuckProject,
        search_state: &mut SearchState,
        listing: &UICurrentDirectory,
    )
        requires
            old(project).wf(),
            old(project).next_generation < u64::MAX,
        ensures
            final(project).wf(),
            ({
                exists|cs: int|
                    {
                        &&& #[trigger] search_matches_updated(
                            *old(project),
                            listing.sub_directories@,
                            *old(search_state),
                            *final(search_state),
                            cs,
                        )
                        &&& (final(search_state).total_matches == 0 ==> *final(project) == *old(
                            project,
                        ))
                    }
            }),
    {
        let current_selection = self.get_current_selection(project, search_state, listing);
        self.update_search_matches(project, listing, search_state, current_selection);
        if search_state.total_matches > 0 {
            if search_state.current_match_idx < search_state.matches.len() {
                self.navigate_to_current_match(project, search_state, listing);
            }
        }
    }

    /// Recompute the matches after the directory or target lists changed,
    /// leaving everything untouched when no query is set.
    pub fn refresh_search_if_active(
        &self,
        project: &BuckProject,
        search_state: &mut SearchState,
        listing: &UICurrentDirectory,
    )
        ensures
            old(search_state).query@.len() == 0 ==> *final(search_state) == *old(search_state),
            old(search_state).query@.len() > 0 ==> exists|cs: int|
                #[trigger] search_matches_updated(
                    *project,
                    listing.sub_directories@,
                    *old(search_state),
                    *final(search_state),
                    cs,
                ),
    {
        if search_state.query.as_str().unicode_len() == 0 {
            return ;
        }
        let current_selection = self.get_current_selection(project, search_state, listing);
        self.update_search_matches(project, listing, search_state, current_selection);
    }
}

} // verus!
