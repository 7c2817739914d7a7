//! Incremental search over the directory and target lists.
//!
//! `SearchState` records the query, which pane the search applies to, and
//! the indices of the items that currently match.  The matching itself is
//! computed elsewhere; this type only navigates among the matches.

use vstd::prelude::*;

use crate::ui::Pane;

verus! {

/// Which list a search runs over.
#[derive(Debug, Clone, PartialEq, Eq, Structural)]
pub enum SearchPane {
    CurrentDirectory,
    Targets,
}

/// The live state of an interactive search.
#[derive(Debug, Clone)]
pub struct SearchState {
    pub active: bool,
    pub query: String,
    pub current_match_idx: usize,
    pub total_matches: usize,
    /// Indices of matching items in the pane being searched.
    pub matches: Vec<usize>,
    pub searching_in_pane: SearchPane,
}

impl SearchState {
    pub fn new() -> (r: SearchState)
        ensures
            !r.active,
            r.query@ == Seq::<char>::empty(),
            r.current_match_idx == 0,
            r.total_matches == 0,
            r.matches@ == Seq::<usize>::empty(),
            r.searching_in_pane == SearchPane::CurrentDirectory,
    {
        SearchState {
            active: false,
            query: String::new(),
            current_match_idx: 0,
            total_matches: 0,
            matches: Vec::new(),
            searching_in_pane: SearchPane::CurrentDirectory,
        }
    }

    /// Leave search mode and forget the query and the matches.
    pub fn reset(&mut self)
        ensures
            !final(self).active,
            final(self).query@ == Seq::<char>::empty(),
            final(self).current_match_idx == 0,
            final(self).total_matches == 0,
            final(self).matches@ == Seq::<usize>::empty(),
            final(self).searching_in_pane == old(self).searching_in_pane,
    {
        self.active = false;
        self.query = String::new();
        self.current_match_idx = 0;
        self.total_matches = 0;
        self.matches = Vec::new();
    }

    /// The search pane that a focused pane maps to.
    pub open spec fn pane_target(pane: Pane) -> SearchPane {
        match pane {
            Pane::Targets | Pane::Details => SearchPane::Targets,
            _ => SearchPane::CurrentDirectory,
        }
    }

    /// Enter search mode in the pane that currently has focus, keeping the
    /// previous query so that it can be refined.
    pub fn activate(&mut self, pane: Pane, current_selection: usize)
        ensures
            final(self).active,
            final(self).query == old(self).query,
            final(self).current_match_idx == current_selection,
            final(self).total_matches == old(self).total_matches,
            final(self).matches == old(self).matches,
            final(self).searching_in_pane == Self::pane_target(pane),
    {
        self.active = true;
        self.current_match_idx = current_selection;
        self.searching_in_pane = match pane {
            Pane::CurrentDirectory | Pane::ParentDirectory => SearchPane::CurrentDirectory,
            Pane::Targets | Pane::Details => SearchPane::Targets,
            Pane::SelectedDirectory => SearchPane::CurrentDirectory,
        };
    }

    /// Step to the next match, wrapping around at the end.
    pub fn next_match(&mut self)
        ensures
            final(self).total_matches == old(self).total_matches,
            final(self).query == old(self).query,
            final(self).matches == old(self).matches,
            final(self).active == old(self).active,
            final(self).searching_in_pane == old(self).searching_in_pane,
            old(self).total_matches == 0 ==> final(self).current_match_idx == old(self).current_match_idx,
            old(self).total_matches > 0 ==> final(self).current_match_idx == (
            if old(self).current_match_idx < old(self).total_matches - 1 {
                (old(self).current_match_idx + 1) as usize
            } else {
                0
            }),
    {
        if self.total_matches > 0 {
            if self.current_match_idx < self.total_matches - 1 {
                self.current_match_idx = self.current_match_idx + 1;
            } else {
                self.current_match_idx = 0;
            }
        }
    }

    /// Step to the previous match, wrapping around at the start.
    pub fn prev_match(&mut self)
        ensures
            final(self).total_matches == old(self).total_matches,
            final(self).query == old(self).query,
            final(self).matches == old(self).matches,
            final(self).active == old(self).active,
            final(self).searching_in_pane == old(self).searching_in_pane,
            old(self).total_matches == 0 ==> final(self).current_match_idx == old(self).current_match_idx,
            old(self).total_matches > 0 ==> final(self).current_match_idx == (
            if old(self).current_match_idx == 0 {
                (old(self).total_matches - 1) as usize
            } else {
                (old(self).current_match_idx - 1) as usize
            }),
    {
        if self.total_matches > 0 {
            if self.current_match_idx == 0 {
                self.current_match_idx = self.total_matches - 1;
            } else {
                self.current_match_idx = self.current_match_idx - 1;
            }
        }
    }
}

} // verus!
