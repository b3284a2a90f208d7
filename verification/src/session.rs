//! One viewing session: store, filter, visible set, search, match list with
//! its cursor, and the rows picked by hand.

use crate::criteria::{found_rows, visible, visible_rows, Criteria};
use crate::json::{ingest, ingested, lines_view, logs_view};
use crate::level::Level;
use crate::record::Log;
use std::collections::HashSet;
use vstd::prelude::*;

verus! {

broadcast use vstd::std_specs::hash::group_hash_axioms;

/// The state of one viewing session: the record store, what the filter
/// leaves of it, what the search finds in that, and the rows picked by hand.
pub struct Session {
    pub picked_path: Option<String>,
    pub logs: Vec<Log>,
    pub filtered_logs: Vec<Log>,
    pub filter: Criteria,
    pub search: Criteria,
    pub search_founds: Vec<usize>,
    pub search_found_cursor: usize,
    pub search_found_scroll_row: Option<usize>,
    pub selection: HashSet<usize>,
}

impl Default for Session {
    fn default() -> (r: Self)
        ensures
            r.picked_path.is_none(),
            r.logs@.len() == 0,
            r.filtered_logs@.len() == 0,
            r.filter.is_open(),
            r.search.is_idle(),
            r.search_founds@.len() == 0,
            r.search_found_cursor == 0,
            r.search_found_scroll_row.is_none(),
            r.selection@ == Set::<usize>::empty(),
            r.derived(),
    {
        Session::new()
    }
}

impl Session {
    /// The cursor stands on a match whenever there is one, and on 0 else.
    pub open spec fn cursor_in_bounds(self) -> bool {
        if self.search_founds@.len() == 0 {
            self.search_found_cursor == 0
        } else {
            self.search_found_cursor < self.search_founds@.len()
        }
    }

    /// The visible set is what the filter leaves of the store, the match
    /// list is what the search finds in the visible set, and the cursor is
    /// in bounds.
    pub open spec fn derived(self) -> bool {
        &&& self.filtered_logs@ == visible_rows(self.logs@, self.filter)
        &&& self.search_founds@ == found_rows(self.filtered_logs@, self.search)
        &&& self.cursor_in_bounds()
    }

    /// The row on which the cursor stands, if it stands on a match.
    pub open spec fn row_at_cursor(self) -> Option<usize> {
        if self.search_found_cursor < self.search_founds@.len() {
            Some(self.search_founds@[self.search_found_cursor as int])
        } else {
            None
        }
    }

    /// Everything but the cursor and the scroll target is as in `before`.
    pub open spec fn moved_from(self, before: Session) -> bool {
        &&& self.picked_path == before.picked_path
        &&& self.logs == before.logs
        &&& self.filtered_logs == before.filtered_logs
        &&& self.filter == before.filter
        &&& self.search == before.search
        &&& self.search_founds == before.search_founds
        &&& self.selection == before.selection
    }

    /// A session with no file: an empty store, an open filter, an idle search.
    pub fn new() -> (r: Session)
        ensures
            r.picked_path.is_none(),
            r.logs@.len() == 0,
            r.filtered_logs@.len() == 0,
            r.filter.is_open(),
            r.search.is_idle(),
            r.search_founds@.len() == 0,
            r.search_found_cursor == 0,
            r.search_found_scroll_row.is_none(),
            r.selection@ == Set::<usize>::empty(),
            r.derived(),
    {
        proof {
            reveal(Seq::filter);
        }
        let r = Session {
            picked_path: None,
            logs: Vec::new(),
            filtered_logs: Vec::new(),
            filter: Criteria::open(),
            search: Criteria::idle(),
            search_founds: Vec::new(),
            search_found_cursor: 0,
            search_found_scroll_row: None,
            selection: HashSet::new(),
        };
        assert(r.filtered_logs@ =~= visible_rows(r.logs@, r.filter));
        assert(r.search_founds@ =~= found_rows(r.filtered_logs@, r.search));
        r
    }

    /// Replaces the store by the records of the lines of a file, opens the
    /// filter, lets go of every picked row and derives everything anew. The
    /// search criteria stay.
    pub fn load(&mut self, lines: &Vec<String>)
        ensures
            final(self).picked_path == old(self).picked_path,
            final(self).search == old(self).search,
            final(self).search_found_scroll_row == old(self).search_found_scroll_row,
            logs_view(final(self).logs@) == ingested(lines_view(lines@)),
            final(self).filter.is_open(),
            final(self).filtered_logs@ == final(self).logs@,
            final(self).search_founds@ == found_rows(final(self).logs@, old(self).search),
            final(self).search_found_cursor == 0,
            final(self).selection@ == Set::<usize>::empty(),
            final(self).derived(),
    {
        self.logs = ingest(lines);
        self.selection.clear();
        self.filter_reset();
    }

    /// Derives the visible set from the store and the filter, then runs the
    /// search over it.
    pub fn filter(&mut self)
        ensures
            final(self).picked_path == old(self).picked_path,
            final(self).logs == old(self).logs,
            final(self).filter == old(self).filter,
            final(self).search == old(self).search,
            final(self).selection == old(self).selection,
            final(self).search_found_scroll_row == old(self).search_found_scroll_row,
            final(self).search_found_cursor == 0,
            final(self).filtered_logs@ == visible_rows(old(self).logs@, old(self).filter),
            final(self).search_founds@ == found_rows(
                final(self).filtered_logs@,
                old(self).search,
            ),
            old(self).filter.is_open() ==> final(self).filtered_logs@ == old(self).logs@,
            final(self).derived(),
    {
        self.filtered_logs = visible(&self.logs, &self.filter);
        self.search();
    }

    /// Opens the filter again and derives everything anew: every record of
    /// the store is visible afterwards.
    pub fn filter_reset(&mut self)
        ensures
            final(self).picked_path == old(self).picked_path,
            final(self).logs == old(self).logs,
            final(self).search == old(self).search,
            final(self).selection == old(self).selection,
            final(self).search_found_scroll_row == old(self).search_found_scroll_row,
            final(self).search_found_cursor == 0,
            final(self).filter.is_open(),
            final(self).filtered_logs@ == old(self).logs@,
            final(self).search_founds@ == found_rows(old(self).logs@, old(self).search),
            final(self).derived(),
    {
        self.filter = Criteria::open();
        self.filter();
    }

    /// Puts new criteria in the filter. The visible set and the match list
    /// both follow.
    pub fn set_filter(&mut self, criteria: Criteria)
        ensures
            final(self).picked_path == old(self).picked_path,
            final(self).logs == old(self).logs,
            final(self).search == old(self).search,
            final(self).selection == old(self).selection,
            final(self).search_found_scroll_row == old(self).search_found_scroll_row,
            final(self).search_found_cursor == 0,
            final(self).filter == criteria,
            final(self).filtered_logs@ == visible_rows(old(self).logs@, criteria),
            final(self).search_founds@ == found_rows(
                visible_rows(old(self).logs@, criteria),
                old(self).search,
            ),
            final(self).derived(),
    {
        self.filter = criteria;
        self.filter();
    }

    /// Turns a level's flag in the filter over. The visible set and the
    /// match list both follow.
    pub fn toggle_filter_level(&mut self, level: Level)
        ensures
            final(self).picked_path == old(self).picked_path,
            final(self).logs == old(self).logs,
            final(self).search == old(self).search,
            final(self).selection == old(self).selection,
            final(self).search_found_scroll_row == old(self).search_found_scroll_row,
            final(self).search_found_cursor == 0,
            final(self).filter == old(self).filter.toggled(level),
            final(self).filtered_logs@ == visible_rows(
                old(self).logs@,
                old(self).filter.toggled(level),
            ),
            final(self).search_founds@ == found_rows(
                final(self).filtered_logs@,
                old(self).search,
            ),
            final(self).derived(),
    {
        self.filter.toggle(level);
        self.filter();
    }

    /// Turns a level's flag in the search over. Only the match list follows.
    pub fn toggle_search_level(&mut self, level: Level)
        ensures
            final(self).picked_path == old(self).picked_path,
            final(self).logs == old(self).logs,
            final(self).filtered_logs == old(self).filtered_logs,
            final(self).filter == old(self).filter,
            final(self).selection == old(self).selection,
            final(self).search_found_scroll_row == old(self).search_found_scroll_row,
            final(self).search_found_cursor == 0,
            final(self).search == old(self).search.toggled(level),
            final(self).search_founds@ == found_rows(
                old(self).filtered_logs@,
                old(self).search.toggled(level),
            ),
            final(self).cursor_in_bounds(),
            old(self).filtered_logs@ == visible_rows(old(self).logs@, old(self).filter)
                ==> final(self).derived(),
    {
        self.search.toggle(level);
        self.search();
    }

    /// Puts new criteria in the search. Only the match list follows; the
    /// store and the visible set stay.
    pub fn set_search(&mut self, criteria: Criteria)
        ensures
            final(self).picked_path == old(self).picked_path,
            final(self).logs == old(self).logs,
            final(self).filtered_logs == old(self).filtered_logs,
            final(self).filter == old(self).filter,
            final(self).selection == old(self).selection,
            final(self).search_found_scroll_row == old(self).search_found_scroll_row,
            final(self).search_found_cursor == 0,
            final(self).search == criteria,
            final(self).search_founds@ == found_rows(old(self).filtered_logs@, criteria),
            final(self).cursor_in_bounds(),
            old(self).filtered_logs@ == visible_rows(old(self).logs@, old(self).filter)
                ==> final(self).derived(),
    {
        self.search = criteria;
        self.search();
    }

    /// Runs the search over the visible set and puts the cursor on the first
    /// match. An idle search finds nothing.
    pub fn search(&mut self)
        ensures
            final(self).picked_path == old(self).picked_path,
            final(self).logs == old(self).logs,
            final(self).filtered_logs == old(self).filtered_logs,
            final(self).filter == old(self).filter,
            final(self).search == old(self).search,
            final(self).selection == old(self).selection,
            final(self).search_found_scroll_row == old(self).search_found_scroll_row,
            final(self).search_found_cursor == 0,
            final(self).search_founds@ == found_rows(old(self).filtered_logs@, old(self).search),
            old(self).search.is_idle() ==> final(self).search_founds@.len() == 0,
            final(self).cursor_in_bounds(),
            old(self).filtered_logs@ == visible_rows(old(self).logs@, old(self).filter)
                ==> final(self).derived(),
    {
        self.search_founds = crate::criteria::matches(&self.filtered_logs, &self.search);
        self.search_found_cursor = 0;
    }

    /// Puts the search back to idle: nothing is found any more.
    pub fn search_reset(&mut self)
        ensures
            final(self).picked_path == old(self).picked_path,
            final(self).logs == old(self).logs,
            final(self).filtered_logs == old(self).filtered_logs,
            final(self).filter == old(self).filter,
            final(self).selection == old(self).selection,
            final(self).search_found_scroll_row == old(self).search_found_scroll_row,
            final(self).search.is_idle(),
            final(self).search_founds@.len() == 0,
            final(self).search_found_cursor == 0,
            old(self).filtered_logs@ == visible_rows(old(self).logs@, old(self).filter)
                ==> final(self).derived(),
    {
        self.search = Criteria::idle();
        self.search_founds = Vec::new();
        self.search_found_cursor = 0;
        assert(self.search_founds@ =~= found_rows(self.filtered_logs@, self.search));
    }

    /// Whether `index` is the row on which the cursor stands.
    pub fn index_at_search_found_cursor(&self, index: usize) -> (r: bool)
        ensures
            r == (self.row_at_cursor() == Some(index)),
    {
        if self.search_founds.len() == 0 {
            return false;
        }
        if self.search_found_cursor > self.search_founds.len() - 1 {
            return false;
        }
        index == self.search_founds[self.search_found_cursor]
    }

    fn scroll_to_cursor(&mut self)
        ensures
            final(self).moved_from(*old(self)),
            final(self).search_found_cursor == old(self).search_found_cursor,
            final(self).search_found_scroll_row == old(self).row_at_cursor(),
    {
        if self.search_found_cursor < self.search_founds.len() {
            self.search_found_scroll_row = Some(self.search_founds[self.search_found_cursor]);
        } else {
            self.search_found_scroll_row = None;
        }
    }

    /// Moves the cursor to the first match and asks to scroll there; with no
    /// match there is nothing to scroll to.
    pub fn search_first(&mut self)
        ensures
            final(self).moved_from(*old(self)),
            final(self).search_found_cursor == 0,
            final(self).search_found_scroll_row == final(self).row_at_cursor(),
            final(self).cursor_in_bounds(),
    {
        self.search_found_cursor = 0;
        self.scroll_to_cursor();
    }

    /// Moves the cursor one match back and asks to scroll there. On the
    /// first match, or with no match, nothing moves and nothing is asked.
    pub fn search_previous(&mut self)
        ensures
            final(self).moved_from(*old(self)),
            old(self).search_founds@.len() == 0 || old(self).search_found_cursor == 0 ==> {
                &&& final(self).search_found_cursor == old(self).search_found_cursor
                &&& final(self).search_found_scroll_row.is_none()
            },
            old(self).search_founds@.len() > 0 && old(self).search_found_cursor > 0 ==> {
                &&& final(self).search_found_cursor == old(self).search_found_cursor - 1
                &&& final(self).search_found_scroll_row == final(self).row_at_cursor()
            },
            old(self).cursor_in_bounds() ==> final(self).cursor_in_bounds(),
    {
        if self.search_founds.len() == 0 || self.search_found_cursor == 0 {
            self.search_found_scroll_row = None;
            return;
        }
        self.search_found_cursor -= 1;
        self.scroll_to_cursor();
    }

    /// Moves the cursor one match on and asks to scroll there. On the last
    /// match, or with no match, nothing moves and nothing is asked.
    pub fn search_next(&mut self)
        ensures
            final(self).moved_from(*old(self)),
            old(self).search_found_cursor + 1 >= old(self).search_founds@.len() ==> {
                &&& final(self).search_found_cursor == old(self).search_found_cursor
                &&& final(self).search_found_scroll_row.is_none()
            },
            old(self).search_found_cursor + 1 < old(self).search_founds@.len() ==> {
                &&& final(self).search_found_cursor == old(self).search_found_cursor + 1
                &&& final(self).search_found_scroll_row == final(self).row_at_cursor()
                &&& final(self).search_found_scroll_row.is_some()
            },
            old(self).cursor_in_bounds() ==> final(self).cursor_in_bounds(),
    {
        if self.search_founds.len() == 0 || self.search_found_cursor >= self.search_founds.len()
            - 1 {
            self.search_found_scroll_row = None;
            return;
        }
        self.search_found_cursor += 1;
        self.scroll_to_cursor();
    }

    /// Moves the cursor to the last match and asks to scroll there; with no
    /// match the cursor goes to 0 and there is nothing to scroll to.
    pub fn search_last(&mut self)
        ensures
            final(self).moved_from(*old(self)),
            old(self).search_founds@.len() == 0 ==> final(self).search_found_cursor == 0,
            old(self).search_founds@.len() > 0 ==> final(self).search_found_cursor == old(
                self,
            ).search_founds@.len() - 1,
            final(self).search_found_scroll_row == final(self).row_at_cursor(),
            final(self).cursor_in_bounds(),
    {
        if self.search_founds.len() == 0 {
            self.search_found_cursor = 0;
        } else {
            self.search_found_cursor = self.search_founds.len() - 1;
        }
        self.scroll_to_cursor();
    }

    /// Hands out the scroll target and clears it, so that it is acted on
    /// once.
    pub fn take_scroll_row(&mut self) -> (r: Option<usize>)
        ensures
            r == old(self).search_found_scroll_row,
            final(self).search_found_scroll_row.is_none(),
            final(self).moved_from(*old(self)),
            final(self).search_found_cursor == old(self).search_found_cursor,
    {
        let r = self.search_found_scroll_row;
        self.search_found_scroll_row = None;
        r
    }

    /// On a click, a picked row is let go and any other row is picked.
    /// Without a click nothing changes.
    pub fn toggle_row_selection(&mut self, row_index: usize, clicked: bool)
        ensures
            final(self).picked_path == old(self).picked_path,
            final(self).logs == old(self).logs,
            final(self).filtered_logs == old(self).filtered_logs,
            final(self).filter == old(self).filter,
            final(self).search == old(self).search,
            final(self).search_founds == old(self).search_founds,
            final(self).search_found_cursor == old(self).search_found_cursor,
            final(self).search_found_scroll_row == old(self).search_found_scroll_row,
            !clicked ==> final(self).selection@ == old(self).selection@,
            clicked && old(self).selection@.contains(row_index) ==> final(self).selection@ == old(
                self,
            ).selection@.remove(row_index),
            clicked && !old(self).selection@.contains(row_index) ==> final(self).selection@
                == old(self).selection@.insert(row_index),
    {
        if clicked {
            if self.selection.contains(&row_index) {
                self.selection.remove(&row_index);
            } else {
                self.selection.insert(row_index);
            }
        }
    }

    /// Whether a row is picked.
    pub fn is_selected(&self, row_index: usize) -> (r: bool)
        ensures
            r == self.selection@.contains(row_index),
    {
        self.selection.contains(&row_index)
    }

    /// How many records the store holds.
    pub fn total_count(&self) -> (r: usize)
        ensures
            r == self.logs@.len(),
    {
        self.logs.len()
    }

    /// How many records are visible.
    pub fn filtered_count(&self) -> (r: usize)
        ensures
            r == self.filtered_logs@.len(),
    {
        self.filtered_logs.len()
    }
}

} // verus!
