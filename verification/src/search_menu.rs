//! The object search window's decisions: which category is shown, when the
//! category's table searches again, whether the search input takes the
//! keyboard focus, and what is shown when a search finds nothing to load.
use vstd::prelude::*;

verus! {

/// How many object categories the window offers.
pub const NUM_CATEGORIES: usize = 6;

/// The text shown in place of the table when a search could not load items.
pub open spec fn failure_message() -> Seq<char> {
    "Failed to load items, try loading a save"@
}

/// The search window's state.
#[derive(Clone, Copy, Debug, PartialEq, Eq)]
pub struct SearchState {
    pub reclaim_focus: bool,
    pub search_failed: bool,
    pub cur_category: usize,
    pub case_sensitive: bool,
}

/// What the user did in the window this frame.
#[derive(Clone, Copy, Debug, PartialEq, Eq)]
pub enum SearchEvent {
    /// A category was picked; with whether the search text is empty and
    /// whether the picked category's table holds no rows.
    CategoryChosen { category: usize, text_empty: bool, table_empty: bool },
    /// The case-sensitivity box was set to the value.
    CaseSensitiveToggled(bool),
    /// The choice of fields to search in changed.
    FieldsChanged,
    /// The search text was entered, or the search button pressed.
    Submitted,
}

/// What the window asks of its caller.
#[derive(Clone, Copy, Debug, PartialEq, Eq)]
pub enum SearchAction {
    Nothing,
    /// Run the current category's search with the text and options; its
    /// outcome goes to `finish_search`.
    Search,
}

impl SearchState {
    /// The window as it opens: the first category, case-insensitive, the
    /// input taking the focus.
    pub fn new() -> (res: SearchState)
        ensures
            res == (SearchState { reclaim_focus: true, search_failed: false, cur_category: 0, case_sensitive: false }),
    {
        SearchState { reclaim_focus: true, search_failed: false, cur_category: 0, case_sensitive: false }
    }

    /// The next state and what to do after an event: picking a category shows
    /// it, and searches when the text is empty and its table has no rows;
    /// changing the case sensitivity or the fields, or submitting, searches.
    pub fn on_event(&mut self, event: SearchEvent) -> (res: SearchAction)
        requires
            event matches SearchEvent::CategoryChosen { category, .. } ==> category < NUM_CATEGORIES,
        ensures
            match event {
                SearchEvent::CategoryChosen { category, text_empty, table_empty } => {
                    &&& *final(self) == (SearchState { cur_category: category, ..*old(self) })
                    &&& res == if text_empty && table_empty {
                        SearchAction::Search
                    } else {
                        SearchAction::Nothing
                    }
                },
                SearchEvent::CaseSensitiveToggled(v) => {
                    &&& *final(self) == (SearchState { case_sensitive: v, ..*old(self) })
                    &&& res == SearchAction::Search
                },
                _ => (*final(self) == *old(self) && res == SearchAction::Search),
            },
    {
        match event {
            SearchEvent::CategoryChosen { category, text_empty, table_empty } => {
                self.cur_category = category;
                if text_empty && table_empty {
                    SearchAction::Search
                } else {
                    SearchAction::Nothing
                }
            },
            SearchEvent::CaseSensitiveToggled(v) => {
                self.case_sensitive = v;
                SearchAction::Search
            },
            SearchEvent::FieldsChanged => SearchAction::Search,
            SearchEvent::Submitted => SearchAction::Search,
        }
    }

    /// Records a search's outcome: it failed when nothing could be loaded; the
    /// input takes the focus again.
    pub fn finish_search(&mut self, loaded: bool)
        ensures
            *final(self) == (SearchState { search_failed: !loaded, reclaim_focus: true, ..*old(self) }),
    {
        self.search_failed = !loaded;
        self.reclaim_focus = true;
    }

    /// Whether the input takes the keyboard focus this frame; it does so once.
    pub fn take_focus(&mut self) -> (res: bool)
        ensures
            res == old(self).reclaim_focus,
            *final(self) == (SearchState { reclaim_focus: false, ..*old(self) }),
    {
        let res = self.reclaim_focus;
        self.reclaim_focus = false;
        res
    }

    /// The text shown in place of the table, when the last search failed.
    pub fn failure_text(&self) -> (res: Option<&'static str>)
        ensures
            self.search_failed ==> (res matches Some(t) && t@ == failure_message()),
            !self.search_failed ==> res is None,
    {
        if self.search_failed {
            Some("Failed to load items, try loading a save")
        } else {
            None
        }
    }
}

} // verus!
