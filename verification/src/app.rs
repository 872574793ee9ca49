//! The state of the browser and what each key press does to it.
//!
//! `App` holds the state. `AppState` is its mathematical view, and the spec
//! functions of `AppState` say what every operation does. The operations never
//! reach outside the state: where a key press asks for work on the outside (a
//! fetch, the clipboard), the operation returns it as an `Action`, and the
//! caller hands the outcome back through `populate_items` or
//! `populate_item_details`. A fetch that failed hands nothing back and leaves
//! the state as it was.
//!
//! Cursor policies: single steps (`j`, `k`, the arrow keys) and the cycling
//! through search matches wrap around; jumps to an absolute position (`g`, `G`,
//! the jump to a search match) and jumps by a page (`Ctrl-d`, `Ctrl-u`) stop
//! at the first and the last row.

use crate::app_config::AppConfig;
use crate::op::{is_filled_details, is_indexed_entry, ItemDetails, ItemDetailsField, ItemListEntry};
use crate::search::{compute_matches, lemma_matches_of, matches_of};
use crate::sort::{
    before,
    effective_sort,
    field_of,
    has_no_ties,
    keys_of,
    is_sorted_indexing,
    lemma_sort_without_ties_is_strict,
    lemma_sorting_permutation_exists,
    lemma_stable_sorted_is_the_stable_sort,
    sort_items,
    sort_key,
    stable_sorted,
    SortField,
};
use crate::text::{
    ascii_lower,
    ascii_lower_spec,
    chars_eq,
    chars_eq_from,
    chars_lt,
    lemma_split_at_first,
    lowercase_of,
    pop_char,
    push_char,
    split,
    split_spec,
    split_str,
    str_eq,
    string_of,
    texts_of,
    to_chars,
};
use crate::util::{
    advance_clamped,
    advance_spec,
    clamp_index,
    clamp_index_spec,
    cursor_spec,
    dec_or_wrap,
    dec_or_wrap_spec,
    inc_or_wrap,
    inc_or_wrap_spec,
    lemma_moves_are_repeated_steps,
    max_index,
    max_index_spec,
    retreat_clamped,
};
use vstd::arithmetic::div_mod::{lemma_mod_add_multiples_vanish, lemma_mod_bound, lemma_small_mod};
use vstd::prelude::*;

verus! {

/// The rows that a jump by a page moves the cursor by.
pub const PAGE_ROWS: i32 = 6;

/// What the screen shows: the list of entries, or the fields of one entry.
#[derive(Debug, Clone, Copy, PartialEq, Eq, Hash, Structural)]
pub enum AppView {
    ItemListView,
    ItemView,
}

/// Whether keys move the cursor or build a command line.
#[derive(Debug, Clone, Copy, PartialEq, Eq, Structural)]
pub enum InputMode {
    Normal,
    Command,
}

/// The direction of a sort.
#[derive(Debug, Clone, Copy, PartialEq, Eq, Structural)]
pub enum SortDirection {
    Ascending,
    Descending,
}

/// The column that the list is sorted by, by its header, and the direction.
#[derive(Debug, Clone, PartialEq, Eq)]
pub struct SortConfig {
    pub sort_direction: SortDirection,
    pub header: String,
}

/// A search: the pattern as typed so far, the positions in the list that it
/// was found at, and which of them was jumped to last.
#[derive(Debug, Clone, PartialEq, Eq)]
pub struct SearchState {
    pub pattern: String,
    pub match_idxs: Vec<usize>,
    pub selected_match_idx: Option<usize>,
}

/// The cursor of a table: the selected row, or `None` while no row has been
/// selected yet.
#[derive(Debug, Clone, Copy, PartialEq, Eq)]
pub struct SelectionState {
    pub selected: Option<usize>,
}

/// The keys that the browser tells apart.
#[derive(Debug, Clone, Copy, PartialEq, Eq)]
pub enum KeyCode {
    Char(char),
    Enter,
    Backspace,
    Esc,
    Up,
    Down,
    Other,
}

/// A key press: the key, and whether Control, and no other modifier, was held
/// with it.
#[derive(Debug, Clone, Copy, PartialEq, Eq)]
pub struct KeyEvent {
    pub code: KeyCode,
    pub control: bool,
}

/// What the terminal reports: a key press, or something that the browser does
/// not react to.
#[derive(Debug, Clone, Copy, PartialEq, Eq)]
pub enum Event {
    Key(KeyEvent),
    Other,
}

/// Work on the outside that a key press asks for.
#[derive(Debug, Clone, PartialEq, Eq)]
pub enum Action {
    /// Nothing.
    Nothing,
    /// Fetch the summaries of all entries and hand them to `populate_items`.
    Reload,
    /// Fetch the full record of the entry with this id and hand it to
    /// `populate_item_details`.
    FetchDetails { id: String },
    /// Run `command` (the program, then its arguments) and write `text` to its
    /// input.
    Copy { command: Vec<String>, text: String },
}

/// The state of the browser.
pub struct App {
    pub is_running: bool,
    /// The cursor over the fields of the open entry.
    pub item_table_state: SelectionState,
    /// The cursor over the list.
    pub item_list_table_state: SelectionState,
    pub item_list_sort_config: SortConfig,
    pub app_view: AppView,
    pub headers: Vec<String>,
    pub items: Vec<ItemListEntry>,
    pub item_details: Option<ItemDetails>,
    pub input_mode: InputMode,
    /// The command line as typed so far. It is empty in normal mode and starts
    /// with `:` or `/` in command mode.
    pub cmd_input: String,
    pub search_state: Option<SearchState>,
    pub clipboard_bin: String,
}

/// The view of a `SearchState`.
pub struct SearchView {
    pub pattern: Seq<char>,
    pub match_idxs: Seq<usize>,
    pub selected_match_idx: Option<usize>,
}

/// The view of an `Action`.
pub enum ActionView {
    Nothing,
    Reload,
    FetchDetails { id: Seq<char> },
    Copy { command: Seq<Seq<char>>, text: Seq<char> },
}

/// The view of an `App`.
pub struct AppState {
    pub is_running: bool,
    pub item_cursor: Option<usize>,
    pub item_list_cursor: Option<usize>,
    pub sort_header: Seq<char>,
    pub sort_direction: SortDirection,
    pub app_view: AppView,
    pub headers: Seq<Seq<char>>,
    pub items: Seq<ItemListEntry>,
    pub item_details: Option<ItemDetails>,
    pub input_mode: InputMode,
    pub cmd_input: Seq<char>,
    pub search: Option<SearchView>,
    pub clipboard_bin: Seq<char>,
}

impl View for SearchState {
    type V = SearchView;

    open spec fn view(&self) -> SearchView {
        SearchView {
            pattern: self.pattern@,
            match_idxs: self.match_idxs@,
            selected_match_idx: self.selected_match_idx,
        }
    }
}

impl View for Action {
    type V = ActionView;

    open spec fn view(&self) -> ActionView {
        match *self {
            Action::Nothing => ActionView::Nothing,
            Action::Reload => ActionView::Reload,
            Action::FetchDetails { id } => ActionView::FetchDetails { id: id@ },
            Action::Copy { command, text } => ActionView::Copy {
                command: texts_of(command@),
                text: text@,
            },
        }
    }
}

impl View for App {
    type V = AppState;

    open spec fn view(&self) -> AppState {
        AppState {
            is_running: self.is_running,
            item_cursor: self.item_table_state.selected,
            item_list_cursor: self.item_list_table_state.selected,
            sort_header: self.item_list_sort_config.header@,
            sort_direction: self.item_list_sort_config.sort_direction,
            app_view: self.app_view,
            headers: texts_of(self.headers@),
            items: self.items@,
            item_details: self.item_details,
            input_mode: self.input_mode,
            cmd_input: self.cmd_input@,
            search: match self.search_state {
                Some(s) => Some(s@),
                None => None,
            },
            clipboard_bin: self.clipboard_bin@,
        }
    }
}

impl SearchView {
    /// The positions found lie inside a list of `length` rows and rise
    /// strictly, and the match jumped to last is one of them.
    pub open spec fn wf(self, length: int) -> bool {
        &&& forall|k: int|
            0 <= k < self.match_idxs.len() ==> (#[trigger] self.match_idxs[k]) < length
        &&& forall|j: int, k: int|
            0 <= j < k < self.match_idxs.len() ==> self.match_idxs[j] < self.match_idxs[k]
        &&& self.selected_match_idx matches Some(k) ==> k < self.match_idxs.len()
    }

    /// The match that a jump to the next match goes to: the one after the
    /// match jumped to last, the first one after the last one, and the first
    /// one where no match was jumped to yet.
    pub open spec fn next_match(self) -> int {
        match self.selected_match_idx {
            Some(k) => inc_or_wrap_spec(k as int, self.match_idxs.len() as int),
            None => 0,
        }
    }
}

impl AppState {
    /// The state that the browser starts in: the list view in normal mode,
    /// sorted by title upward, with no entries, no cursor and no search.
    pub open spec fn initial(headers: Seq<Seq<char>>, clipboard_bin: Seq<char>) -> AppState {
        AppState {
            is_running: true,
            item_cursor: None,
            item_list_cursor: None,
            sort_header: "title"@,
            sort_direction: SortDirection::Ascending,
            app_view: AppView::ItemListView,
            headers,
            items: Seq::empty(),
            item_details: None,
            input_mode: InputMode::Normal,
            cmd_input: Seq::empty(),
            search: None,
            clipboard_bin,
        }
    }

    /// The number of rows of a view: the entries of the list, or the fields of
    /// the open entry.
    pub open spec fn len_of(self, view: AppView) -> int {
        match view {
            AppView::ItemListView => self.items.len() as int,
            AppView::ItemView => match self.item_details {
                Some(details) => details.fields@.len() as int,
                None => 0,
            },
        }
    }

    /// The index of the last row of a view, 0 where it has no rows.
    pub open spec fn table_max_index(self, view: AppView) -> int {
        max_index_spec(self.len_of(view))
    }

    /// The cursor of a view.
    pub open spec fn cursor(self, view: AppView) -> Option<usize> {
        match view {
            AppView::ItemListView => self.item_list_cursor,
            AppView::ItemView => self.item_cursor,
        }
    }

    /// The row that the cursor of a view stands for: the first row while no row
    /// has been selected.
    pub open spec fn selected_index(self, view: AppView) -> int {
        cursor_spec(self.cursor(view))
    }

    /// The state with the cursor of a view on row `i`.
    pub open spec fn with_cursor(self, view: AppView, i: int) -> AppState {
        match view {
            AppView::ItemListView => AppState { item_list_cursor: Some(i as usize), ..self },
            AppView::ItemView => AppState { item_cursor: Some(i as usize), ..self },
        }
    }

    /// The cursor of a view goes to the row nearest to `i`.
    pub open spec fn set_selected_index(self, i: int, view: AppView) -> AppState {
        self.with_cursor(view, clamp_index_spec(i, self.table_max_index(view)))
    }

    /// The cursor of a view moves by `delta` rows and stops at the first and
    /// the last row.
    pub open spec fn add_selected_index(self, delta: int, view: AppView) -> AppState {
        self.set_selected_index(self.selected_index(view) + delta, view)
    }

    /// The cursor of a view moves one row down, from the last row to the
    /// first.
    pub open spec fn advance_selected_index(self, view: AppView) -> AppState {
        self.with_cursor(view, inc_or_wrap_spec(self.selected_index(view), self.len_of(view)))
    }

    /// The cursor of a view moves one row up, from the first row to the last.
    pub open spec fn retreat_selected_index(self, view: AppView) -> AppState {
        self.with_cursor(view, dec_or_wrap_spec(self.selected_index(view), self.len_of(view)))
    }

    /// A cursor that stands beyond the last row of a view goes to the last row.
    pub open spec fn clamp_cursor(self, view: AppView) -> AppState {
        match self.cursor(view) {
            Some(i) => self.set_selected_index(i as int, view),
            None => self,
        }
    }

    /// The command line is dropped and the mode is normal again.
    pub open spec fn reset_cmd_input(self) -> AppState {
        AppState { input_mode: InputMode::Normal, cmd_input: Seq::empty(), ..self }
    }

    /// Command mode begins with `text` as the command line. With `/` a new
    /// search begins, with an empty pattern and nothing found.
    pub open spec fn enter_command_mode(self, text: Seq<char>) -> AppState {
        AppState {
            input_mode: InputMode::Command,
            cmd_input: text,
            search: if text == "/"@ {
                Some(
                    SearchView {
                        pattern: Seq::empty(),
                        match_idxs: Seq::empty(),
                        selected_match_idx: None,
                    },
                )
            } else {
                self.search
            },
            ..self
        }
    }

    /// The list is sorted by the column and direction of the sort setting.
    pub open spec fn sort_item_list(self) -> AppState {
        let by = effective_sort(self.sort_header, self.sort_direction);
        AppState { items: stable_sorted(self.items, by.0, by.1), ..self }
    }

    /// The search, where there is one, is made anew over the list as it is
    /// now. The match jumped to last stays the same where the search still
    /// finds that many.
    pub open spec fn search_item_list(self) -> AppState {
        match self.search {
            Some(s) => {
                let found = matches_of(self.items, s.pattern);
                AppState {
                    search: Some(
                        SearchView {
                            pattern: s.pattern,
                            match_idxs: found,
                            selected_match_idx: match s.selected_match_idx {
                                Some(k) => if k < found.len() {
                                    Some(k)
                                } else {
                                    None
                                },
                                None => None,
                            },
                        },
                    ),
                    ..self
                }
            },
            None => self,
        }
    }

    /// The search goes to its next match and the cursor of the list to the
    /// row of that match. Without a search, or with nothing found, nothing
    /// changes.
    pub open spec fn select_next_search(self) -> AppState {
        match self.search {
            Some(s) => if s.match_idxs.len() > 0 {
                let next = s.next_match();
                (AppState {
                    search: Some(SearchView { selected_match_idx: Some(next as usize), ..s }),
                    ..self
                }).set_selected_index(s.match_idxs[next] as int, AppView::ItemListView)
            } else {
                self
            },
            None => self,
        }
    }

    /// The words of the command line: its pieces between single spaces.
    pub open spec fn command_words(self) -> Seq<Seq<char>> {
        split_spec(self.cmd_input, ' ')
    }

    /// Word `i` of the command line, the empty text where it has fewer words.
    pub open spec fn command_word(self, i: int) -> Seq<char> {
        if i < self.command_words().len() {
            self.command_words()[i]
        } else {
            Seq::empty()
        }
    }

    /// The direction that a sort command names: downward for `desc` as the
    /// third word, upward for anything else there and for no third word.
    pub open spec fn command_direction(self) -> SortDirection {
        if self.command_words().len() >= 3 && self.command_words()[2] == "desc"@ {
            SortDirection::Descending
        } else {
            SortDirection::Ascending
        }
    }

    /// The command line is carried out. After `:`, `q` and `qa` end the
    /// program, `sort` with a column and a direction sets the sort setting,
    /// sorts the list and makes the search anew, and anything else changes
    /// nothing. A command line that starts with `/` goes to the next match.
    pub open spec fn run_command(self) -> AppState {
        let first = self.command_words()[0];
        if first.len() == 0 {
            self
        } else if first[0] == ':' {
            let name = first.skip(1);
            if name == "q"@ || name == "qa"@ {
                AppState { is_running: false, ..self }
            } else if name == "sort"@ {
                (AppState {
                    sort_header: self.command_word(1),
                    sort_direction: self.command_direction(),
                    ..self
                }).sort_item_list().search_item_list()
            } else {
                self
            }
        } else if first[0] == '/' {
            self.select_next_search()
        } else {
            self
        }
    }

    /// What carrying out the command line asks for: a reload for `:e`, nothing
    /// otherwise.
    pub open spec fn command_action(self) -> ActionView {
        let first = self.command_words()[0];
        if first.len() > 0 && first[0] == ':' && first.skip(1) == "e"@ {
            ActionView::Reload
        } else {
            ActionView::Nothing
        }
    }

    /// The copy of the selected row: the title of the selected entry in the
    /// list view, the value of the selected field in the entry view. `Nothing`
    /// where no such row exists, or the field has no value.
    pub open spec fn yank_action(self) -> ActionView {
        let command = split_spec(self.clipboard_bin, ' ');
        match self.app_view {
            AppView::ItemListView => {
                let i = self.selected_index(AppView::ItemListView);
                if i < self.items.len() {
                    ActionView::Copy { command, text: self.items[i].title@ }
                } else {
                    ActionView::Nothing
                }
            },
            AppView::ItemView => {
                let i = self.selected_index(AppView::ItemView);
                match self.item_details {
                    Some(details) => if i < details.fields@.len() {
                        match details.fields@[i].value {
                            Some(value) => ActionView::Copy { command, text: value@ },
                            None => ActionView::Nothing,
                        }
                    } else {
                        ActionView::Nothing
                    },
                    None => ActionView::Nothing,
                }
            },
        }
    }

    /// The fetch of the full record of the selected entry, `Nothing` where the
    /// list has no such row.
    pub open spec fn fetch_action(self) -> ActionView {
        let i = self.selected_index(AppView::ItemListView);
        if i < self.items.len() {
            ActionView::FetchDetails { id: self.items[i].id@ }
        } else {
            ActionView::Nothing
        }
    }

    /// What a key does in normal mode, in the list view or the entry view:
    /// `Ctrl-d` and `Ctrl-u` move the cursor by a page, the down arrow and `j`
    /// one row down, the up arrow and `k` one row up. In the list view `G` and
    /// `g` go to the last and first row, `n` to the next match, `:` and `/`
    /// begin command mode, and `q` ends the program. In the entry view `q`
    /// goes back to the list. Any other key leaves the state as it is.
    pub open spec fn normal_key(self, key: KeyEvent) -> AppState {
        let view = self.app_view;
        let in_list = view == AppView::ItemListView;
        match key.code {
            KeyCode::Char(c) => {
                if c == 'd' {
                    if key.control {
                        self.add_selected_index(PAGE_ROWS as int, view)
                    } else {
                        self
                    }
                } else if c == 'u' {
                    if key.control {
                        self.add_selected_index(-PAGE_ROWS as int, view)
                    } else {
                        self
                    }
                } else if c == 'q' {
                    if in_list {
                        AppState { is_running: false, ..self }
                    } else {
                        AppState { app_view: AppView::ItemListView, ..self }
                    }
                } else if c == 'j' {
                    self.advance_selected_index(view)
                } else if c == 'k' {
                    self.retreat_selected_index(view)
                } else if c == 'G' && in_list {
                    self.set_selected_index(self.table_max_index(view), view)
                } else if c == 'g' && in_list {
                    self.with_cursor(view, 0)
                } else if c == 'n' && in_list {
                    self.select_next_search()
                } else if c == ':' && in_list {
                    self.enter_command_mode(":"@)
                } else if c == '/' && in_list {
                    self.enter_command_mode("/"@)
                } else {
                    self
                }
            },
            KeyCode::Down => self.advance_selected_index(view),
            KeyCode::Up => self.retreat_selected_index(view),
            _ => self,
        }
    }

    /// What a key asks for in normal mode: `y` the copy of the selected row,
    /// `R` a reload of the list in the list view and a fetch of the open entry
    /// in the entry view, Enter in the list view the fetch of the selected
    /// entry.
    pub open spec fn normal_action(self, key: KeyEvent) -> ActionView {
        let in_list = self.app_view == AppView::ItemListView;
        match key.code {
            KeyCode::Char(c) => {
                if c == 'y' {
                    self.yank_action()
                } else if c == 'R' {
                    if in_list {
                        ActionView::Reload
                    } else {
                        self.fetch_action()
                    }
                } else {
                    ActionView::Nothing
                }
            },
            KeyCode::Enter => if in_list {
                self.fetch_action()
            } else {
                ActionView::Nothing
            },
            _ => ActionView::Nothing,
        }
    }

    /// The character is appended to the pattern of the search, where there is
    /// one.
    pub open spec fn push_pattern(self, c: char) -> AppState {
        match self.search {
            Some(s) => AppState {
                search: Some(SearchView { pattern: s.pattern.push(c), ..s }),
                ..self
            },
            None => self,
        }
    }

    /// What a key does in command mode. Enter carries the command line out,
    /// then drops it and goes back to normal mode. A character is appended to
    /// the command line; where the line starts with `/`, its lowercase form is
    /// appended to the pattern and the search is made anew. Backspace takes
    /// the last character off the command line, and goes back to normal mode
    /// where none is left. Escape drops the command line and goes back to
    /// normal mode.
    pub open spec fn command_key(self, key: KeyEvent) -> AppState {
        match key.code {
            KeyCode::Enter => self.run_command().reset_cmd_input(),
            KeyCode::Char(c) => {
                let typed = AppState { cmd_input: self.cmd_input.push(c), ..self };
                if typed.cmd_input[0] == '/' {
                    typed.push_pattern(ascii_lower_spec(c)).search_item_list()
                } else {
                    typed
                }
            },
            KeyCode::Backspace => {
                if self.cmd_input.len() <= 1 {
                    AppState { input_mode: InputMode::Normal, cmd_input: Seq::empty(), ..self }
                } else {
                    AppState { cmd_input: self.cmd_input.drop_last(), ..self }
                }
            },
            KeyCode::Esc => self.reset_cmd_input(),
            _ => self,
        }
    }

    /// The state after an event.
    pub open spec fn handle_event(self, event: Event) -> AppState {
        match event {
            Event::Key(key) => match self.input_mode {
                InputMode::Normal => self.normal_key(key),
                InputMode::Command => self.command_key(key),
            },
            Event::Other => self,
        }
    }

    /// What an event asks for.
    pub open spec fn event_action(self, event: Event) -> ActionView {
        match event {
            Event::Key(key) => match self.input_mode {
                InputMode::Normal => self.normal_action(key),
                InputMode::Command => match key.code {
                    KeyCode::Enter => self.command_action(),
                    _ => ActionView::Nothing,
                },
            },
            Event::Other => ActionView::Nothing,
        }
    }

    /// The state after the full record of an entry has arrived: it is the open
    /// entry, and the entry view shows it.
    pub open spec fn with_details(self, details: ItemDetails) -> AppState {
        (AppState {
            item_details: Some(details),
            app_view: AppView::ItemView,
            ..self
        }).clamp_cursor(AppView::ItemView)
    }

    /// The state after the list has been replaced by `items`, which are in
    /// their final order.
    pub open spec fn with_items(self, items: Seq<ItemListEntry>) -> AppState {
        (AppState { items, ..self }).search_item_list().clamp_cursor(AppView::ItemListView)
    }

    /// What holds of the state between any two operations: the tables are of
    /// a size that a machine can hold, each cursor stands on a row of its table
    /// (on row 0 where the table is empty), the entry view has an entry to
    /// show, the command line is empty in normal mode and starts with `:` or
    /// `/` in command mode, a command line that starts with `/` has a search,
    /// and the search refers to rows of the list.
    pub open spec fn wf(self) -> bool {
        &&& self.items.len() <= usize::MAX
        &&& self.len_of(AppView::ItemView) <= usize::MAX
        &&& self.item_list_cursor matches Some(i) ==> i <= self.table_max_index(
            AppView::ItemListView,
        )
        &&& self.item_cursor matches Some(i) ==> i <= self.table_max_index(AppView::ItemView)
        &&& self.app_view == AppView::ItemView ==> self.item_details is Some
        &&& self.input_mode == InputMode::Normal <==> self.cmd_input.len() == 0
        &&& self.cmd_input.len() > 0 ==> self.cmd_input[0] == ':' || self.cmd_input[0] == '/'
        &&& self.cmd_input.len() > 0 && self.cmd_input[0] == '/' ==> self.search is Some
        &&& self.search matches Some(s) ==> s.wf(self.items.len() as int)
    }
}

impl AppState {
    /// The state after going to the next match `n` times.
    pub open spec fn select_next_search_times(self, n: nat) -> AppState
        decreases n,
    {
        if n == 0 {
            self
        } else {
            self.select_next_search_times((n - 1) as nat).select_next_search()
        }
    }
}

proof fn lemma_rising_positions(m: Seq<usize>, length: int, k: int)
    requires
        forall|j: int| 0 <= j < m.len() ==> (#[trigger] m[j]) < length,
        forall|i: int, j: int| 0 <= i < j < m.len() ==> m[i] < m[j],
        0 <= k < m.len(),
    ensures
        m[k] >= k,
        m.len() <= length,
{
    lemma_rising_from(m, k);
    lemma_rising_from(m, m.len() - 1);
}

proof fn lemma_rising_from(m: Seq<usize>, k: int)
    requires
        forall|i: int, j: int| 0 <= i < j < m.len() ==> m[i] < m[j],
        0 <= k < m.len(),
    ensures
        m[k] >= k,
    decreases k,
{
    if k > 0 {
        lemma_rising_from(m, k - 1);
        assert(m[k - 1] < m[k]);
    }
}

/// After going to the next match `n` times, starting from match `k` of
/// `count` matches, the search stands at match `(k + n) mod count`, and the
/// cursor of the list on the row of that match. Nothing else has changed.
pub proof fn lemma_select_next_search_times(s: AppState, n: nat)
    requires
        s.wf(),
        s.search is Some,
        s.search->0.match_idxs.len() > 0,
        s.search->0.selected_match_idx is Some,
    ensures
        ({
            let search = s.search->0;
            let at = advance_spec(
                search.selected_match_idx->0 as int,
                n as int,
                search.match_idxs.len() as int,
            );
            let t = s.select_next_search_times(n);
            &&& 0 <= at < search.match_idxs.len()
            &&& t.search == Some(SearchView { selected_match_idx: Some(at as usize), ..search })
            &&& n > 0 ==> t == (AppState {
                search: t.search,
                item_list_cursor: Some(search.match_idxs[at]),
                ..s
            })
        }),
    decreases n,
{
    let search = s.search->0;
    let count = search.match_idxs.len() as int;
    let k = search.selected_match_idx->0 as int;
    lemma_rising_positions(search.match_idxs, s.items.len() as int, 0);
    lemma_mod_bound(k + n, count);
    if n == 0 {
        lemma_small_mod(k as nat, count as nat);
    } else {
        lemma_select_next_search_times(s, (n - 1) as nat);
        let before = advance_spec(k, n - 1, count);
        lemma_moves_are_repeated_steps(k, n - 1, count);
        let at = advance_spec(k, n as int, count);
        assert(search.match_idxs[at] < s.items.len());
    }
}

/// Going to the next match as many times as there are matches comes back to
/// the match that the search stood at. Where it stood at none, the first step
/// goes to the first match, and as many steps as there are matches come back
/// to the first match.
pub proof fn lemma_search_cycle(s: AppState)
    requires
        s.wf(),
        s.search is Some,
        s.search->0.match_idxs.len() > 0,
    ensures
        s.search->0.selected_match_idx is Some ==> s.select_next_search_times(
            s.search->0.match_idxs.len(),
        ).search == s.search,
        s.search->0.selected_match_idx is None ==> {
            let first = s.select_next_search();
            &&& first.search->0.selected_match_idx == Some(0usize)
            &&& first.item_list_cursor == Some(s.search->0.match_idxs[0])
            &&& first.select_next_search_times(s.search->0.match_idxs.len()).search == first.search
        },
{
    let search = s.search->0;
    let count = search.match_idxs.len();
    lemma_rising_positions(search.match_idxs, s.items.len() as int, 0);
    if search.selected_match_idx is Some {
        let k = search.selected_match_idx->0 as int;
        lemma_select_next_search_times(s, count);
        lemma_mod_add_multiples_vanish(k, count as int);
        lemma_small_mod(k as nat, count as nat);
        assert(count + k == k + count);
    } else {
        let first = s.select_next_search();
        assert(search.match_idxs[0] < s.items.len());
        lemma_select_next_search_times(first, count);
        lemma_mod_add_multiples_vanish(0, count as int);
        lemma_small_mod(0, count as nat);
    }
}

/// The command `:sort title desc`, confirmed with Enter, leaves the list
/// sorted by title downward without regard to case: no entry stands before
/// one whose title is larger, and where no two titles are equal, every entry
/// stands before all those whose titles are smaller. The command line is
/// dropped and the mode is normal again.
pub proof fn lemma_sort_title_desc(s: AppState)
    requires
        s.input_mode == InputMode::Command,
        s.cmd_input == ":sort title desc"@,
    ensures
        ({
            let t = s.handle_event(Event::Key(KeyEvent { code: KeyCode::Enter, control: false }));
            &&& t.items == stable_sorted(s.items, SortField::Title, SortDirection::Descending)
            &&& forall|i: int, j: int|
                0 <= i < j < t.items.len() ==> !chars_lt(
                    lowercase_of(#[trigger] t.items[i].title@),
                    lowercase_of(#[trigger] t.items[j].title@),
                )
            &&& has_no_ties(s.items, SortField::Title) ==> forall|i: int, j: int|
                0 <= i < j < t.items.len() ==> chars_lt(
                    lowercase_of(#[trigger] t.items[j].title@),
                    lowercase_of(#[trigger] t.items[i].title@),
                )
            &&& t.input_mode == InputMode::Normal
            &&& t.cmd_input == Seq::<char>::empty()
        }),
{
    reveal_strlit(":sort title desc");
    reveal_strlit("sort");
    reveal_strlit("title");
    reveal_strlit("desc");
    reveal_strlit("id");
    reveal_strlit("q");
    reveal_strlit("qa");
    let line = s.cmd_input;
    lemma_split_at_first(line, ' ', 5);
    let rest = line.skip(6);
    lemma_split_at_first(rest, ' ', 5);
    let last = rest.skip(6);
    lemma_split_at_first(last, ' ', 4);
    let words = s.command_words();
    assert(words =~= seq![line.take(5), rest.take(5), last]);
    assert(words[0].skip(1) =~= "sort"@);
    assert(words[1] =~= "title"@);
    assert(words[2] =~= "desc"@);
    assert(!("sort"@ =~= "q"@));
    assert(!("sort"@ =~= "qa"@));
    assert(!("title"@ =~= "id"@));
    let sorted = stable_sorted(s.items, SortField::Title, SortDirection::Descending);
    lemma_stable_sorted_is_the_stable_sort(
        sorted,
        s.items,
        SortField::Title,
        SortDirection::Descending,
    );
    if has_no_ties(s.items, SortField::Title) {
        lemma_sort_without_ties_is_strict(s.items, SortField::Title, SortDirection::Descending);
    }
    let t = s.handle_event(Event::Key(KeyEvent { code: KeyCode::Enter, control: false }));
    assert(t.items == sorted);
    assert forall|i: int, j: int| 0 <= i < j < t.items.len() implies !chars_lt(
        lowercase_of(#[trigger] t.items[i].title@),
        lowercase_of(#[trigger] t.items[j].title@),
    ) by {
        assert(!before(
            sort_key(sorted[j], SortField::Title),
            sort_key(sorted[i], SortField::Title),
            SortDirection::Descending,
        ));
    }
}

/// The press of a character key with no modifier.
pub open spec fn char_key(c: char) -> Event {
    Event::Key(KeyEvent { code: KeyCode::Char(c), control: false })
}

/// The events of typing a text: one key press for each character, with no
/// modifier.
pub open spec fn typing(text: Seq<char>) -> Seq<Event>
    decreases text.len(),
{
    if text.len() == 0 {
        Seq::empty()
    } else {
        typing(text.drop_last()).push(char_key(text.last()))
    }
}

/// A text with every ASCII capital letter folded to lowercase.
pub open spec fn ascii_lowered(text: Seq<char>) -> Seq<char>
    decreases text.len(),
{
    if text.len() == 0 {
        Seq::empty()
    } else {
        ascii_lowered(text.drop_last()).push(ascii_lower_spec(text.last()))
    }
}

impl AppState {
    /// The state after a sequence of events, taken in order.
    pub open spec fn handle_events(self, events: Seq<Event>) -> AppState
        decreases events.len(),
    {
        if events.len() == 0 {
            self
        } else {
            self.handle_events(events.drop_last()).handle_event(events.last())
        }
    }

    /// The state while a search is being typed: command mode, with `/` and the
    /// text on the command line, and a search for the text in lowercase that
    /// holds what it finds in the list. Before the first character nothing
    /// has been looked for, and nothing is found.
    pub open spec fn searching_for(self, text: Seq<char>) -> AppState {
        AppState {
            input_mode: InputMode::Command,
            cmd_input: "/"@ + text,
            search: Some(
                SearchView {
                    pattern: ascii_lowered(text),
                    match_idxs: if text.len() == 0 {
                        Seq::empty()
                    } else {
                        matches_of(self.items, ascii_lowered(text))
                    },
                    selected_match_idx: None,
                },
            ),
            ..self
        }
    }
}

/// Every event leaves a well-formed state well formed.
pub proof fn lemma_handle_event_keeps_wf(s: AppState, event: Event)
    requires
        s.wf(),
    ensures
        s.handle_event(event).wf(),
{
    reveal_strlit(":");
    reveal_strlit("/");
    let by = effective_sort(s.command_word(1), s.command_direction());
    lemma_stable_sorted_is_the_stable_sort(s.items, s.items, by.0, by.1);
    let sorted = stable_sorted(s.items, by.0, by.1);
    if s.search is Some {
        let search = s.search->0;
        lemma_matches_of(s.items, search.pattern);
        lemma_matches_of(sorted, search.pattern);
        match event {
            Event::Key(key) => match key.code {
                KeyCode::Char(c) => {
                    lemma_matches_of(s.items, search.pattern.push(ascii_lower_spec(c)));
                },
                _ => {},
            },
            Event::Other => {},
        }
    }
}

proof fn lemma_typing_a_search(s: AppState, text: Seq<char>)
    requires
        s.input_mode == InputMode::Normal,
        s.app_view == AppView::ItemListView,
    ensures
        s.handle_event(
            Event::Key(KeyEvent { code: KeyCode::Char('/'), control: false }),
        ).handle_events(typing(text)) == s.searching_for(text),
    decreases text.len(),
{
    reveal_strlit("/");
    let begun = s.handle_event(Event::Key(KeyEvent { code: KeyCode::Char('/'), control: false }));
    if text.len() == 0 {
        assert("/"@ + text =~= "/"@);
        assert(begun.handle_events(typing(text)) == begun);
    } else {
        let shorter = text.drop_last();
        lemma_typing_a_search(s, shorter);
        assert(typing(text).drop_last() =~= typing(shorter));
        assert(typing(text).last() == char_key(text.last()));
        assert(("/"@ + shorter).push(text.last()) =~= "/"@ + text);
        assert(("/"@ + text)[0] == '/');
    }
}

/// Beginning a search with `/` in the list view, typing any text and leaving
/// with Escape drops the command line and goes back to normal mode. The
/// search for the typed text stays, with what it found; nothing else has
/// changed.
pub proof fn lemma_search_then_escape(s: AppState, text: Seq<char>)
    requires
        s.input_mode == InputMode::Normal,
        s.app_view == AppView::ItemListView,
    ensures
        s.handle_event(
            Event::Key(KeyEvent { code: KeyCode::Char('/'), control: false }),
        ).handle_events(typing(text)).handle_event(
            Event::Key(KeyEvent { code: KeyCode::Esc, control: false }),
        ) == (AppState {
            input_mode: InputMode::Normal,
            cmd_input: Seq::empty(),
            ..s.searching_for(text)
        }),
{
    lemma_typing_a_search(s, text);
}

/// Escape in command mode drops the command line and goes back to normal
/// mode. The search stays as it is, so that `n` still goes through what it
/// found.
pub proof fn lemma_escape_leaves_command_mode(s: AppState)
    requires
        s.input_mode == InputMode::Command,
    ensures
        ({
            let t = s.handle_event(Event::Key(KeyEvent { code: KeyCode::Esc, control: false }));
            t == (AppState { input_mode: InputMode::Normal, cmd_input: Seq::empty(), ..s })
        }),
{
}

impl SelectionState {
    /// The selected row.
    pub fn selected(&self) -> (r: Option<usize>)
        ensures
            r == self.selected,
    {
        self.selected
    }

    /// Selects a row, or none.
    pub fn select(&mut self, index: Option<usize>)
        ensures
            final(self).selected == index,
    {
        self.selected = index;
    }
}

impl App {
    /// The browser as it starts: see `AppState::initial`.
    pub fn new(config: AppConfig) -> (app: App)
        ensures
            app@ == AppState::initial(texts_of(config.headers@), config.clipboard_bin@),
            app@.wf(),
    {
        App {
            is_running: true,
            item_table_state: SelectionState { selected: None },
            item_list_table_state: SelectionState { selected: None },
            item_list_sort_config: SortConfig {
                header: "title".to_owned(),
                sort_direction: SortDirection::Ascending,
            },
            app_view: AppView::ItemListView,
            headers: config.headers,
            items: Vec::new(),
            item_details: None,
            input_mode: InputMode::Normal,
            cmd_input: String::new(),
            search_state: None,
            clipboard_bin: config.clipboard_bin,
        }
    }

    /// The number of rows of a view.
    pub fn table_len(&self, app_view: &AppView) -> (r: usize)
        ensures
            r == self@.len_of(*app_view),
    {
        match app_view {
            AppView::ItemListView => self.items.len(),
            AppView::ItemView => match &self.item_details {
                Some(details) => details.fields.len(),
                None => 0,
            },
        }
    }

    /// The index of the last row of a view, 0 where it has no rows.
    pub fn table_max_index(&self, app_view: &AppView) -> (r: usize)
        ensures
            r == self@.table_max_index(*app_view),
    {
        max_index(self.table_len(app_view))
    }

    /// The row that the cursor of a view stands for: the first row while no row
    /// has been selected.
    pub fn selected_index(&self, app_view: &AppView) -> (r: usize)
        ensures
            r == self@.selected_index(*app_view),
    {
        let cursor = match app_view {
            AppView::ItemListView => self.item_list_table_state.selected(),
            AppView::ItemView => self.item_table_state.selected(),
        };
        match cursor {
            Some(i) => i,
            None => 0,
        }
    }

    fn select(&mut self, i: usize, app_view: &AppView)
        ensures
            final(self)@ == old(self)@.with_cursor(*app_view, i as int),
    {
        match app_view {
            AppView::ItemListView => self.item_list_table_state.select(Some(i)),
            AppView::ItemView => self.item_table_state.select(Some(i)),
        }
    }

    /// Puts the cursor of a view on the row nearest to `i`.
    pub fn set_selected_index(&mut self, i: i32, app_view: &AppView)
        ensures
            final(self)@ == old(self)@.set_selected_index(i as int, *app_view),
            old(self)@.wf() ==> final(self)@.wf(),
    {
        let target = clamp_index(i, self.table_max_index(app_view));
        self.select(target, app_view);
    }

    /// Moves the cursor of a view by `i_delta` rows, down for a positive count
    /// and up for a negative one. The cursor stops at the first and the last
    /// row.
    pub fn add_selected_index(&mut self, i_delta: i32, app_view: &AppView)
        ensures
            final(self)@ == old(self)@.add_selected_index(i_delta as int, *app_view),
            old(self)@.wf() ==> final(self)@.wf(),
    {
        let current = Some(self.selected_index(app_view));
        let length = self.table_len(app_view);
        let target = if i_delta >= 0 {
            advance_clamped(current, i_delta as usize, length)
        } else {
            retreat_clamped(current, (-(i_delta as i64)) as usize, length)
        };
        self.select(target, app_view);
    }

    /// Moves the cursor of a view one row down, from the last row to the
    /// first.
    pub fn advance_selected_index(&mut self, app_view: &AppView)
        ensures
            final(self)@ == old(self)@.advance_selected_index(*app_view),
            old(self)@.wf() ==> final(self)@.wf(),
    {
        let target = inc_or_wrap(self.selected_index(app_view), self.table_len(app_view));
        self.select(target, app_view);
    }

    /// Moves the cursor of a view one row up, from the first row to the last.
    pub fn retreat_selected_index(&mut self, app_view: &AppView)
        ensures
            final(self)@ == old(self)@.retreat_selected_index(*app_view),
            old(self)@.wf() ==> final(self)@.wf(),
    {
        let target = dec_or_wrap(self.selected_index(app_view), self.table_len(app_view));
        self.select(target, app_view);
    }

    fn clamp_cursor(&mut self, app_view: &AppView)
        ensures
            final(self)@ == old(self)@.clamp_cursor(*app_view),
    {
        let cursor = match app_view {
            AppView::ItemListView => self.item_list_table_state.selected(),
            AppView::ItemView => self.item_table_state.selected(),
        };
        match cursor {
            Some(i) => {
                let last = self.table_max_index(app_view);
                let target = if i > last {
                    last
                } else {
                    i
                };
                self.select(target, app_view);
            },
            None => {},
        }
    }

    /// The selected entry, `None` where the list has no such row.
    pub fn current_item(&self) -> (r: Option<&ItemListEntry>)
        ensures
            r == (if self@.selected_index(AppView::ItemListView) < self.items@.len() {
                Some(&self.items@[self@.selected_index(AppView::ItemListView)])
            } else {
                None
            }),
    {
        let i = self.selected_index(&AppView::ItemListView);
        if i < self.items.len() {
            Some(&self.items[i])
        } else {
            None
        }
    }

    /// The selected field of the open entry, `None` where no entry is open or
    /// it has no such field.
    pub fn current_item_detail(&self) -> (r: Option<&ItemDetailsField>)
        ensures
            r == (match self.item_details {
                Some(details) => if self@.selected_index(AppView::ItemView)
                    < details.fields@.len() {
                    Some(&details.fields@[self@.selected_index(AppView::ItemView)])
                } else {
                    None
                },
                None => None,
            }),
    {
        let i = self.selected_index(&AppView::ItemView);
        match &self.item_details {
            Some(details) => if i < details.fields.len() {
                Some(&details.fields[i])
            } else {
                None
            },
            None => None,
        }
    }

    /// Drops the command line and goes back to normal mode.
    pub fn reset_cmd_input(&mut self)
        ensures
            final(self)@ == old(self)@.reset_cmd_input(),
            old(self)@.wf() ==> final(self)@.wf(),
    {
        self.input_mode = InputMode::Normal;
        self.cmd_input = String::new();
    }

    /// Begins command mode with `cmd_input` as the command line, `:` for a
    /// command and `/` for a search. With `/` a new search begins.
    pub fn enter_command_mode(&mut self, cmd_input: &str)
        ensures
            final(self)@ == old(self)@.enter_command_mode(cmd_input@),
            old(self)@.wf() && (cmd_input@ == ":"@ || cmd_input@ == "/"@) ==> final(self)@.wf(),
    {
        proof {
            reveal_strlit(":");
            reveal_strlit("/");
        }
        self.input_mode = InputMode::Command;
        self.cmd_input = cmd_input.to_owned();
        if str_eq(cmd_input, "/") {
            self.search_state = Some(
                SearchState {
                    pattern: String::new(),
                    match_idxs: Vec::new(),
                    selected_match_idx: None,
                },
            );
        }
    }

    /// Sorts the list by the column and direction of the sort setting. A
    /// header that names no column sorts by title, upward. The sort is stable.
    /// A search refers to the rows by their positions: after a sort it is to
    /// be made anew with `search_item_list`, as `run_command` does.
    pub fn sort_item_list(&mut self)
        ensures
            final(self)@ == old(self)@.sort_item_list(),
            final(self).items@.len() == old(self).items@.len(),
            old(self)@.wf() ==> final(self)@.wf(),
    {
        let (field, direction) = match field_of(self.item_list_sort_config.header.as_str()) {
            Some(field) => (field, self.item_list_sort_config.sort_direction),
            None => (SortField::Title, SortDirection::Ascending),
        };
        let mut items: Vec<ItemListEntry> = Vec::new();
        core::mem::swap(&mut self.items, &mut items);
        proof {
            lemma_stable_sorted_is_the_stable_sort(items@, items@, field, direction);
        }
        self.items = sort_items(items, field, direction);
    }

    /// Makes the search, where there is one, anew over the list as it is now.
    pub fn search_item_list(&mut self)
        ensures
            final(self)@ == old(self)@.search_item_list(),
            final(self)@.search matches Some(s) ==> s.wf(final(self).items@.len() as int),
            old(self)@.wf() ==> final(self)@.wf(),
    {
        let taken = self.search_state.take();
        match taken {
            Some(search) => {
                let found = compute_matches(&self.items, search.pattern.as_str());
                let selected = match search.selected_match_idx {
                    Some(k) => if k < found.len() {
                        Some(k)
                    } else {
                        None
                    },
                    None => None,
                };
                self.search_state = Some(
                    SearchState {
                        pattern: search.pattern,
                        match_idxs: found,
                        selected_match_idx: selected,
                    },
                );
            },
            None => {},
        }
    }

    /// Goes to the next match of the search and puts the cursor of the list on
    /// its row: to the match after the one gone to last, to the first match
    /// after the last one, and to the first match where none was gone to yet.
    /// Without a search, or with nothing found, nothing changes.
    pub fn select_next_search(&mut self)
        ensures
            final(self)@ == old(self)@.select_next_search(),
            old(self)@.wf() ==> final(self)@.wf(),
    {
        let taken = self.search_state.take();
        match taken {
            Some(search) => {
                if search.match_idxs.len() > 0 {
                    let next = match search.selected_match_idx {
                        Some(k) => inc_or_wrap(k, search.match_idxs.len()),
                        None => 0,
                    };
                    let row = search.match_idxs[next];
                    self.search_state = Some(
                        SearchState {
                            pattern: search.pattern,
                            match_idxs: search.match_idxs,
                            selected_match_idx: Some(next),
                        },
                    );
                    let last = self.table_max_index(&AppView::ItemListView);
                    let target = if row > last {
                        last
                    } else {
                        row
                    };
                    self.select(target, &AppView::ItemListView);
                } else {
                    self.search_state = Some(search);
                }
            },
            None => {},
        }
    }
}

impl App {
    /// Takes the summaries that a fetch has brought as the new list: derives
    /// the search term of each, sorts them by the sort setting, makes the
    /// search anew and keeps the cursor inside the list.
    pub fn populate_items(&mut self, items: Vec<ItemListEntry>)
        ensures
            is_sorted_indexing(
                final(self).items@,
                items@,
                effective_sort(old(self)@.sort_header, old(self)@.sort_direction).0,
                effective_sort(old(self)@.sort_header, old(self)@.sort_direction).1,
            ),
            final(self)@ == old(self)@.with_items(final(self).items@),
            old(self)@.wf() ==> final(self)@.wf(),
    {
        let ghost by = effective_sort(old(self)@.sort_header, old(self)@.sort_direction);
        let mut indexed: Vec<ItemListEntry> = Vec::new();
        for item in it: items
            invariant
                it.seq() == items@,
                indexed@.len() == it.index(),
                forall|i: int|
                    0 <= i < it.index() ==> is_indexed_entry(items@[i], #[trigger] indexed@[i]),
        {
            let mut entry = item;
            entry.gen_index_term();
            indexed.push(entry);
        }
        proof {
            assert(keys_of(indexed@, by.0) =~= keys_of(items@, by.0));
            lemma_sorting_permutation_exists(keys_of(items@, by.0), by.1);
        }
        self.items = indexed;
        self.sort_item_list();
        self.search_item_list();
        self.clamp_cursor(&AppView::ItemListView);
        assert(self.items.len() <= usize::MAX);
    }

    /// Takes the full record that a fetch has brought as the open entry, with
    /// every missing field value replaced by the empty text, shows it in the
    /// entry view and keeps the cursor inside its fields.
    pub fn populate_item_details(&mut self, details: ItemDetails)
        ensures
            final(self).item_details is Some,
            is_filled_details(details, final(self).item_details->0),
            final(self)@ == old(self)@.with_details(final(self).item_details->0),
            old(self)@.wf() ==> final(self)@.wf(),
    {
        let mut filled = details;
        filled.fill_none_fields();
        assert(filled.fields.len() <= usize::MAX);
        self.item_details = Some(filled);
        self.app_view = AppView::ItemView;
        self.clamp_cursor(&AppView::ItemView);
    }

    fn fetch_selected(&self) -> (action: Action)
        ensures
            action@ == self@.fetch_action(),
    {
        match self.current_item() {
            Some(item) => Action::FetchDetails { id: item.id.clone() },
            None => Action::Nothing,
        }
    }

    /// The copy of the selected row to the clipboard: the title of the
    /// selected entry in the list view, the value of the selected field in the
    /// entry view. The command is the clipboard setting, split at spaces.
    pub fn yank(&self) -> (action: Action)
        ensures
            action@ == self@.yank_action(),
    {
        match self.app_view {
            AppView::ItemListView => match self.current_item() {
                Some(item) => Action::Copy {
                    command: split_str(self.clipboard_bin.as_str(), ' '),
                    text: item.title.clone(),
                },
                None => Action::Nothing,
            },
            AppView::ItemView => match self.current_item_detail() {
                Some(field) => match &field.value {
                    Some(value) => Action::Copy {
                        command: split_str(self.clipboard_bin.as_str(), ' '),
                        text: value.clone(),
                    },
                    None => Action::Nothing,
                },
                None => Action::Nothing,
            },
        }
    }

    /// Carries out the command line: see `AppState::run_command`. Returns
    /// what the command asks for on the outside: a reload for `:e`.
    pub fn run_command(&mut self) -> (action: Action)
        ensures
            final(self)@ == old(self)@.run_command(),
            action@ == old(self)@.command_action(),
            old(self)@.wf() ==> final(self)@.wf(),
    {
        let chars = to_chars(self.cmd_input.as_str());
        let words = split(&chars, ' ');
        if words[0].len() == 0 {
            return Action::Nothing;
        }
        let first = &words[0];
        let lead = first[0];
        if lead == ':' {
            let is_quit = chars_eq_from(first, 1, "q") || chars_eq_from(first, 1, "qa");
            let is_sort = chars_eq_from(first, 1, "sort");
            let is_reload = chars_eq_from(first, 1, "e");
            if is_quit {
                self.is_running = false;
            } else if is_sort {
                let header = if words.len() > 1 {
                    string_of(&words[1])
                } else {
                    String::new()
                };
                let direction = if words.len() >= 3 && chars_eq(&words[2], "desc") {
                    SortDirection::Descending
                } else {
                    SortDirection::Ascending
                };
                self.item_list_sort_config = SortConfig { header, sort_direction: direction };
                self.sort_item_list();
                self.search_item_list();
            }
            if is_reload {
                Action::Reload
            } else {
                Action::Nothing
            }
        } else if lead == '/' {
            self.select_next_search();
            Action::Nothing
        } else {
            Action::Nothing
        }
    }

    fn normal_key(&mut self, key: KeyEvent) -> (action: Action)
        ensures
            final(self)@ == old(self)@.normal_key(key),
            action@ == old(self)@.normal_action(key),
            old(self)@.wf() ==> final(self)@.wf(),
    {
        let view = self.app_view;
        let in_list = match view {
            AppView::ItemListView => true,
            AppView::ItemView => false,
        };
        match key.code {
            KeyCode::Char(c) => {
                if c == 'd' {
                    if key.control {
                        self.add_selected_index(PAGE_ROWS, &view);
                    }
                } else if c == 'u' {
                    if key.control {
                        self.add_selected_index(-PAGE_ROWS, &view);
                    }
                } else if c == 'q' {
                    if in_list {
                        self.is_running = false;
                    } else {
                        self.app_view = AppView::ItemListView;
                    }
                } else if c == 'j' {
                    self.advance_selected_index(&view);
                } else if c == 'k' {
                    self.retreat_selected_index(&view);
                } else if c == 'G' && in_list {
                    let last = self.table_max_index(&view);
                    self.select(last, &view);
                } else if c == 'g' && in_list {
                    self.select(0, &view);
                } else if c == 'n' && in_list {
                    self.select_next_search();
                } else if c == ':' && in_list {
                    self.enter_command_mode(":");
                } else if c == '/' && in_list {
                    self.enter_command_mode("/");
                } else if c == 'y' {
                    return self.yank();
                } else if c == 'R' {
                    if in_list {
                        return Action::Reload;
                    } else {
                        return self.fetch_selected();
                    }
                }
                Action::Nothing
            },
            KeyCode::Down => {
                self.advance_selected_index(&view);
                Action::Nothing
            },
            KeyCode::Up => {
                self.retreat_selected_index(&view);
                Action::Nothing
            },
            KeyCode::Enter => {
                if in_list {
                    self.fetch_selected()
                } else {
                    Action::Nothing
                }
            },
            _ => Action::Nothing,
        }
    }

    fn push_pattern(&mut self, c: char)
        ensures
            final(self)@ == old(self)@.push_pattern(c),
    {
        let taken = self.search_state.take();
        match taken {
            Some(search) => {
                let mut pattern = search.pattern;
                push_char(&mut pattern, c);
                self.search_state = Some(
                    SearchState {
                        pattern,
                        match_idxs: search.match_idxs,
                        selected_match_idx: search.selected_match_idx,
                    },
                );
            },
            None => {},
        }
    }

    fn command_key(&mut self, key: KeyEvent) -> (action: Action)
        ensures
            final(self)@ == old(self)@.command_key(key),
            action@ == (match key.code {
                KeyCode::Enter => old(self)@.command_action(),
                _ => ActionView::Nothing,
            }),
            old(self)@.wf() && old(self).input_mode == InputMode::Command ==> final(self)@.wf(),
    {
        match key.code {
            KeyCode::Enter => {
                let action = self.run_command();
                self.reset_cmd_input();
                action
            },
            KeyCode::Char(c) => {
                push_char(&mut self.cmd_input, c);
                let typed = to_chars(self.cmd_input.as_str());
                if typed[0] == '/' {
                    self.push_pattern(ascii_lower(c));
                    self.search_item_list();
                }
                Action::Nothing
            },
            KeyCode::Backspace => {
                let _ = pop_char(&mut self.cmd_input);
                if self.cmd_input.as_str().is_empty() {
                    assert(self.cmd_input@ =~= Seq::<char>::empty());
                    self.input_mode = InputMode::Normal;
                }
                Action::Nothing
            },
            KeyCode::Esc => {
                self.reset_cmd_input();
                Action::Nothing
            },
            _ => Action::Nothing,
        }
    }

    /// Takes an event from the terminal: changes the state as
    /// `AppState::handle_event` says, and returns what the event asks for on
    /// the outside. Only key presses change anything.
    pub fn handle_event(&mut self, event: Event) -> (action: Action)
        ensures
            final(self)@ == old(self)@.handle_event(event),
            action@ == old(self)@.event_action(event),
            old(self)@.wf() ==> final(self)@.wf(),
    {
        match event {
            Event::Key(key) => match self.input_mode {
                InputMode::Normal => self.normal_key(key),
                InputMode::Command => self.command_key(key),
            },
            Event::Other => Action::Nothing,
        }
    }
}

} // verus!
